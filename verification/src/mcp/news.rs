//! The news tools: their parameters, how they become command arguments, and
//! the decisions taken around the requests.
use vstd::prelude::*;

use crate::commands::news::{
    HotArgs, HotWeekArgs, ListArgs, RecommendedArgs, SearchArgs, SearchSort, ShowArgs,
};
use crate::mcp::ranking::{arrange_hits, arranged, cleaned, doc_views};
use crate::mcp::{or_else, ParamError};
use crate::models::news::{
    document_news_id, news_url, opt_view, NewsInfo, NewsInfoView, ZzkDocument, ZzkDocumentView,
};
use crate::text::{all_ws, is_blank, remove_whitespace, strip_ws, trim, trimmed};

pub use crate::mcp::ranking::clean_search_results;

verus! {

// ---------------------------------------------------------------------------
// list
// ---------------------------------------------------------------------------

/// Parameters of the news list tool.
#[derive(Debug, Default)]
pub struct ListNewsParams {
    /// Page number, from 1.
    pub page_index: Option<u64>,
    /// Items per page, 10 by default.
    pub page_size: Option<u64>,
}

impl ListNewsParams {
    /// The list arguments, with the command-line defaults (page 1, 10 items).
    pub fn into_list_args(self) -> (r: ListArgs)
        ensures
            r.page_index == or_else(self.page_index, 1),
            r.page_size == or_else(self.page_size, 10),
            !r.title_only,
            !r.ids_only,
    {
        ListArgs {
            page_index: self.page_index.unwrap_or(1),
            page_size: self.page_size.unwrap_or(10),
            title_only: false,
            ids_only: false,
        }
    }
}

// ---------------------------------------------------------------------------
// search
// ---------------------------------------------------------------------------

/// The order of search hits, as a tool parameter.
#[derive(Debug, Clone, Copy, PartialEq, Eq, Structural)]
pub enum NewsSearchSort {
    /// As ranked by the search service.
    Relevance,
    /// Newest first.
    Time,
}

/// The command's sort order for a tool's sort order.
pub open spec fn search_sort_of(s: NewsSearchSort) -> SearchSort {
    match s {
        NewsSearchSort::Relevance => SearchSort::Relevance,
        NewsSearchSort::Time => SearchSort::Time,
    }
}

impl From<NewsSearchSort> for SearchSort {
    fn from(value: NewsSearchSort) -> (r: SearchSort)
        ensures
            r == search_sort_of(value),
    {
        match value {
            NewsSearchSort::Relevance => SearchSort::Relevance,
            NewsSearchSort::Time => SearchSort::Time,
        }
    }
}

impl vstd::std_specs::convert::FromSpecImpl<NewsSearchSort> for SearchSort {
    open spec fn obeys_from_spec() -> bool {
        true
    }

    open spec fn from_spec(v: NewsSearchSort) -> SearchSort {
        search_sort_of(v)
    }
}

/// Parameters of the news search tool.
#[derive(Debug)]
pub struct SearchNewsParams {
    /// Search words; must not be blank.
    pub keywords: String,
    /// Page number, from 1.
    pub page_index: Option<u64>,
    /// `YYYY-MM-DD`.
    pub start_date: Option<String>,
    /// `YYYY-MM-DD`.
    pub end_date: Option<String>,
    /// Least number of views.
    pub min_views: Option<u64>,
    /// Relevance (the default) or time.
    pub sort: Option<NewsSearchSort>,
    /// How many hits to return, `1..=15`, 15 by default.
    pub limit: Option<u32>,
}

impl SearchNewsParams {
    /// The search arguments. Blank keywords and a limit outside `1..=15`
    /// are refused, in that order.
    pub fn into_search_args(self) -> (r: Result<SearchArgs, ParamError>)
        ensures
            all_ws(self.keywords@) ==> r == Err::<SearchArgs, ParamError>(
                ParamError::EmptyKeywords,
            ),
            !all_ws(self.keywords@) && !(1 <= or_else(self.limit, 15) <= 15) ==> r == Err::<
                SearchArgs,
                ParamError,
            >(ParamError::LimitOutOfRange),
            !all_ws(self.keywords@) && 1 <= or_else(self.limit, 15) <= 15 ==> match r {
                Ok(a) => {
                    &&& a.keywords == self.keywords
                    &&& a.page_index == or_else(self.page_index, 1)
                    &&& a.start_date == self.start_date
                    &&& a.end_date == self.end_date
                    &&& a.view_times_at_least == self.min_views
                    &&& !a.title_only
                    &&& !a.ids_only
                    &&& a.sort == search_sort_of(or_else(self.sort, NewsSearchSort::Relevance))
                    &&& a.limit == or_else(self.limit, 15)
                },
                Err(_) => false,
            },
    {
        if is_blank(self.keywords.as_str()) {
            return Err(ParamError::EmptyKeywords);
        }
        let limit = self.limit.unwrap_or(15);
        if !(1 <= limit && limit <= 15) {
            return Err(ParamError::LimitOutOfRange);
        }
        Ok(SearchArgs {
            keywords: self.keywords,
            page_index: self.page_index.unwrap_or(1),
            start_date: self.start_date,
            end_date: self.end_date,
            view_times_at_least: self.min_views,
            title_only: false,
            ids_only: false,
            sort: self.sort.unwrap_or(NewsSearchSort::Relevance).into(),
            limit,
        })
    }
}

// ---------------------------------------------------------------------------
// hot, hot-week, recommended
// ---------------------------------------------------------------------------

/// Parameters of the hot news tool.
#[derive(Debug)]
pub struct HotNewsParams {
    /// The last N days; not together with a date.
    pub last_days: Option<u32>,
    /// `YYYY-MM-DD`; comes with `end_date`.
    pub start_date: Option<String>,
    /// `YYYY-MM-DD`; comes with `start_date`.
    pub end_date: Option<String>,
    /// Page number, from 1.
    pub page_index: Option<u64>,
    /// Items per page, 10 by default.
    pub page_size: Option<u64>,
}

impl HotNewsParams {
    /// The hot-news arguments. `last_days` together with a date is refused
    /// first, then a start date without an end date or the other way round.
    pub fn into_hot_args(self) -> (r: Result<HotArgs, ParamError>)
        ensures
            self.last_days is Some && (self.start_date is Some || self.end_date is Some) ==> r
                == Err::<HotArgs, ParamError>(ParamError::LastDaysWithDates),
            !(self.last_days is Some && (self.start_date is Some || self.end_date is Some)) && (
            self.start_date is Some) != (self.end_date is Some) ==> r == Err::<HotArgs, ParamError>(
                ParamError::UnpairedDates,
            ),
            !(self.last_days is Some && (self.start_date is Some || self.end_date is Some)) && (
            self.start_date is Some) == (self.end_date is Some) ==> r == Ok::<HotArgs, ParamError>(
                HotArgs {
                    start_date: self.start_date,
                    end_date: self.end_date,
                    last_days: self.last_days,
                    page_index: or_else(self.page_index, 1),
                    page_size: or_else(self.page_size, 10),
                    title_only: false,
                    ids_only: false,
                },
            ),
    {
        if self.last_days.is_some() && (self.start_date.is_some() || self.end_date.is_some()) {
            return Err(ParamError::LastDaysWithDates);
        }
        if self.start_date.is_some() != self.end_date.is_some() {
            return Err(ParamError::UnpairedDates);
        }
        Ok(HotArgs {
            start_date: self.start_date,
            end_date: self.end_date,
            last_days: self.last_days,
            page_index: self.page_index.unwrap_or(1),
            page_size: self.page_size.unwrap_or(10),
            title_only: false,
            ids_only: false,
        })
    }
}

/// Parameters of this week's hot news tool.
#[derive(Debug, Default)]
pub struct HotWeekNewsParams {
    /// Page number, from 1.
    pub page_index: Option<u64>,
    /// Items per page, 10 by default.
    pub page_size: Option<u64>,
}

impl HotWeekNewsParams {
    /// The hot-week arguments, with the command-line defaults.
    pub fn into_hot_week_args(self) -> (r: HotWeekArgs)
        ensures
            r.page_index == or_else(self.page_index, 1),
            r.page_size == or_else(self.page_size, 10),
            !r.title_only,
            !r.ids_only,
    {
        HotWeekArgs {
            page_index: self.page_index.unwrap_or(1),
            page_size: self.page_size.unwrap_or(10),
            title_only: false,
            ids_only: false,
        }
    }
}

/// Parameters of the recommended news tool.
#[derive(Debug, Default)]
pub struct RecommendedNewsParams {
    /// Page number, from 1.
    pub page_index: Option<u64>,
    /// Items per page, 10 by default.
    pub page_size: Option<u64>,
}

impl RecommendedNewsParams {
    /// The recommended-news arguments, with the command-line defaults.
    pub fn into_recommended_args(self) -> (r: RecommendedArgs)
        ensures
            r.page_index == or_else(self.page_index, 1),
            r.page_size == or_else(self.page_size, 10),
            !r.title_only,
            !r.ids_only,
    {
        RecommendedArgs {
            page_index: self.page_index.unwrap_or(1),
            page_size: self.page_size.unwrap_or(10),
            title_only: false,
            ids_only: false,
        }
    }
}

// ---------------------------------------------------------------------------
// show
// ---------------------------------------------------------------------------

/// Parameters of the news detail tool.
#[derive(Debug)]
pub struct ShowNewsParams {
    /// News ids; used first when given.
    pub ids: Option<Vec<u64>>,
    /// A news title; its id is looked up when no ids are given.
    pub title: Option<String>,
    /// Requests at once, `1..=64`, 8 by default.
    pub max_concurrent: Option<u32>,
    /// Keep the HTML body; only the Markdown one by default.
    pub include_html: Option<bool>,
}

/// The trimmed title, when a title is given and it is not blank.
pub open spec fn title_of(title: Option<Seq<char>>) -> Option<Seq<char>> {
    match title {
        Some(t) => if trimmed(t).len() > 0 {
            Some(trimmed(t))
        } else {
            None
        },
        None => None,
    }
}

/// The ids, as a sequence, when given.
pub open spec fn ids_of(ids: Option<Vec<u64>>) -> Option<Seq<u64>> {
    match ids {
        Some(v) => Some(v@),
        None => None,
    }
}

/// Ids were given and there is at least one.
pub open spec fn has_ids(ids: Option<Seq<u64>>) -> bool {
    match ids {
        Some(v) => v.len() > 0,
        None => false,
    }
}

/// The lookup check: ids or a title are needed, and no id may be 0.
pub open spec fn lookup_check(ids: Option<Seq<u64>>, title: Option<Seq<char>>) -> Result<
    (),
    ParamError,
> {
    if !has_ids(ids) && title_of(title) is None {
        Err(ParamError::MissingIdsAndTitle)
    } else if ids matches Some(v) && exists|i: int| 0 <= i < v.len() && v[i] == 0 {
        Err(ParamError::ZeroIdInIds)
    } else {
        Ok(())
    }
}

/// What a detail request asks for: given ids, or the news with a title.
#[derive(Debug)]
pub enum ShowTarget {
    Ids(Vec<u64>),
    Title(String),
}

/// A checked detail request.
#[derive(Debug)]
pub struct ShowPlan {
    pub target: ShowTarget,
    pub max_concurrent: u32,
    pub include_html: bool,
}

impl ShowNewsParams {
    /// The title, trimmed, unless it is missing or blank.
    pub fn normalized_title(&self) -> (r: Option<String>)
        ensures
            opt_view(r) == title_of(opt_view(self.title)),
    {
        match &self.title {
            Some(t) => {
                let s = trim(t.as_str());
                if s.as_str().unicode_len() == 0 {
                    None
                } else {
                    Some(s)
                }
            },
            None => None,
        }
    }

    /// Ids or a non-blank title must be given, and no id may be 0.
    pub fn validate_lookup(&self) -> (r: Result<(), ParamError>)
        ensures
            r == lookup_check(ids_of(self.ids), opt_view(self.title)),
    {
        let given_ids = match &self.ids {
            Some(ids) => ids.len() > 0,
            None => false,
        };
        let given_title = self.normalized_title().is_some();
        if !given_ids && !given_title {
            return Err(ParamError::MissingIdsAndTitle);
        }
        match &self.ids {
            Some(ids) => {
                let mut i: usize = 0;
                while i < ids.len()
                    invariant
                        i <= ids.len(),
                        ids_of(self.ids) == Some(ids@),
                        has_ids(ids_of(self.ids)) || title_of(
                            opt_view(self.title),
                        ) is Some,
                        forall|j: int| 0 <= j < i ==> ids@[j] != 0,
                    decreases ids.len() - i,
                {
                    if ids[i] == 0 {
                        return Err(ParamError::ZeroIdInIds);
                    }
                    i = i + 1;
                }
                Ok(())
            },
            None => Ok(()),
        }
    }

    /// The show arguments: the lookup check, then ids must be given, then
    /// `max_concurrent` must be in `1..=64` (8 by default).
    pub fn into_show_args(self) -> (r: Result<ShowArgs, ParamError>)
        ensures
            lookup_check(ids_of(self.ids), opt_view(self.title)) matches Err(
                e,
            ) ==> r == Err::<ShowArgs, ParamError>(e),
            lookup_check(ids_of(self.ids), opt_view(self.title)) is Ok
                && !has_ids(ids_of(self.ids)) ==> r == Err::<ShowArgs, ParamError>(
                ParamError::EmptyIds,
            ),
            lookup_check(ids_of(self.ids), opt_view(self.title)) is Ok
                && has_ids(ids_of(self.ids)) && !(1 <= or_else(self.max_concurrent, 8) <= 64) ==> r
                == Err::<ShowArgs, ParamError>(ParamError::MaxConcurrentOutOfRange),
            lookup_check(ids_of(self.ids), opt_view(self.title)) is Ok
                && has_ids(ids_of(self.ids)) && 1 <= or_else(self.max_concurrent, 8) <= 64 ==> match r {
                Ok(a) => {
                    &&& Some(a.ids@) == ids_of(self.ids)
                    &&& !a.stdin
                    &&& a.max_concurrent == or_else(self.max_concurrent, 8)
                    &&& a.include_html == or_else(self.include_html, false)
                },
                Err(_) => false,
            },
    {
        match self.validate_lookup() {
            Err(e) => return Err(e),
            Ok(()) => {},
        }
        let ids = match self.ids {
            Some(v) => v,
            None => Vec::new(),
        };
        if ids.len() == 0 {
            return Err(ParamError::EmptyIds);
        }
        let max_concurrent = self.max_concurrent.unwrap_or(8);
        if !(1 <= max_concurrent && max_concurrent <= 64) {
            return Err(ParamError::MaxConcurrentOutOfRange);
        }
        Ok(
            ShowArgs {
                ids,
                stdin: false,
                max_concurrent,
                include_html: self.include_html.unwrap_or(false),
            },
        )
    }

    /// The checked detail request: the lookup check, then `max_concurrent`
    /// in `1..=64` (8 by default); the given ids when there are some, else
    /// the trimmed title.
    pub fn into_show_plan(self) -> (r: Result<ShowPlan, ParamError>)
        ensures
            lookup_check(ids_of(self.ids), opt_view(self.title)) matches Err(
                e,
            ) ==> r == Err::<ShowPlan, ParamError>(e),
            lookup_check(ids_of(self.ids), opt_view(self.title)) is Ok && !(1
                <= or_else(self.max_concurrent, 8) <= 64) ==> r == Err::<ShowPlan, ParamError>(
                ParamError::MaxConcurrentOutOfRange,
            ),
            lookup_check(ids_of(self.ids), opt_view(self.title)) is Ok && 1
                <= or_else(self.max_concurrent, 8) <= 64 ==> match r {
                Ok(p) => {
                    &&& p.max_concurrent == or_else(self.max_concurrent, 8)
                    &&& p.include_html == or_else(self.include_html, false)
                    &&& has_ids(ids_of(self.ids)) ==> (p.target matches ShowTarget::Ids(v) && Some(
                        v@,
                    ) == ids_of(self.ids))
                    &&& !has_ids(ids_of(self.ids)) ==> (p.target matches ShowTarget::Title(t)
                        && Some(t@) == title_of(opt_view(self.title)))
                },
                Err(_) => false,
            },
    {
        match self.validate_lookup() {
            Err(e) => return Err(e),
            Ok(()) => {},
        }
        let max_concurrent = self.max_concurrent.unwrap_or(8);
        if !(1 <= max_concurrent && max_concurrent <= 64) {
            return Err(ParamError::MaxConcurrentOutOfRange);
        }
        let include_html = self.include_html.unwrap_or(false);
        let title = self.normalized_title();
        let target = match self.ids {
            Some(ids) => {
                if ids.len() > 0 {
                    ShowTarget::Ids(ids)
                } else {
                    match title {
                        Some(t) => ShowTarget::Title(t),
                        None => return Err(ParamError::MissingIdsAndTitle),
                    }
                }
            },
            None => match title {
                Some(t) => ShowTarget::Title(t),
                None => return Err(ParamError::MissingIdsAndTitle),
            },
        };
        Ok(ShowPlan { target, max_concurrent, include_html })
    }
}

// ---------------------------------------------------------------------------
// titles
// ---------------------------------------------------------------------------

/// A title as it is compared: without any whitespace.
pub open spec fn title_key(title: Seq<char>) -> Seq<char> {
    strip_ws(trimmed(title))
}

/// A title for comparison: trimmed, then stripped of every whitespace.
pub fn normalize_title_for_match(title: &str) -> (r: String)
    ensures
        r@ == title_key(title@),
{
    let t = trim(title);
    remove_whitespace(t.as_str())
}


/// The id of the first item whose title matches `target` once whitespace is
/// ignored.
pub open spec fn first_title_match(s: Seq<NewsInfoView>, target: Seq<char>) -> Option<u64>
    decreases s.len(),
{
    if s.len() == 0 {
        None
    } else if title_key(s[0].title) == target {
        Some(s[0].id)
    } else {
        first_title_match(s.drop_first(), target)
    }
}

/// The models of a sequence of news items.
pub open spec fn news_views(s: Seq<NewsInfo>) -> Seq<NewsInfoView> {
    s.map_values(|n: NewsInfo| n@)
}

/// The id of the first item whose normalized title is `target`.
pub fn find_news_info_id_by_title(list: &Vec<NewsInfo>, target: &str) -> (r: Option<u64>)
    ensures
        r == first_title_match(news_views(list@), target@),
{
    let ghost all = news_views(list@);
    let mut i: usize = 0;
    assert(all.skip(0) =~= all);
    while i < list.len()
        invariant
            i <= list.len(),
            all == news_views(list@),
            first_title_match(all, target@) == first_title_match(all.skip(i as int), target@),
        decreases list.len() - i,
    {
        assert(all.skip(i as int)[0] == list@[i as int]@);
        assert(all.skip(i as int).drop_first() =~= all.skip(i + 1));
        let key = normalize_title_for_match(list[i].title.as_str());
        let wanted = String::from_str(target);
        if key == wanted {
            return Some(list[i].id);
        }
        i = i + 1;
    }
    None
}

/// An item with its page filled in when it has none.
pub open spec fn with_url(v: NewsInfoView) -> NewsInfoView {
    match v.url {
        Some(_) => v,
        None => NewsInfoView { url: Some(news_url(v.id)), ..v },
    }
}

/// Filling in pages twice is filling them in once.
pub proof fn lemma_with_url_idempotent(v: NewsInfoView)
    ensures
        with_url(with_url(v)) == with_url(v),
        with_url(v).url is Some,
{
}

/// Fills in the page of every item that has none.
pub fn add_news_urls(list: &mut Vec<NewsInfo>)
    ensures
        news_views(final(list)@) == news_views(old(list)@).map_values(|v: NewsInfoView| with_url(v)),
{
    let mut taken: Vec<NewsInfo> = Vec::new();
    std::mem::swap(list, &mut taken);
    let ghost orig = taken@;
    for item in it: taken.into_iter()
        invariant
            it.seq() == orig,
            news_views(list@) == news_views(orig.take(it.index() as int)).map_values(
                |v: NewsInfoView| with_url(v),
            ),
    {
        let ghost i = it.index() as int;
        let mut item = item;
        let ghost before = item@;
        if item.url.is_none() {
            item.url = Some(item.build_url());
        }
        assert(item@ == with_url(before));
        let ghost prev = list@;
        list.push(item);
        proof {
            assert(orig[i]@ == before);
            assert(news_views(list@) =~= news_views(prev).push(item@));
            assert(orig.take(i + 1) =~= orig.take(i).push(orig[i]));
            assert(news_views(orig.take(i + 1)) =~= news_views(orig.take(i)).push(before));
            assert(news_views(orig.take(i + 1)).map_values(|v: NewsInfoView| with_url(v))
                =~= news_views(orig.take(i)).map_values(|v: NewsInfoView| with_url(v)).push(
                with_url(before),
            ));
        }
    }
    assert(orig.take(orig.len() as int) =~= orig);
}

/// Cleans the hits, orders them newest first for the time order, and keeps
/// at most `limit` of them.
pub fn arrange_search_results(results: Vec<ZzkDocument>, sort: SearchSort, limit: u32) -> (r: Vec<
    ZzkDocument,
>)
    ensures
        doc_views(r@) == arranged(doc_views(results@), sort == SearchSort::Time, limit as nat),
{
    arrange_hits(results, sort == SearchSort::Time, limit)
}

// ---------------------------------------------------------------------------
// Looking up a news id by its title
// ---------------------------------------------------------------------------

/// Which list the title lookup is waiting for.
#[derive(Debug, Clone, Copy, PartialEq, Eq, Structural)]
pub enum LookupStage {
    /// Recommended news, first page of 20.
    Recommended,
    /// Latest news, first page of 20.
    Latest,
    /// A search by the title.
    Search,
}

/// A title lookup in progress.
#[derive(Debug)]
pub struct TitleLookup {
    /// The title as given.
    pub title: String,
    /// The title as compared (no whitespace).
    pub target: String,
    pub stage: LookupStage,
}

/// A list the lookup needs next.
#[derive(Debug)]
pub enum LookupRequest {
    Recommended(RecommendedArgs),
    Latest(ListArgs),
    Search(SearchArgs),
}

/// What came back for a request.
#[derive(Debug)]
pub enum LookupReply {
    /// Recommended or latest news.
    News(Vec<NewsInfo>),
    /// Search hits.
    Hits(Vec<ZzkDocument>),
}

/// No news matched the title.
#[derive(Debug)]
pub struct TitleNotFound {
    pub title: String,
}

impl TitleNotFound {
    /// `未找到标题匹配的新闻：<title>`.
    pub fn message(&self) -> (r: String)
        ensures
            r@ == "未找到标题匹配的新闻："@ + self.title@,
    {
        let mut r = String::from_str("未找到标题匹配的新闻：");
        r.append(self.title.as_str());
        r
    }
}

/// The next move of a lookup.
#[derive(Debug)]
pub enum LookupStep {
    /// Fetch this list and hand it back.
    Fetch(LookupRequest),
    /// The news id.
    Found(u64),
    /// Nothing matched.
    NotFound(TitleNotFound),
}

/// The request for the first page of 20 recommended news.
pub open spec fn recommended_page(a: RecommendedArgs) -> bool {
    a.page_index == 1 && a.page_size == 20 && !a.title_only && !a.ids_only
}

/// The request for the first page of 20 latest news.
pub open spec fn latest_page(a: ListArgs) -> bool {
    a.page_index == 1 && a.page_size == 20 && !a.title_only && !a.ids_only
}

/// The search for `title`: first page, no filter, by relevance, 15 hits.
pub open spec fn title_search(a: SearchArgs, title: Seq<char>) -> bool {
    &&& a.keywords@ == title
    &&& a.page_index == 1
    &&& a.start_date is None
    &&& a.end_date is None
    &&& a.view_times_at_least is None
    &&& !a.title_only
    &&& !a.ids_only
    &&& a.sort == SearchSort::Relevance
    &&& a.limit == 15
}

/// The id of the first hit whose (cleaned) title matches, when that hit has
/// an id.
pub open spec fn first_hit_match(s: Seq<ZzkDocumentView>, target: Seq<char>) -> Option<u64>
    decreases s.len(),
{
    if s.len() == 0 {
        None
    } else if title_key(s[0].title) == target {
        document_news_id(s[0])
    } else {
        first_hit_match(s.drop_first(), target)
    }
}

/// The id of the first hit that has one.
pub open spec fn first_hit_id(s: Seq<ZzkDocumentView>) -> Option<u64>
    decreases s.len(),
{
    if s.len() == 0 {
        None
    } else if document_news_id(s[0]) is Some {
        document_news_id(s[0])
    } else {
        first_hit_id(s.drop_first())
    }
}

/// The id picked from search hits: that of the first hit with a matching
/// title, else that of the first hit with an id.
pub open spec fn picked_hit_id(hits: Seq<ZzkDocumentView>, target: Seq<char>) -> Option<u64> {
    let c = hits.map_values(|v: ZzkDocumentView| cleaned(v));
    match first_hit_match(c, target) {
        Some(n) => Some(n),
        None => first_hit_id(c),
    }
}

proof fn lemma_first_hit_id_is_first(s: Seq<ZzkDocumentView>)
    ensures
        first_hit_id(s) is None <==> forall|k: int|
            0 <= k < s.len() ==> document_news_id(#[trigger] s[k]) is None,
        first_hit_id(s) is Some ==> exists|k: int|
            #![trigger s[k]]
            0 <= k < s.len() && document_news_id(s[k]) == first_hit_id(s) && forall|m: int|
                0 <= m < k ==> document_news_id(#[trigger] s[m]) is None,
    decreases s.len(),
{
    if s.len() > 0 {
        let t = s.drop_first();
        lemma_first_hit_id_is_first(t);
        assert forall|k: int| 0 <= k < t.len() implies #[trigger] t[k] == s[k + 1] by {}
        if document_news_id(s[0]) is None {
            if first_hit_id(s) is Some {
                let k = choose|k: int|
                    #![trigger t[k]]
                    0 <= k < t.len() && document_news_id(t[k]) == first_hit_id(t) && forall|m: int|
                        0 <= m < k ==> document_news_id(#[trigger] t[m]) is None;
                assert(s[k + 1] == t[k]);
                assert forall|m: int| 0 <= m < k + 1 implies document_news_id(#[trigger] s[m]) is None by {
                    if m > 0 {
                        assert(s[m] == t[m - 1]);
                    }
                }
            } else {
                assert forall|k: int| 0 <= k < s.len() implies document_news_id(#[trigger] s[k]) is None by {
                    if k > 0 {
                        assert(s[k] == t[k - 1]);
                    }
                }
            }
        } else {
            assert(document_news_id(s[0]) == first_hit_id(s));
        }
    }
}

proof fn lemma_first_hit_match_is_first(s: Seq<ZzkDocumentView>, target: Seq<char>)
    ensures
        (forall|k: int| 0 <= k < s.len() ==> title_key((#[trigger] s[k]).title) != target)
            ==> first_hit_match(s, target) is None,
        forall|k: int|
            #![trigger s[k]]
            0 <= k < s.len() && title_key(s[k].title) == target && (forall|m: int|
                0 <= m < k ==> title_key((#[trigger] s[m]).title) != target) ==> first_hit_match(
                s,
                target,
            ) == document_news_id(s[k]),
    decreases s.len(),
{
    if s.len() > 0 {
        let t = s.drop_first();
        lemma_first_hit_match_is_first(t, target);
        assert forall|k: int| 0 <= k < t.len() implies #[trigger] t[k] == s[k + 1] by {}
        assert forall|k: int|
            #![trigger s[k]]
            0 <= k < s.len() && title_key(s[k].title) == target && (forall|m: int|
                0 <= m < k ==> title_key((#[trigger] s[m]).title) != target) implies first_hit_match(
            s,
            target,
        ) == document_news_id(s[k]) by {
            if k > 0 {
                assert(title_key(s[0].title) != target);
                assert(t[k - 1] == s[k]);
                assert forall|m: int| 0 <= m < k - 1 implies title_key((#[trigger] t[m]).title) != target by {
                    assert(t[m] == s[m + 1]);
                }
            }
        }
        if forall|k: int| 0 <= k < s.len() ==> title_key((#[trigger] s[k]).title) != target {
            assert(title_key(s[0].title) != target);
            assert forall|k: int| 0 <= k < t.len() implies title_key((#[trigger] t[k]).title) != target by {
                assert(t[k] == s[k + 1]);
            }
        }
    }
}

/// How an id is picked from search hits for the title key `target`, hits
/// taken with their HTML stripped: the first hit whose title key is the
/// target gives its id when it has one; when no hit's title key is the
/// target, the id is that of the first hit that has one, and there is none
/// only when no hit has one.
pub proof fn lemma_picked_hit_id(hits: Seq<ZzkDocumentView>, target: Seq<char>)
    ensures
        forall|k: int|
            #![trigger hits[k]]
            0 <= k < hits.len() && title_key(cleaned(hits[k]).title) == target
                && document_news_id(cleaned(hits[k])) is Some && (forall|m: int|
                0 <= m < k ==> title_key(cleaned(#[trigger] hits[m]).title) != target)
                ==> picked_hit_id(hits, target) == document_news_id(cleaned(hits[k])),
        (forall|k: int| 0 <= k < hits.len() ==> title_key(cleaned(#[trigger] hits[k]).title) != target)
            ==> {
            &&& picked_hit_id(hits, target) is None <==> forall|k: int|
                0 <= k < hits.len() ==> document_news_id(cleaned(#[trigger] hits[k])) is None
            &&& forall|n: u64|
                picked_hit_id(hits, target) == Some(n) ==> exists|k: int|
                    #![trigger hits[k]]
                    0 <= k < hits.len() && document_news_id(cleaned(hits[k])) == Some(n)
                        && forall|m: int|
                        0 <= m < k ==> document_news_id(cleaned(#[trigger] hits[m])) is None
        },
{
    let c = hits.map_values(|v: ZzkDocumentView| cleaned(v));
    assert forall|k: int| 0 <= k < hits.len() implies #[trigger] c[k] == cleaned(hits[k]) by {}
    lemma_first_hit_match_is_first(c, target);
    lemma_first_hit_id_is_first(c);
    assert forall|k: int|
        #![trigger hits[k]]
        0 <= k < hits.len() && title_key(cleaned(hits[k]).title) == target
            && document_news_id(cleaned(hits[k])) is Some && (forall|m: int|
            0 <= m < k ==> title_key(cleaned(#[trigger] hits[m]).title) != target)
            implies picked_hit_id(hits, target) == document_news_id(cleaned(hits[k])) by {
        assert(c[k] == cleaned(hits[k]));
        assert forall|m: int| 0 <= m < k implies title_key((#[trigger] c[m]).title) != target by {
            assert(c[m] == cleaned(hits[m]));
        }
    }
    if forall|k: int| 0 <= k < hits.len() ==> title_key(cleaned(#[trigger] hits[k]).title) != target {
        assert forall|k: int| 0 <= k < c.len() implies title_key((#[trigger] c[k]).title) != target by {
            assert(c[k] == cleaned(hits[k]));
        }
        assert(picked_hit_id(hits, target) == first_hit_id(c));
        if first_hit_id(c) is Some {
            let k = choose|k: int|
                #![trigger c[k]]
                0 <= k < c.len() && document_news_id(c[k]) == first_hit_id(c) && forall|m: int|
                    0 <= m < k ==> document_news_id(#[trigger] c[m]) is None;
            assert(c[k] == cleaned(hits[k]));
            assert forall|m: int| 0 <= m < k implies document_news_id(cleaned(#[trigger] hits[m])) is None by {
                assert(c[m] == cleaned(hits[m]));
            }
        } else {
            assert forall|k: int| 0 <= k < hits.len() implies document_news_id(cleaned(#[trigger] hits[k])) is None by {
                assert(c[k] == cleaned(hits[k]));
            }
        }
    }
}

fn hit_title_is(doc: &ZzkDocument, wanted: &String) -> (b: bool)
    ensures
        b == (title_key(doc@.title) == wanted@),
{
    let key = normalize_title_for_match(doc.title.as_str());
    key == *wanted
}

/// Picks a news id from search hits for the title key `target`.
#[verifier::loop_isolation(false)]
pub fn pick_news_id_from_hits(hits: Vec<ZzkDocument>, target: &str) -> (r: Option<u64>)
    ensures
        r == picked_hit_id(doc_views(hits@), target@),
{
    let ghost orig = hits@;
    let mut hits = hits;
    clean_search_results(&mut hits);
    let ghost c = doc_views(hits@);
    assert(c == doc_views(orig).map_values(|v: ZzkDocumentView| cleaned(v)));
    let wanted = String::from_str(target);
    let mut i: usize = 0;
    assert(c.skip(0) =~= c);
    while i < hits.len() && !hit_title_is(&hits[i], &wanted)
        invariant
            i <= hits.len(),
            c == doc_views(hits@),
            wanted@ == target@,
            first_hit_match(c, target@) == first_hit_match(c.skip(i as int), target@),
        decreases hits.len() - i,
    {
        assert(c.skip(i as int)[0] == hits@[i as int]@);
        assert(c.skip(i as int).drop_first() =~= c.skip(i + 1));
        i = i + 1;
    }
    if i < hits.len() {
        assert(c.skip(i as int)[0] == hits@[i as int]@);
        let matched = hits[i].news_id();
        if matched.is_some() {
            return matched;
        }
    }
    let mut k: usize = 0;
    assert(c.skip(0) =~= c);
    while k < hits.len()
        invariant
            k <= hits.len(),
            c == doc_views(hits@),
            c == doc_views(orig).map_values(|v: ZzkDocumentView| cleaned(v)),
            first_hit_match(c, target@) is None,
            first_hit_id(c) == first_hit_id(c.skip(k as int)),
        decreases hits.len() - k,
    {
        assert(c.skip(k as int)[0] == hits@[k as int]@);
        assert(c.skip(k as int).drop_first() =~= c.skip(k + 1));
        let id = hits[k].news_id();
        if id.is_some() {
            return id;
        }
        k = k + 1;
    }
    None
}

impl TitleLookup {
    /// Starts a lookup of `title`: the recommended news come first.
    pub fn new(title: &str) -> (r: (TitleLookup, LookupRequest))
        ensures
            r.0.title@ == title@,
            r.0.target@ == title_key(title@),
            r.0.stage == LookupStage::Recommended,
            r.1 matches LookupRequest::Recommended(a) && recommended_page(a),
    {
        let lookup = TitleLookup {
            title: String::from_str(title),
            target: normalize_title_for_match(title),
            stage: LookupStage::Recommended,
        };
        let request = LookupRequest::Recommended(
            RecommendedArgs { page_index: 1, page_size: 20, title_only: false, ids_only: false },
        );
        (lookup, request)
    }

    /// Takes the reply to the pending request: a matching title among the
    /// recommended news, then among the latest news, then in the search
    /// hits settles the id; after the search, the first hit with an id does.
    pub fn step(self, reply: LookupReply) -> (r: (TitleLookup, LookupStep))
        requires
            self.stage == LookupStage::Search <==> reply is Hits,
        ensures
            r.0.title == self.title,
            r.0.target == self.target,
            self.stage == LookupStage::Recommended ==> match reply {
                LookupReply::News(l) => match first_title_match(news_views(l@), self.target@) {
                    Some(id) => r.1 == LookupStep::Found(id),
                    None => r.0.stage == LookupStage::Latest && (r.1 matches LookupStep::Fetch(
                        LookupRequest::Latest(a),
                    ) && latest_page(a)),
                },
                LookupReply::Hits(_) => false,
            },
            self.stage == LookupStage::Latest ==> match reply {
                LookupReply::News(l) => match first_title_match(news_views(l@), self.target@) {
                    Some(id) => r.1 == LookupStep::Found(id),
                    None => r.0.stage == LookupStage::Search && (r.1 matches LookupStep::Fetch(
                        LookupRequest::Search(a),
                    ) && title_search(a, self.title@)),
                },
                LookupReply::Hits(_) => false,
            },
            self.stage == LookupStage::Search ==> match reply {
                LookupReply::Hits(h) => match picked_hit_id(doc_views(h@), self.target@) {
                    Some(id) => r.1 == LookupStep::Found(id),
                    None => r.1 matches LookupStep::NotFound(e) && e.title == self.title,
                },
                LookupReply::News(_) => false,
            },
    {
        match reply {
            LookupReply::News(list) => {
                let found = find_news_info_id_by_title(&list, self.target.as_str());
                match found {
                    Some(id) => (self, LookupStep::Found(id)),
                    None => {
                        if self.stage == LookupStage::Recommended {
                            let next = TitleLookup { stage: LookupStage::Latest, ..self };
                            let request = LookupRequest::Latest(
                                ListArgs {
                                    page_index: 1,
                                    page_size: 20,
                                    title_only: false,
                                    ids_only: false,
                                },
                            );
                            (next, LookupStep::Fetch(request))
                        } else {
                            let keywords = self.title.clone();
                            let next = TitleLookup { stage: LookupStage::Search, ..self };
                            let request = LookupRequest::Search(
                                SearchArgs {
                                    keywords,
                                    page_index: 1,
                                    start_date: None,
                                    end_date: None,
                                    view_times_at_least: None,
                                    title_only: false,
                                    ids_only: false,
                                    sort: SearchSort::Relevance,
                                    limit: 15,
                                },
                            );
                            (next, LookupStep::Fetch(request))
                        }
                    },
                }
            },
            LookupReply::Hits(hits) => {
                match pick_news_id_from_hits(hits, self.target.as_str()) {
                    Some(id) => (self, LookupStep::Found(id)),
                    None => {
                        let title = self.title.clone();
                        (self, LookupStep::NotFound(TitleNotFound { title }))
                    },
                }
            },
        }
    }
}

} // verus!
