//! The blog-post tools: their parameters and the checks made on them.
use vstd::prelude::*;

use crate::commands::post::ListArgs;
use crate::mcp::ranking::{arrange_hits, arranged, doc_views};
use crate::models::news::ZzkDocument;

pub use crate::mcp::ranking::clean_search_results;
use crate::mcp::{or_else, ParamError};
use crate::models::news::opt_view;
use crate::text::{all_ws, is_blank};

verus! {

/// Parameters of the post list tool.
#[derive(Debug, Default)]
pub struct ListPostParams {
    /// The blog name; the logged-in user's blog when not given.
    pub blog_app: Option<String>,
    /// Page number, from 1.
    pub page_index: Option<u64>,
    /// Posts per page, 10 by default.
    pub page_size: Option<u64>,
}

impl ListPostParams {
    /// The list arguments, with the command-line defaults (page 1, 10 posts).
    pub fn into_list_args(self) -> (r: ListArgs)
        ensures
            r.name == self.blog_app,
            r.page_index == or_else(self.page_index, 1),
            r.page_size == or_else(self.page_size, 10),
    {
        ListArgs {
            name: self.blog_app,
            page_index: self.page_index.unwrap_or(1),
            page_size: self.page_size.unwrap_or(10),
        }
    }
}

/// A usable blog name: given and not blank.
pub open spec fn usable_name(name: Option<Seq<char>>) -> bool {
    match name {
        Some(n) => !all_ws(n),
        None => false,
    }
}

/// The blog whose posts are listed: the given name when it is not blank,
/// else the logged-in user's blog when that is not blank.
pub open spec fn chosen_blog_app(name: Option<Seq<char>>, default_blog_app: Seq<char>) -> Option<
    Seq<char>,
> {
    if usable_name(name) {
        name
    } else if !all_ws(default_blog_app) {
        Some(default_blog_app)
    } else {
        None
    }
}

/// The list arguments with the blog name settled: the given name when it is
/// not blank, else `default_blog_app` when that is not blank; refused when
/// neither is usable.
pub fn with_blog_app(args: ListArgs, default_blog_app: &str) -> (r: Result<ListArgs, ParamError>)
    ensures
        chosen_blog_app(opt_view(args.name), default_blog_app@) is None ==> r == Err::<
            ListArgs,
            ParamError,
        >(ParamError::MissingBlogApp),
        chosen_blog_app(opt_view(args.name), default_blog_app@) matches Some(b) ==> match r {
            Ok(a) => {
                &&& opt_view(a.name) == Some(b)
                &&& a.page_index == args.page_index
                &&& a.page_size == args.page_size
            },
            Err(_) => false,
        },
{
    let name = match args.name {
        Some(n) => {
            if !is_blank(n.as_str()) {
                n
            } else if !is_blank(default_blog_app) {
                String::from_str(default_blog_app)
            } else {
                return Err(ParamError::MissingBlogApp);
            }
        },
        None => {
            if !is_blank(default_blog_app) {
                String::from_str(default_blog_app)
            } else {
                return Err(ParamError::MissingBlogApp);
            }
        },
    };
    Ok(ListArgs { name: Some(name), page_index: args.page_index, page_size: args.page_size })
}

/// The order of post search hits.
#[derive(Debug, Clone, Copy, PartialEq, Eq, Structural)]
pub enum PostSearchSort {
    /// As ranked by the search service.
    Relevance,
    /// Newest first.
    Time,
}

/// Parameters of the post search tool.
#[derive(Debug)]
pub struct SearchPostParams {
    /// Search words; must not be blank.
    pub keywords: String,
    /// Page number, from 1.
    pub page_index: Option<u64>,
    /// `YYYY-MM-DD`.
    pub start_date: Option<String>,
    /// `YYYY-MM-DD`.
    pub end_date: Option<String>,
    /// Least number of views.
    pub min_views: Option<u64>,
    /// Relevance (the default) or time.
    pub sort: Option<PostSearchSort>,
    /// How many hits to return, `1..=15`, 15 by default.
    pub limit: Option<u32>,
}

/// The query sent to the post search service, with the local sort and limit.
#[derive(Debug, PartialEq, Eq)]
pub struct SearchPostQuery {
    pub keywords: String,
    pub page_index: u64,
    pub start_date: Option<String>,
    pub end_date: Option<String>,
    pub view_times_at_least: Option<u64>,
    pub sort: PostSearchSort,
    pub limit: u32,
}

impl SearchPostParams {
    /// The search query. Blank keywords and a limit outside `1..=15` are
    /// refused, in that order.
    pub fn into_search_query(self) -> (r: Result<SearchPostQuery, ParamError>)
        ensures
            all_ws(self.keywords@) ==> r == Err::<SearchPostQuery, ParamError>(
                ParamError::EmptyKeywords,
            ),
            !all_ws(self.keywords@) && !(1 <= or_else(self.limit, 15) <= 15) ==> r == Err::<
                SearchPostQuery,
                ParamError,
            >(ParamError::LimitOutOfRange),
            !all_ws(self.keywords@) && 1 <= or_else(self.limit, 15) <= 15 ==> r == Ok::<
                SearchPostQuery,
                ParamError,
            >(
                SearchPostQuery {
                    keywords: self.keywords,
                    page_index: or_else(self.page_index, 1),
                    start_date: self.start_date,
                    end_date: self.end_date,
                    view_times_at_least: self.min_views,
                    sort: or_else(self.sort, PostSearchSort::Relevance),
                    limit: or_else(self.limit, 15),
                },
            ),
    {
        if is_blank(self.keywords.as_str()) {
            return Err(ParamError::EmptyKeywords);
        }
        let limit = self.limit.unwrap_or(15);
        if !(1 <= limit && limit <= 15) {
            return Err(ParamError::LimitOutOfRange);
        }
        Ok(
            SearchPostQuery {
                keywords: self.keywords,
                page_index: self.page_index.unwrap_or(1),
                start_date: self.start_date,
                end_date: self.end_date,
                view_times_at_least: self.min_views,
                sort: self.sort.unwrap_or(PostSearchSort::Relevance),
                limit,
            },
        )
    }
}

/// Parameters of the post body tool.
#[derive(Debug)]
pub struct ShowPostParams {
    /// The post id.
    pub id: u64,
    /// Keep the HTML body; only the Markdown one by default.
    pub include_html: Option<bool>,
}

impl ShowPostParams {
    /// The post id must not be 0.
    pub fn validate(&self) -> (r: Result<(), ParamError>)
        ensures
            self.id == 0 ==> r == Err::<(), ParamError>(ParamError::ZeroPostId),
            self.id != 0 ==> r == Ok::<(), ParamError>(()),
    {
        if self.id == 0 {
            return Err(ParamError::ZeroPostId);
        }
        Ok(())
    }
}


/// Cleans the hits, orders them newest first for the time order, and keeps
/// at most `limit` of them.
pub fn arrange_post_search_results(results: Vec<ZzkDocument>, sort: PostSearchSort, limit: u32) -> (r:
    Vec<ZzkDocument>)
    ensures
        doc_views(r@) == arranged(doc_views(results@), sort == PostSearchSort::Time, limit as nat),
{
    arrange_hits(results, sort == PostSearchSort::Time, limit)
}

} // verus!
