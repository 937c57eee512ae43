//! News items, search documents and news details, with their text renderings.
use vstd::prelude::*;

use crate::style::{
    bold, bold_of, bright_cyan, bright_cyan_of, bright_green, bright_green_of, bright_white,
    bright_white_of, cyan, cyan_of, dimmed, dimmed_of, yellow, yellow_of,
};
use crate::text::{
    concat_blocks, decimal, is_entity, is_text_block, lemma_decimal_parses, lemma_replaced_blocks,
    lemma_replaced_char_concat, lemma_replaced_single, lemma_replaced_skip_prefix, pad_left, parse_u64, parsed_u64, push_decimal, push_padded_left, push_repeated,
    push_signed_decimal, repeated, replace_all, replaced, signed_decimal, u64_to_string,
};

verus! {

// ---------------------------------------------------------------------------
// HTML clean-up
// ---------------------------------------------------------------------------

/// `s` after its first `>`.
pub open spec fn after_first_gt(s: Seq<char>) -> Seq<char>
    decreases s.len(),
{
    if s.len() == 0 {
        s
    } else if s[0] == '>' {
        s.drop_first()
    } else {
        after_first_gt(s.drop_first())
    }
}

/// `s` with every tag removed: scanning from the left, a `<` that has a `>`
/// somewhere after it starts a tag that runs to the first such `>`
/// (what replacing the pattern `<[^>]*>` by nothing does).
pub open spec fn tags_stripped(s: Seq<char>) -> Seq<char>
    decreases s.len(),
{
    if s.len() == 0 {
        s
    } else if s[0] == '<' && s.drop_first().contains('>') {
        proof {
            lemma_after_first_gt_shorter(s.drop_first());
        }
        tags_stripped(after_first_gt(s.drop_first()))
    } else {
        seq![s[0]] + tags_stripped(s.drop_first())
    }
}

pub proof fn lemma_after_first_gt_shorter(s: Seq<char>)
    ensures
        after_first_gt(s).len() <= s.len(),
    decreases s.len(),
{
    if s.len() > 0 && s[0] != '>' {
        lemma_after_first_gt_shorter(s.drop_first());
    }
}

/// `s` with the common HTML entities decoded; `&amp;` is decoded last, so
/// `&amp;lt;` becomes `&lt;` and not `<`.
pub open spec fn entities_decoded(s: Seq<char>) -> Seq<char> {
    replaced(
        replaced(
            replaced(
                replaced(
                    replaced(
                        replaced(replaced(s, "&nbsp;"@, " "@), "&lt;"@, "<"@),
                        "&gt;"@,
                        ">"@,
                    ),
                    "&quot;"@,
                    "\""@,
                ),
                "&apos;"@,
                "'"@,
            ),
            "&#39;"@,
            "'"@,
        ),
        "&amp;"@,
        "&"@,
    )
}

/// `s` escaped once for HTML: `&` first, then `<`, `>` and `"`, each
/// replaced by its entity.
pub open spec fn entities_escaped(s: Seq<char>) -> Seq<char> {
    replaced(
        replaced(replaced(replaced(s, "&"@, "&amp;"@), "<"@, "&lt;"@), ">"@, "&gt;"@),
        "\""@,
        "&quot;"@,
    )
}

/// Plain text of an HTML fragment: tags removed, then entities decoded.
pub open spec fn html_stripped(s: Seq<char>) -> Seq<char> {
    entities_decoded(tags_stripped(s))
}

/// `Regex::replace_all` with the pattern `<[^>]*>` and an empty replacement.
/// The regex finds, left to right, each `<` followed later by a `>` and
/// removes it together with everything up to the first `>`; that is
/// `tags_stripped`.
#[verifier::external_body]
fn strip_tags(s: &str) -> (r: String)
    ensures
        r@ == tags_stripped(s@),
{
    regex::Regex::new(r"<[^>]*>").unwrap().replace_all(s, "").into_owned()
}

/// Decodes the common HTML entities; `&amp;` comes last.
pub fn decode_html_entities(s: &str) -> (r: String)
    ensures
        r@ == entities_decoded(s@),
{
    proof {
        reveal_strlit("&nbsp;");
        reveal_strlit("&lt;");
        reveal_strlit("&gt;");
        reveal_strlit("&quot;");
        reveal_strlit("&apos;");
        reveal_strlit("&#39;");
        reveal_strlit("&amp;");
    }
    let a = replace_all(s, "&nbsp;", " ");
    let b = replace_all(a.as_str(), "&lt;", "<");
    let c = replace_all(b.as_str(), "&gt;", ">");
    let d = replace_all(c.as_str(), "&quot;", "\"");
    let e = replace_all(d.as_str(), "&apos;", "'");
    let f = replace_all(e.as_str(), "&#39;", "'");
    replace_all(f.as_str(), "&amp;", "&")
}

/// The plain text of an HTML fragment.
pub fn strip_html(s: &str) -> (r: String)
    ensures
        r@ == html_stripped(s@),
{
    let no_tags = strip_tags(s);
    decode_html_entities(no_tags.as_str())
}

// ---------------------------------------------------------------------------
// Shared rendering pieces
// ---------------------------------------------------------------------------

/// `"{n:>4}. "` for the 1-based position `n`.
pub open spec fn list_prefix(n: nat) -> Seq<char> {
    pad_left(decimal(n), 4) + ". "@
}

fn push_list_prefix(out: &mut String, index: usize)
    requires
        index < usize::MAX,
    ensures
        final(out)@ == old(out)@ + list_prefix((index + 1) as nat),
{
    let number = u64_to_string((index + 1) as u64);
    push_padded_left(out, number.as_str(), 4);
    out.append(". ");
    assert(old(out)@ + pad_left(decimal((index + 1) as nat), 4) + ". "@ =~= old(out)@ + list_prefix(
        (index + 1) as nat,
    ));
}

/// The view of an optional string.
pub open spec fn opt_view(o: Option<String>) -> Option<Seq<char>> {
    match o {
        Some(s) => Some(s@),
        None => None,
    }
}

// ---------------------------------------------------------------------------
// NewsInfo
// ---------------------------------------------------------------------------

/// A news item of a list (latest, hot, recommended).
#[derive(Debug, Default)]
pub struct NewsInfo {
    pub id: u64,
    pub title: String,
    pub summary: String,
    pub topic_id: u64,
    pub topic_icon: Option<String>,
    pub view_count: u64,
    pub comment_count: u64,
    pub digg_count: u64,
    /// When the item was added, in seconds since the Unix epoch (UTC).
    pub date_added: i64,
    /// The item's page; filled in before the item is handed out as JSON.
    pub url: Option<String>,
}

/// The model of a `NewsInfo`.
pub struct NewsInfoView {
    pub id: u64,
    pub title: Seq<char>,
    pub summary: Seq<char>,
    pub topic_id: u64,
    pub topic_icon: Option<Seq<char>>,
    pub view_count: u64,
    pub comment_count: u64,
    pub digg_count: u64,
    pub date_added: i64,
    pub url: Option<Seq<char>>,
}

impl View for NewsInfo {
    type V = NewsInfoView;

    open spec fn view(&self) -> NewsInfoView {
        NewsInfoView {
            id: self.id,
            title: self.title@,
            summary: self.summary@,
            topic_id: self.topic_id,
            topic_icon: opt_view(self.topic_icon),
            view_count: self.view_count,
            comment_count: self.comment_count,
            digg_count: self.digg_count,
            date_added: self.date_added,
            url: opt_view(self.url),
        }
    }
}

/// The page of the news item with this id.
pub open spec fn news_url(id: u64) -> Seq<char> {
    "https://news.cnblogs.com/n/"@ + decimal(id as nat) + "/"@
}

/// The full rendering of a news item, given how its date is shown.
pub open spec fn news_info_text(v: NewsInfoView, age: Seq<char>) -> Seq<char> {
    cyan_of(bold_of(v.title)) + "\n"@ + v.summary + "\n"@ + "[#"@ + bright_green_of(
        decimal(v.id as nat),
    ) + "][posted@ "@ + age + "][浏览："@ + decimal(v.view_count as nat) + "][评论："@ + decimal(
        v.comment_count as nat,
    ) + "][点赞："@ + decimal(v.digg_count as nat) + "]\n"@
}

/// The one-line rendering `"{n:>4}. {title}"` in bright white.
pub open spec fn title_line(n: nat, title: Seq<char>) -> Seq<char> {
    bright_white_of(list_prefix(n) + title)
}

impl NewsInfo {
    /// The item's page on news.cnblogs.com.
    pub fn build_url(&self) -> (r: String)
        ensures
            r@ == news_url(self.id),
    {
        let mut r = String::from_str("https://news.cnblogs.com/n/");
        push_decimal(&mut r, self.id);
        r.append("/");
        r
    }

    /// Title, summary and a line of counters, with the date shown by `age`
    /// (the rendering of an instant, in seconds since the epoch).
    pub fn into_format<F: Fn(i64) -> String>(self, age: F) -> (r: String)
        requires
            forall|t: i64| age.requires((t,)),
        ensures
            exists|t: String| #[trigger] age.ensures((self.date_added,), t) && r@ == news_info_text(self@, t@),
    {
        let shown = age(self.date_added);
        let ghost s = self@;
        let r = self.format_with_age(shown.as_str());
        assert(age.ensures((s.date_added,), shown) && r@ == news_info_text(s, shown@));
        r
    }

    /// Title, summary and a line of counters, the date shown as `time_age`.
    pub fn format_with_age(self, time_age: &str) -> (r: String)
        ensures
            r@ == news_info_text(self@, time_age@),
    {
        let title = cyan(bold(self.title.as_str()).as_str());
        let id = bright_green(u64_to_string(self.id).as_str());
        let mut r = title;
        r.append("\n");
        r.append(self.summary.as_str());
        r.append("\n");
        r.append("[#");
        r.append(id.as_str());
        r.append("][posted@ ");
        r.append(time_age);
        r.append("][浏览：");
        push_decimal(&mut r, self.view_count);
        r.append("][评论：");
        push_decimal(&mut r, self.comment_count);
        r.append("][点赞：");
        push_decimal(&mut r, self.digg_count);
        r.append("]\n");
        r
    }

    /// `"{index + 1:>4}. {title}"` in bright white.
    pub fn into_title_format(self, index: usize) -> (r: String)
        requires
            index < usize::MAX,
        ensures
            r@ == title_line((index + 1) as nat, self@.title),
    {
        let mut line = String::new();
        push_list_prefix(&mut line, index);
        line.append(self.title.as_str());
        assert(Seq::<char>::empty() + list_prefix((index + 1) as nat) + self@.title =~= list_prefix(
            (index + 1) as nat,
        ) + self@.title);
        bright_white(line.as_str())
    }
}

// ---------------------------------------------------------------------------
// ZzkDocument
// ---------------------------------------------------------------------------

/// A search hit.
#[derive(Debug, Default)]
pub struct ZzkDocument {
    pub title: String,
    pub content: String,
    pub user_name: Option<String>,
    pub user_alias: Option<String>,
    pub publish_time: String,
    pub vote_times: i64,
    pub view_times: i64,
    pub comment_times: i64,
    pub uri: String,
    pub id: String,
}

/// The model of a `ZzkDocument`.
pub struct ZzkDocumentView {
    pub title: Seq<char>,
    pub content: Seq<char>,
    pub user_name: Option<Seq<char>>,
    pub user_alias: Option<Seq<char>>,
    pub publish_time: Seq<char>,
    pub vote_times: i64,
    pub view_times: i64,
    pub comment_times: i64,
    pub uri: Seq<char>,
    pub id: Seq<char>,
}

impl View for ZzkDocument {
    type V = ZzkDocumentView;

    open spec fn view(&self) -> ZzkDocumentView {
        ZzkDocumentView {
            title: self.title@,
            content: self.content@,
            user_name: opt_view(self.user_name),
            user_alias: opt_view(self.user_alias),
            publish_time: self.publish_time@,
            vote_times: self.vote_times,
            view_times: self.view_times,
            comment_times: self.comment_times,
            uri: self.uri@,
            id: self.id@,
        }
    }
}

/// The digits that the pattern `/n/(\d+)` captures in its leftmost match
/// in `uri`, if it matches.
pub uninterp spec fn news_uri_capture(uri: Seq<char>) -> Option<Seq<char>>;

/// `Regex::captures` with the pattern `/n/(\d+)`, giving the text of group 1
/// of the leftmost match. In a url that `news_url` builds, `/n/` occurs once,
/// right before the id, and the greedy `\d+` takes all of the id's ASCII
/// digits up to the closing `/`: the capture is the id's decimal text.
#[verifier::external_body]
fn news_uri_digits(uri: &str) -> (r: Option<String>)
    ensures
        opt_view(r) == news_uri_capture(uri@),
        forall|n: u64| uri@ == #[trigger] news_url(n) ==> opt_view(r) == Some(decimal(n as nat)),
{
    let re = regex::Regex::new(r"/n/(\d+)").unwrap();
    match re.captures(uri) {
        Some(c) => match c.get(1) {
            Some(m) => Some(m.as_str().to_string()),
            None => None,
        },
        None => None,
    }
}

/// The news id of a search hit: the `id` field read as a number, or else the
/// number in the `/n/<id>` part of its `uri`.
pub open spec fn document_news_id(v: ZzkDocumentView) -> Option<u64> {
    match parsed_u64(v.id) {
        Some(n) => Some(n),
        None => match news_uri_capture(v.uri) {
            Some(d) => parsed_u64(d),
            None => None,
        },
    }
}

/// The summary shown for a hit: at most 120 characters, with `...` after a
/// cut.
pub open spec fn short_summary(s: Seq<char>) -> Seq<char> {
    if s.len() > 120 {
        s.take(120) + "..."@
    } else {
        s
    }
}

/// How the id of a hit is shown.
pub open spec fn document_id_text(v: ZzkDocumentView) -> Seq<char> {
    match document_news_id(v) {
        Some(n) => decimal(n as nat),
        None => v.id,
    }
}

/// The author part of a hit's counter line: empty when there is no author name.
pub open spec fn author_segment(name: Option<Seq<char>>) -> Seq<char> {
    match name {
        Some(n) => if n.len() > 0 {
            yellow_of(n) + "  |  "@
        } else {
            Seq::empty()
        },
        None => Seq::empty(),
    }
}

/// The full rendering of a hit at 1-based position `n`, given how its
/// publish time is shown.
pub open spec fn document_text(v: ZzkDocumentView, n: nat, time: Seq<char>) -> Seq<char> {
    list_prefix(n) + cyan_of(bold_of(html_stripped(v.title))) + "\n     "@ + dimmed_of(
        short_summary(html_stripped(v.content)),
    ) + "\n     ["@ + "#"@ + bright_green_of(document_id_text(v)) + "] "@ + author_segment(
        v.user_name,
    ) + "浏览: "@ + signed_decimal(v.view_times as int) + "  |  推荐: "@ + signed_decimal(
        v.vote_times as int,
    ) + "  |  评论: "@ + signed_decimal(v.comment_times as int) + "  |  发布于: "@ + time
        + "\n     "@ + dimmed_of(v.uri) + "\n"@
}

fn shorten_summary(s: String) -> (r: String)
    ensures
        r@ == short_summary(s@),
{
    if s.as_str().unicode_len() > 120 {
        let head = s.as_str().substring_char(0, 120);
        let mut r = String::from_str(head);
        r.append("...");
        r
    } else {
        s
    }
}

fn author_text(name: &Option<String>) -> (r: String)
    ensures
        r@ == author_segment(opt_view(*name)),
{
    match name {
        Some(n) => {
            if n.as_str().unicode_len() > 0 {
                let mut r = yellow(n.as_str());
                r.append("  |  ");
                r
            } else {
                String::new()
            }
        },
        None => String::new(),
    }
}

impl ZzkDocument {
    /// The news id: the `id` field as a number, or else the number in the
    /// `/n/<id>` part of `uri`; for a `uri` that `build_url` made, that is
    /// the id it was made from.
    pub fn news_id(&self) -> (r: Option<u64>)
        ensures
            r == document_news_id(self@),
            forall|n: u64|
                parsed_u64(self@.id) is None && self@.uri == #[trigger] news_url(n) ==> r == Some(n),
    {
        if let Some(n) = parse_u64(self.id.as_str()) {
            return Some(n);
        }
        let r = match news_uri_digits(self.uri.as_str()) {
            Some(d) => parse_u64(d.as_str()),
            None => None,
        };
        proof {
            assert forall|n: u64| self@.uri == #[trigger] news_url(n) implies r == Some(n) by {
                lemma_decimal_parses(n as nat);
            }
        }
        r
    }

    /// `"{index + 1:>4}. {title}"` in bright white, the title stripped of HTML.
    pub fn into_title_format(self, index: usize) -> (r: String)
        requires
            index < usize::MAX,
        ensures
            r@ == title_line((index + 1) as nat, html_stripped(self@.title)),
    {
        let title = strip_html(self.title.as_str());
        let mut line = String::new();
        push_list_prefix(&mut line, index);
        line.append(title.as_str());
        assert(Seq::<char>::empty() + list_prefix((index + 1) as nat) + title@ =~= list_prefix(
            (index + 1) as nat,
        ) + title@);
        bright_white(line.as_str())
    }

    /// The full rendering of the hit at `index`: title, a summary cut to 120
    /// characters, the counters, the publish time as `render_publish_time`
    /// shows it through `age`, and the uri.
    pub fn into_format<F: Fn(i64) -> String>(self, index: usize, age: F) -> (r: String)
        requires
            index < usize::MAX,
            forall|t: i64| age.requires((t,)),
        ensures
            exists|t: String|
                #[trigger] publish_time_shown(self@.publish_time, age, t) && r@ == document_text(
                    self@,
                    (index + 1) as nat,
                    t@,
                ),
    {
        let shown = render_publish_time(self.publish_time.as_str(), age);
        let ghost s = self@;
        let r = self.format_with_time(index, shown.as_str());
        assert(publish_time_shown(s.publish_time, age, shown) && r@ == document_text(
            s,
            (index + 1) as nat,
            shown@,
        ));
        r
    }

    /// The full rendering of the hit at `index`, the publish time shown as
    /// `publish_time`.
    pub fn format_with_time(self, index: usize, publish_time: &str) -> (r: String)
        requires
            index < usize::MAX,
        ensures
            r@ == document_text(self@, (index + 1) as nat, publish_time@),
    {
        let title = strip_html(self.title.as_str());
        let summary = shorten_summary(strip_html(self.content.as_str()));
        let id_text = match self.news_id() {
            Some(n) => u64_to_string(n),
            None => self.id.clone(),
        };
        let author = author_text(&self.user_name);
        let mut r = String::new();
        push_list_prefix(&mut r, index);
        r.append(cyan(bold(title.as_str()).as_str()).as_str());
        r.append("\n     ");
        r.append(dimmed(summary.as_str()).as_str());
        r.append("\n     [");
        r.append("#");
        r.append(bright_green(id_text.as_str()).as_str());
        r.append("] ");
        r.append(author.as_str());
        r.append("浏览: ");
        push_signed_decimal(&mut r, self.view_times);
        r.append("  |  推荐: ");
        push_signed_decimal(&mut r, self.vote_times);
        r.append("  |  评论: ");
        push_signed_decimal(&mut r, self.comment_times);
        r.append("  |  发布于: ");
        r.append(publish_time);
        r.append("\n     ");
        r.append(dimmed(self.uri.as_str()).as_str());
        r.append("\n");
        assert(Seq::<char>::empty() + list_prefix((index + 1) as nat) =~= list_prefix(
            (index + 1) as nat,
        ));
        r
    }
}

// ---------------------------------------------------------------------------
// NewsDetail
// ---------------------------------------------------------------------------

/// The full text of a news item.
#[derive(Debug, Default)]
pub struct NewsDetail {
    pub news_id: u64,
    pub tags: Option<Vec<String>>,
    pub author: String,
    pub title: String,
    pub publish_time: String,
    pub pic_name: Option<String>,
    /// The body, as HTML.
    pub content: String,
    /// The body as Markdown; filled in before the detail is handed out as JSON.
    pub markdown_content: Option<String>,
}

/// A line of 80 `=`.
pub open spec fn separator_line() -> Seq<char> {
    repeated('=', 80)
}

/// The header printed above a news body.
pub open spec fn detail_header_text(title: Seq<char>, author: Seq<char>, time: Seq<char>, id: u64) -> Seq<char> {
    separator_line() + "\n"@ + bright_cyan_of(bold_of(title)) + "\n作者: "@ + yellow_of(author)
        + "  |  发布时间: "@ + time + "  |  ID: #"@ + bright_green_of(decimal(id as nat)) + "\n"@
        + separator_line() + "\n"@
}

impl NewsDetail {
    /// Separator, title, author, time and id, then a separator.
    pub fn into_header_format(&self) -> (r: String)
        ensures
            r@ == detail_header_text(self.title@, self.author@, self.publish_time@, self.news_id),
    {
        let mut r = String::new();
        push_repeated(&mut r, '=', 80);
        r.append("\n");
        r.append(bright_cyan(bold(self.title.as_str()).as_str()).as_str());
        r.append("\n作者: ");
        r.append(yellow(self.author.as_str()).as_str());
        r.append("  |  发布时间: ");
        r.append(self.publish_time.as_str());
        r.append("  |  ID: #");
        r.append(bright_green(u64_to_string(self.news_id).as_str()).as_str());
        r.append("\n");
        push_repeated(&mut r, '=', 80);
        r.append("\n");
        assert(Seq::<char>::empty() + repeated('=', 80) =~= separator_line());
        r
    }

    /// The body with every `\r\n` turned into `\n`.
    pub fn clean_content(&self) -> (r: String)
        ensures
            r@ == replaced(self.content@, "\r\n"@, "\n"@),
    {
        proof {
            reveal_strlit("\r\n");
        }
        replace_all(self.content.as_str(), "\r\n", "\n")
    }
}


// ---------------------------------------------------------------------------
// Markdown
// ---------------------------------------------------------------------------

/// The Markdown that `html2md::parse_html` makes of an HTML text.
pub uninterp spec fn markdown_of(html: Seq<char>) -> Seq<char>;

/// `html2md::parse_html`: HTML to Markdown.
#[verifier::external_body]
fn html_to_markdown(html: &str) -> (r: String)
    ensures
        r@ == markdown_of(html@),
{
    html2md::parse_html(html)
}

/// The Markdown of an HTML text.
pub fn markdown_from_html(html: &str) -> (r: String)
    ensures
        r@ == markdown_of(html@),
{
    html_to_markdown(html)
}

impl NewsDetail {
    /// The detail with its Markdown body filled in from the HTML one.
    pub fn with_markdown(self) -> (r: NewsDetail)
        ensures
            r.news_id == self.news_id,
            r.tags == self.tags,
            r.author == self.author,
            r.title == self.title,
            r.publish_time == self.publish_time,
            r.pic_name == self.pic_name,
            r.content == self.content,
            opt_view(r.markdown_content) == Some(markdown_of(self.content@)),
    {
        let md = markdown_from_html(self.content.as_str());
        NewsDetail { markdown_content: Some(md), ..self }
    }

    /// The detail as handed out in a batch: `markdown` as its Markdown body
    /// (`None` when the conversion did not finish, which leaves the rest of
    /// the detail as it is), and the HTML body emptied unless it is asked for.
    pub fn prepared(self, markdown: Option<String>, include_html: bool) -> (r: NewsDetail)
        ensures
            r.news_id == self.news_id,
            r.tags == self.tags,
            r.author == self.author,
            r.title == self.title,
            r.publish_time == self.publish_time,
            r.pic_name == self.pic_name,
            include_html ==> r.content == self.content,
            !include_html ==> r.content@ == Seq::<char>::empty(),
            r.markdown_content == markdown,
    {
        let detail = NewsDetail { markdown_content: markdown, ..self };
        if include_html {
            detail
        } else {
            NewsDetail { content: String::new(), ..detail }
        }
    }

    /// The Markdown of the body with `\r\n` line ends made `\n`, as it is
    /// printed on a terminal.
    pub fn clean_markdown(&self) -> (r: String)
        ensures
            r@ == markdown_of(replaced(self.content@, "\r\n"@, "\n"@)),
    {
        let clean = self.clean_content();
        markdown_from_html(clean.as_str())
    }
}

/// A blog post body as handed out by the post tool.
#[derive(Debug)]
pub struct PostDetail {
    pub id: u64,
    /// The HTML body; empty unless it was asked for.
    pub content: String,
    pub markdown_content: String,
}

impl PostDetail {
    /// The post `id` with the Markdown of `content`, keeping the HTML only
    /// when `include_html`.
    pub fn new(id: u64, content: String, include_html: bool) -> (r: PostDetail)
        ensures
            r.id == id,
            r.markdown_content@ == markdown_of(content@),
            include_html ==> r.content == content,
            !include_html ==> r.content@ == Seq::<char>::empty(),
    {
        let markdown_content = markdown_from_html(content.as_str());
        PostDetail {
            id,
            content: if include_html {
                content
            } else {
                String::new()
            },
            markdown_content,
        }
    }
}


// ---------------------------------------------------------------------------
// Tags and publish times
// ---------------------------------------------------------------------------

/// The forms the `Tags` field of a detail comes in.
#[derive(Debug)]
pub enum TagsValue {
    /// A list of tags.
    List(Vec<String>),
    /// One tag.
    Text(String),
    /// No tags.
    Null,
}

/// The tags of a detail: a list as it is, one tag as a list of one, null as
/// none.
pub fn tags_from(value: TagsValue) -> (r: Option<Vec<String>>)
    ensures
        value matches TagsValue::List(v) ==> r == Some(v),
        value matches TagsValue::Text(t) ==> r matches Some(v) && v@.len() == 1 && v@[0] == t,
        value matches TagsValue::Null ==> r is None,
{
    match value {
        TagsValue::List(v) => Some(v),
        TagsValue::Text(t) => {
            let mut v: Vec<String> = Vec::new();
            v.push(t);
            Some(v)
        },
        TagsValue::Null => None,
    }
}

/// `shown` is how the publish time `raw` appears: what `age` gives for the
/// instant `raw` denotes, or `raw` itself when it denotes none.
pub open spec fn publish_time_shown<F: Fn(i64) -> String>(raw: Seq<char>, age: F, shown: String) -> bool {
    match crate::dates::publish_instant_of(raw) {
        Some(t) => age.ensures((t as i64,), shown),
        None => shown@ == raw,
    }
}

/// How a publish time is shown: through `age` when it reads as an instant
/// (see `publish_instant_of`), else as it was given.
pub fn render_publish_time<F: Fn(i64) -> String>(raw: &str, age: F) -> (r: String)
    requires
        forall|t: i64| age.requires((t,)),
    ensures
        publish_time_shown(raw@, age, r),
{
    match crate::dates::publish_instant(raw) {
        Some(t) => age(t),
        None => String::from_str(raw),
    }
}


/// A hit whose id field is the decimal number `n` has the news id `n`; one
/// whose id field is not a number has the id that its uri's `/n/<digits>`
/// part spells.
pub proof fn lemma_document_news_id(v: ZzkDocumentView, n: u64)
    ensures
        v.id == decimal(n as nat) ==> document_news_id(v) == Some(n),
        parsed_u64(v.id) is None && news_uri_capture(v.uri) == Some(decimal(n as nat))
            ==> document_news_id(v) == Some(n),
{
    lemma_decimal_parses(n as nat);
}

// ---------------------------------------------------------------------------
// What a search hit shows
// ---------------------------------------------------------------------------

/// The summary of a hit is shown as the plain text of its content (tags
/// removed, then entities decoded), cut to 120 characters and dimmed: the
/// rendering holds it whole.
pub proof fn lemma_document_shows_plain_summary(v: ZzkDocumentView, n: nat, time: Seq<char>)
    ensures
        exists|i: int|
            0 <= i && i + dimmed_of(short_summary(entities_decoded(tags_stripped(v.content)))).len()
                <= document_text(v, n, time).len() && #[trigger] document_text(v, n, time).subrange(
                i,
                i + dimmed_of(short_summary(entities_decoded(tags_stripped(v.content)))).len(),
            ) == dimmed_of(short_summary(entities_decoded(tags_stripped(v.content)))),
{
    let d = dimmed_of(short_summary(entities_decoded(tags_stripped(v.content))));
    let p = list_prefix(n) + cyan_of(bold_of(html_stripped(v.title))) + "\n     "@;
    let doc = document_text(v, n, time);
    let i = p.len() as int;
    assert(doc.subrange(i, i + d.len()) =~= d);
}

/// A hit's content counts only through its plain text: two hits that differ
/// only in content whose plain texts agree are rendered alike.
pub proof fn lemma_document_reads_plain_content(
    v: ZzkDocumentView,
    w: ZzkDocumentView,
    n: nat,
    time: Seq<char>,
)
    requires
        w == (ZzkDocumentView { content: w.content, ..v }),
        entities_decoded(tags_stripped(w.content)) == entities_decoded(tags_stripped(v.content)),
    ensures
        document_text(w, n, time) == document_text(v, n, time),
{
    assert(document_news_id(w) == document_news_id(v));
}

// ---------------------------------------------------------------------------
// Decoding undoes one level of escaping
// ---------------------------------------------------------------------------

spec fn amp_entity() -> Seq<char> {
    seq!['&', 'a', 'm', 'p', ';']
}

spec fn lt_entity() -> Seq<char> {
    seq!['&', 'l', 't', ';']
}

spec fn gt_entity() -> Seq<char> {
    seq!['&', 'g', 't', ';']
}

spec fn quot_entity() -> Seq<char> {
    seq!['&', 'q', 'u', 'o', 't', ';']
}

/// The entity decoded at step `k` of `entities_decoded`.
spec fn decode_pattern(k: int) -> Seq<char> {
    if k == 0 {
        seq!['&', 'n', 'b', 's', 'p', ';']
    } else if k == 1 {
        lt_entity()
    } else if k == 2 {
        gt_entity()
    } else if k == 3 {
        quot_entity()
    } else if k == 4 {
        seq!['&', 'a', 'p', 'o', 's', ';']
    } else if k == 5 {
        seq!['&', '#', '3', '9', ';']
    } else {
        amp_entity()
    }
}

/// What step `k` of `entities_decoded` puts in place of its entity.
spec fn decode_replacement(k: int) -> Seq<char> {
    if k == 0 {
        seq![' ']
    } else if k == 1 {
        seq!['<']
    } else if k == 2 {
        seq!['>']
    } else if k == 3 {
        seq!['"']
    } else if k == 4 || k == 5 {
        seq!['\'']
    } else {
        seq!['&']
    }
}

/// What the character `c` of the unescaped text has become once it is
/// escaped and the first `k` decoding steps have run.
spec fn escaped_block(c: char, k: int) -> Seq<char> {
    if c == '&' {
        if k < 7 {
            amp_entity()
        } else {
            seq!['&']
        }
    } else if c == '<' {
        if k < 2 {
            lt_entity()
        } else {
            seq!['<']
        }
    } else if c == '>' {
        if k < 3 {
            gt_entity()
        } else {
            seq!['>']
        }
    } else if c == '"' {
        if k < 4 {
            quot_entity()
        } else {
            seq!['"']
        }
    } else {
        seq![c]
    }
}

/// The escaping chain of `entities_escaped`, with its patterns written out.
spec fn escape_chain(s: Seq<char>) -> Seq<char> {
    replaced(
        replaced(
            replaced(replaced(s, seq!['&'], amp_entity()), seq!['<'], lt_entity()),
            seq!['>'],
            gt_entity(),
        ),
        seq!['"'],
        quot_entity(),
    )
}

proof fn lemma_decode_pattern_is_entity(k: int)
    requires
        0 <= k < 7,
    ensures
        is_entity(decode_pattern(k)),
{
}

proof fn lemma_block_step(c: char, k: int)
    requires
        0 <= k < 7,
    ensures
        is_text_block(escaped_block(c, k)),
        (if escaped_block(c, k) == decode_pattern(k) {
            decode_replacement(k)
        } else {
            escaped_block(c, k)
        }) == escaped_block(c, k + 1),
{
    let b = escaped_block(c, k);
    let p = decode_pattern(k);
    if b.len() == p.len() && b.len() > 1 {
        assert(b =~= p || b[1] != p[1]);
    }
}

proof fn lemma_escape_char(c: char)
    ensures
        escape_chain(seq![c]) == escaped_block(c, 0),
{
    let e = Seq::<char>::empty();
    lemma_replaced_single(c, '&', amp_entity());
    if c == '&' {
        lemma_replaced_skip_prefix(amp_entity(), e, seq!['<'], lt_entity());
        lemma_replaced_skip_prefix(amp_entity(), e, seq!['>'], gt_entity());
        lemma_replaced_skip_prefix(amp_entity(), e, seq!['"'], quot_entity());
        assert(amp_entity() + e =~= amp_entity());
        assert(replaced(e, seq!['<'], lt_entity()) == e);
        assert(replaced(e, seq!['>'], gt_entity()) == e);
        assert(replaced(e, seq!['"'], quot_entity()) == e);
    } else {
        lemma_replaced_single(c, '<', lt_entity());
        if c == '<' {
            lemma_replaced_skip_prefix(lt_entity(), e, seq!['>'], gt_entity());
            lemma_replaced_skip_prefix(lt_entity(), e, seq!['"'], quot_entity());
            assert(lt_entity() + e =~= lt_entity());
            assert(replaced(e, seq!['>'], gt_entity()) == e);
            assert(replaced(e, seq!['"'], quot_entity()) == e);
        } else {
            lemma_replaced_single(c, '>', gt_entity());
            if c == '>' {
                lemma_replaced_skip_prefix(gt_entity(), e, seq!['"'], quot_entity());
                assert(gt_entity() + e =~= gt_entity());
                assert(replaced(e, seq!['"'], quot_entity()) == e);
            } else {
                lemma_replaced_single(c, '"', quot_entity());
            }
        }
    }
}

proof fn lemma_escape_blocks(s: Seq<char>)
    ensures
        escape_chain(s) == concat_blocks(s.map_values(|c: char| escaped_block(c, 0))),
    decreases s.len(),
{
    let f = |c: char| escaped_block(c, 0);
    let e = Seq::<char>::empty();
    if s.len() == 0 {
        assert(replaced(e, seq!['&'], amp_entity()) == e);
        assert(replaced(e, seq!['<'], lt_entity()) == e);
        assert(replaced(e, seq!['>'], gt_entity()) == e);
        assert(replaced(e, seq!['"'], quot_entity()) == e);
        assert(s =~= e);
        assert(s.map_values(f).len() == 0);
    } else {
        let c = s[0];
        let t = s.drop_first();
        assert(s =~= seq![c] + t);
        let a1 = replaced(seq![c], seq!['&'], amp_entity());
        let b1 = replaced(t, seq!['&'], amp_entity());
        lemma_replaced_char_concat(seq![c], t, '&', amp_entity());
        let a2 = replaced(a1, seq!['<'], lt_entity());
        let b2 = replaced(b1, seq!['<'], lt_entity());
        lemma_replaced_char_concat(a1, b1, '<', lt_entity());
        let a3 = replaced(a2, seq!['>'], gt_entity());
        let b3 = replaced(b2, seq!['>'], gt_entity());
        lemma_replaced_char_concat(a2, b2, '>', gt_entity());
        lemma_replaced_char_concat(a3, b3, '"', quot_entity());
        assert(escape_chain(s) == escape_chain(seq![c]) + escape_chain(t));
        lemma_escape_char(c);
        lemma_escape_blocks(t);
        assert(s.map_values(f).drop_first() =~= t.map_values(f));
        assert(s.map_values(f)[0] == escaped_block(c, 0));
    }
}

proof fn lemma_decode_stage(s: Seq<char>, k: int)
    requires
        0 <= k < 7,
    ensures
        replaced(
            concat_blocks(s.map_values(|c: char| escaped_block(c, k))),
            decode_pattern(k),
            decode_replacement(k),
        ) == concat_blocks(s.map_values(|c: char| escaped_block(c, k + 1))),
{
    let bs = s.map_values(|c: char| escaped_block(c, k));
    let p = decode_pattern(k);
    let r = decode_replacement(k);
    assert forall|i: int| 0 <= i < bs.len() implies is_text_block(#[trigger] bs[i]) by {
        lemma_block_step(s[i], k);
    }
    lemma_decode_pattern_is_entity(k);
    lemma_replaced_blocks(bs, p, r);
    let next = s.map_values(|c: char| escaped_block(c, k + 1));
    let decoded = bs.map_values(|b: Seq<char>| if b == p { r } else { b });
    assert forall|i: int| 0 <= i < s.len() implies #[trigger] decoded[i] == next[i] by {
        lemma_block_step(s[i], k);
    }
    assert(decoded =~= next);
}

proof fn lemma_decoded_blocks(s: Seq<char>)
    ensures
        concat_blocks(s.map_values(|c: char| escaped_block(c, 7))) == s,
    decreases s.len(),
{
    let f = |c: char| escaped_block(c, 7);
    if s.len() == 0 {
        assert(s.map_values(f).len() == 0);
        assert(s =~= Seq::<char>::empty());
    } else {
        let t = s.drop_first();
        lemma_decoded_blocks(t);
        assert(s.map_values(f).drop_first() =~= t.map_values(f));
        assert(s.map_values(f)[0] =~= seq![s[0]]);
        assert(seq![s[0]] + t =~= s);
    }
}

/// Decoding undoes exactly one level of escaping: escape `&`, `<`, `>` and
/// `"` as entities, `&` first, and `decode_html_entities` gives the text
/// back, whatever entities the text itself held.
pub proof fn lemma_decode_undoes_escape(s: Seq<char>)
    ensures
        entities_decoded(entities_escaped(s)) == s,
{
    reveal_strlit("&");
    reveal_strlit("<");
    reveal_strlit(">");
    reveal_strlit("\"");
    reveal_strlit("&amp;");
    reveal_strlit("&lt;");
    reveal_strlit("&gt;");
    reveal_strlit("&quot;");
    reveal_strlit("&nbsp;");
    reveal_strlit(" ");
    reveal_strlit("&apos;");
    reveal_strlit("'");
    reveal_strlit("&#39;");
    assert("&"@ =~= seq!['&']);
    assert("<"@ =~= seq!['<']);
    assert(">"@ =~= seq!['>']);
    assert("\""@ =~= seq!['"']);
    assert("&amp;"@ =~= amp_entity());
    assert("&lt;"@ =~= lt_entity());
    assert("&gt;"@ =~= gt_entity());
    assert("&quot;"@ =~= quot_entity());
    assert("&nbsp;"@ =~= decode_pattern(0));
    assert(" "@ =~= decode_replacement(0));
    assert("&apos;"@ =~= decode_pattern(4));
    assert("'"@ =~= decode_replacement(4));
    assert("&#39;"@ =~= decode_pattern(5));
    assert(entities_escaped(s) == escape_chain(s));
    lemma_escape_blocks(s);
    lemma_decode_stage(s, 0);
    lemma_decode_stage(s, 1);
    lemma_decode_stage(s, 2);
    lemma_decode_stage(s, 3);
    lemma_decode_stage(s, 4);
    lemma_decode_stage(s, 5);
    lemma_decode_stage(s, 6);
    lemma_decoded_blocks(s);
}

} // verus!
