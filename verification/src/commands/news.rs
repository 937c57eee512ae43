//! Arguments of the news commands.
use vstd::prelude::*;

verus! {

/// The `news` command and its sub-command.
#[derive(Debug)]
pub struct NewsCommand {
    pub commands: NewsAction,
}

/// The news sub-commands.
#[derive(Debug)]
pub enum NewsAction {
    List(ListArgs),
    Show(ShowArgs),
    Search(SearchArgs),
    /// Hot news of a date range.
    Hot(HotArgs),
    /// This week's hot news.
    HotWeek(HotWeekArgs),
    /// Recommended news.
    Recommended(RecommendedArgs),
}

/// Arguments of `news list`.
#[derive(Debug)]
pub struct ListArgs {
    /// Page number, from 1.
    pub page_index: u64,
    /// Items per page.
    pub page_size: u64,
    /// Print titles only.
    pub title_only: bool,
    /// Print ids only, one per line.
    pub ids_only: bool,
}

/// Arguments of `news show`.
#[derive(Debug)]
pub struct ShowArgs {
    /// The news ids to show.
    pub ids: Vec<u64>,
    /// Read the ids from standard input instead.
    pub stdin: bool,
    /// How many details are fetched at once.
    pub max_concurrent: u32,
    /// Keep the HTML body next to the Markdown one.
    pub include_html: bool,
}

/// How search hits are ordered.
#[derive(Debug, Clone, Copy, PartialEq, Eq, Structural)]
pub enum SearchSort {
    /// As the search service ranks them.
    Relevance,
    /// Newest first.
    Time,
}

/// Arguments of `news search`.
#[derive(Debug)]
pub struct SearchArgs {
    pub keywords: String,
    pub page_index: u64,
    /// `YYYY-MM-DD`.
    pub start_date: Option<String>,
    /// `YYYY-MM-DD`.
    pub end_date: Option<String>,
    /// Least number of views.
    pub view_times_at_least: Option<u64>,
    pub title_only: bool,
    pub ids_only: bool,
    pub sort: SearchSort,
    /// How many hits are kept.
    pub limit: u32,
}

/// Arguments of `news hot`: either a date range or the last N days.
#[derive(Debug)]
pub struct HotArgs {
    /// `YYYY-MM-DD`; comes with `end_date`.
    pub start_date: Option<String>,
    /// `YYYY-MM-DD`; comes with `start_date`.
    pub end_date: Option<String>,
    /// The last N days (7 when no date is given).
    pub last_days: Option<u32>,
    pub page_index: u64,
    pub page_size: u64,
    pub title_only: bool,
    pub ids_only: bool,
}

/// Arguments of `news hot-week`.
#[derive(Debug)]
pub struct HotWeekArgs {
    pub page_index: u64,
    pub page_size: u64,
    pub title_only: bool,
    pub ids_only: bool,
}

/// Arguments of `news recommended`.
#[derive(Debug)]
pub struct RecommendedArgs {
    pub page_index: u64,
    pub page_size: u64,
    pub title_only: bool,
    pub ids_only: bool,
}

} // verus!
