use vstd::prelude::*;

pub mod news;
pub mod post;
pub mod ranking;

verus! {

/// Why a tool call's parameters were refused.
#[derive(Debug, Clone, Copy, PartialEq, Eq, Structural)]
pub enum ParamError {
    /// The search keywords are empty or blank.
    EmptyKeywords,
    /// `limit` is outside `1..=15`.
    LimitOutOfRange,
    /// `last_days` was given together with a date.
    LastDaysWithDates,
    /// Only one of `start_date` and `end_date` was given.
    UnpairedDates,
    /// Neither ids nor a non-blank title was given.
    MissingIdsAndTitle,
    /// The ids hold a 0.
    ZeroIdInIds,
    /// No ids were given.
    EmptyIds,
    /// `max_concurrent` is outside `1..=64`.
    MaxConcurrentOutOfRange,
    /// The post id is 0.
    ZeroPostId,
    /// No blog name was given and none is known from the login.
    MissingBlogApp,
}

/// The message of each parameter error.
pub open spec fn param_error_text(e: ParamError) -> Seq<char> {
    match e {
        ParamError::EmptyKeywords => "keywords 不能为空"@,
        ParamError::LimitOutOfRange => "limit 必须在 1..=15 之间"@,
        ParamError::LastDaysWithDates => "last_days 不能与 start_date/end_date 同时使用"@,
        ParamError::UnpairedDates => "start_date 和 end_date 必须成对提供"@,
        ParamError::MissingIdsAndTitle => "ids 或 title 至少提供一个"@,
        ParamError::ZeroIdInIds => "ids 不能包含 0"@,
        ParamError::EmptyIds => "ids 不能为空"@,
        ParamError::MaxConcurrentOutOfRange => "max_concurrent 必须在 1..=64 之间"@,
        ParamError::ZeroPostId => "id 不能为 0"@,
        ParamError::MissingBlogApp => "blog_app 不能为空；请提供 blog_app 或先登录"@,
    }
}

impl ParamError {
    /// The message shown for this error.
    pub fn message(&self) -> (r: String)
        ensures
            r@ == param_error_text(*self),
    {
        match self {
            ParamError::EmptyKeywords => String::from_str("keywords 不能为空"),
            ParamError::LimitOutOfRange => String::from_str("limit 必须在 1..=15 之间"),
            ParamError::LastDaysWithDates => String::from_str(
                "last_days 不能与 start_date/end_date 同时使用",
            ),
            ParamError::UnpairedDates => String::from_str("start_date 和 end_date 必须成对提供"),
            ParamError::MissingIdsAndTitle => String::from_str("ids 或 title 至少提供一个"),
            ParamError::ZeroIdInIds => String::from_str("ids 不能包含 0"),
            ParamError::EmptyIds => String::from_str("ids 不能为空"),
            ParamError::MaxConcurrentOutOfRange => String::from_str(
                "max_concurrent 必须在 1..=64 之间",
            ),
            ParamError::ZeroPostId => String::from_str("id 不能为 0"),
            ParamError::MissingBlogApp => String::from_str(
                "blog_app 不能为空；请提供 blog_app 或先登录",
            ),
        }
    }
}

/// `o`, or `d` when it is `None`.
pub open spec fn or_else<T>(o: Option<T>, d: T) -> T {
    match o {
        Some(x) => x,
        None => d,
    }
}

} // verus!
