use cnblogs_lib::api::news::{check_detail_response, parse_failure, truncate_for_error, DetailFetchError};
use cnblogs_lib::commands::news::{HotArgs, SearchSort};
use cnblogs_lib::commands::post::ListArgs as PostListArgs;
use cnblogs_lib::context::config::{join_path, Cache, CacheDir};
use cnblogs_lib::dates::{last_days, publish_instant, CalendarDate};
use cnblogs_lib::logic::news::{
    batch_outcome, collect_detail_results, fill_hot_dates, list_output, parse_show_ids, show_mode,
    DetailResult, IdInputError, ListOutput, NoIds, ShowMode, TaggedDetail,
};
use cnblogs_lib::mcp::news::{
    add_news_urls, arrange_search_results, find_news_info_id_by_title, normalize_title_for_match,
    pick_news_id_from_hits, HotNewsParams, LookupReply, LookupRequest, LookupStage, LookupStep,
    SearchNewsParams, ShowNewsParams, ShowTarget, TitleLookup,
};
use cnblogs_lib::mcp::post::{arrange_post_search_results, with_blog_app, PostSearchSort};
use cnblogs_lib::mcp::ranking::text_less;
use cnblogs_lib::mcp::ParamError;
use cnblogs_lib::models::news::{
    decode_html_entities, markdown_from_html, tags_from, NewsDetail, NewsInfo, PostDetail, TagsValue,
    ZzkDocument,
};
use cnblogs_lib::text::{is_blank, parse_u64, remove_whitespace, replace_all, trim, u64_to_string};

fn news(id: u64, title: &str) -> NewsInfo {
    NewsInfo {
        id,
        title: title.to_string(),
        summary: "s".to_string(),
        view_count: 1,
        comment_count: 2,
        digg_count: 3,
        ..Default::default()
    }
}

fn hit(title: &str, time: &str, id: &str) -> ZzkDocument {
    ZzkDocument {
        title: title.to_string(),
        content: "<b>c</b>".to_string(),
        publish_time: time.to_string(),
        uri: "https://example.com/x".to_string(),
        id: id.to_string(),
        ..Default::default()
    }
}

#[test]
fn trim_and_blank_follow_unicode_whitespace() {
    assert_eq!(trim(" \u{3000}a b\t\n"), "a b");
    assert!(is_blank(" \u{3000}\u{a0}"));
    assert!(!is_blank(" x "));
    assert_eq!(remove_whitespace(" a \u{2003}b\nc "), "abc");
    assert_eq!(normalize_title_for_match("  Rust 1.0 发布 "), "Rust1.0发布");
}

#[test]
fn replace_all_is_left_to_right_and_non_overlapping() {
    assert_eq!(replace_all("aaa", "aa", "b"), "ba");
    assert_eq!(replace_all("x\r\ny\r\n", "\r\n", "\n"), "x\ny\n");
    assert_eq!(replace_all("none", "zz", "y"), "none");
}

#[test]
fn decimal_rendering_and_parsing() {
    assert_eq!(u64_to_string(0), "0");
    assert_eq!(u64_to_string(18446744073709551615), "18446744073709551615");
    assert_eq!(parse_u64("42"), Some(42));
    assert_eq!(parse_u64("+7"), Some(7));
    assert_eq!(parse_u64("007"), Some(7));
    assert_eq!(parse_u64("18446744073709551615"), Some(u64::MAX));
    assert_eq!(parse_u64("18446744073709551616"), None);
    assert_eq!(parse_u64(""), None);
    assert_eq!(parse_u64("+"), None);
    assert_eq!(parse_u64("-5"), None);
    assert_eq!(parse_u64("1 2"), None);
    assert_eq!(parse_u64("١٢"), None);
}

#[test]
fn news_info_renderings() {
    let n = news(813264, "标题");
    assert_eq!(n.build_url(), "https://news.cnblogs.com/n/813264/");
    assert_eq!(
        news(5, "T").format_with_age("[1分钟前]"),
        "\u{1b}[36m\u{1b}[1mT\u{1b}[0m\u{1b}[39m\ns\n[#\u{1b}[92m5\u{1b}[39m][posted@ [1分钟前]][浏览：1][评论：2][点赞：3]\n"
    );
    let n = NewsInfo { date_added: 1768894800, ..news(5, "T") };
    assert!(n.into_format(|t: i64| format!("<{}>", t)).contains("[posted@ <1768894800>]"));
    assert_eq!(news(5, "T").into_title_format(0), "\u{1b}[97m   1. T\u{1b}[39m");
    assert_eq!(news(5, "T").into_title_format(11233), "\u{1b}[97m11234. T\u{1b}[39m");
}

#[test]
fn zzk_document_renderings() {
    let d = ZzkDocument {
        title: "<em>Rust</em> &amp; Go".to_string(),
        content: "x".repeat(130),
        user_name: Some("bob".to_string()),
        publish_time: "2026".to_string(),
        vote_times: -1,
        view_times: 10,
        comment_times: 0,
        uri: "https://news.cnblogs.com/n/42/".to_string(),
        id: "doc".to_string(),
        ..Default::default()
    };
    let expected = format!(
        "   3. \u{1b}[36m\u{1b}[1mRust & Go\u{1b}[0m\u{1b}[39m\n     \u{1b}[2m{}...\u{1b}[0m\n     [#\u{1b}[92m42\u{1b}[39m] \u{1b}[33mbob\u{1b}[39m  |  浏览: 10  |  推荐: -1  |  评论: 0  |  发布于: T\n     \u{1b}[2mhttps://news.cnblogs.com/n/42/\u{1b}[0m\n",
        "x".repeat(120)
    );
    let shown = ZzkDocument {
        title: d.title.clone(),
        content: d.content.clone(),
        user_name: d.user_name.clone(),
        publish_time: "2026-05-18T10:23:45".to_string(),
        vote_times: d.vote_times,
        view_times: d.view_times,
        comment_times: d.comment_times,
        uri: d.uri.clone(),
        id: d.id.clone(),
        ..Default::default()
    };
    assert!(shown.into_format(0, |t: i64| format!("<{}>", t)).contains("发布于: <1779071025>\n"));
    assert_eq!(d.format_with_time(2, "T"), expected);

    let d = ZzkDocument { title: "<p>a</p>".to_string(), user_name: Some(String::new()), ..Default::default() };
    assert_eq!(d.into_title_format(0), "\u{1b}[97m   1. a\u{1b}[39m");
}

#[test]
fn news_detail_header_markdown_and_clean_content() {
    let d = NewsDetail {
        news_id: 9,
        author: "A".to_string(),
        title: "T".to_string(),
        publish_time: "P".to_string(),
        content: "<h1>Hi</h1>\r\n<p>there</p>".to_string(),
        ..Default::default()
    };
    let sep = "=".repeat(80);
    assert_eq!(
        d.into_header_format(),
        format!(
            "{sep}\n\u{1b}[96m\u{1b}[1mT\u{1b}[0m\u{1b}[39m\n作者: \u{1b}[33mA\u{1b}[39m  |  发布时间: P  |  ID: #\u{1b}[92m9\u{1b}[39m\n{sep}\n"
        )
    );
    assert_eq!(d.clean_content(), "<h1>Hi</h1>\n<p>there</p>");
    let md = d.clean_markdown();
    assert!(md.contains("Hi") && !md.contains("<h1>"));

    let markdown = markdown_from_html(&d.content);
    assert!(markdown.contains("there") && !markdown.contains("<p>"));
    let kept = d.with_markdown();
    assert_eq!(kept.content, "<h1>Hi</h1>\r\n<p>there</p>");
    assert_eq!(kept.markdown_content.as_deref(), Some(markdown.as_str()));
    let prepared = kept.prepared(Some(markdown.clone()), false);
    assert_eq!(prepared.content, "");
    assert_eq!(prepared.markdown_content, Some(markdown));
    assert_eq!(prepared.title, "T");
    let unconverted = NewsDetail { content: "<p>y</p>".to_string(), ..Default::default() }.prepared(None, true);
    assert_eq!(unconverted.content, "<p>y</p>");
    assert_eq!(unconverted.markdown_content, None);

    let post = PostDetail::new(3, "<p>x</p>".to_string(), true);
    assert_eq!(post.content, "<p>x</p>");
    assert!(post.markdown_content.contains('x') && !post.markdown_content.contains("<p>"));
    assert_eq!(PostDetail::new(3, "<p>x</p>".to_string(), false).content, "");
}

#[test]
fn tags_come_as_list_text_or_null() {
    assert_eq!(tags_from(TagsValue::List(vec!["a".into(), "b".into()])), Some(vec!["a".to_string(), "b".to_string()]));
    assert_eq!(tags_from(TagsValue::Text("a".into())), Some(vec!["a".to_string()]));
    assert_eq!(tags_from(TagsValue::Null), None);
}

#[test]
fn every_param_error_has_its_message() {
    let all = [
        (ParamError::EmptyKeywords, "keywords 不能为空"),
        (ParamError::LimitOutOfRange, "limit 必须在 1..=15 之间"),
        (ParamError::LastDaysWithDates, "last_days 不能与 start_date/end_date 同时使用"),
        (ParamError::UnpairedDates, "start_date 和 end_date 必须成对提供"),
        (ParamError::MissingIdsAndTitle, "ids 或 title 至少提供一个"),
        (ParamError::ZeroIdInIds, "ids 不能包含 0"),
        (ParamError::EmptyIds, "ids 不能为空"),
        (ParamError::MaxConcurrentOutOfRange, "max_concurrent 必须在 1..=64 之间"),
        (ParamError::ZeroPostId, "id 不能为 0"),
        (ParamError::MissingBlogApp, "blog_app 不能为空；请提供 blog_app 或先登录"),
    ];
    for (e, m) in all {
        assert_eq!(e.message(), m);
    }
}

#[test]
fn search_and_hot_params_refusals() {
    let base = || SearchNewsParams {
        keywords: "rust".to_string(),
        page_index: None,
        start_date: None,
        end_date: None,
        min_views: None,
        sort: None,
        limit: None,
    };
    let a = base().into_search_args().unwrap();
    assert_eq!((a.page_index, a.limit, a.sort), (1, 15, SearchSort::Relevance));
    assert_eq!(SearchNewsParams { keywords: "\u{3000}".into(), ..base() }.into_search_args().unwrap_err(), ParamError::EmptyKeywords);
    assert_eq!(SearchNewsParams { limit: Some(0), ..base() }.into_search_args().unwrap_err(), ParamError::LimitOutOfRange);
    assert_eq!(SearchNewsParams { keywords: " ".into(), limit: Some(0), ..base() }.into_search_args().unwrap_err(), ParamError::EmptyKeywords);

    let hot = |last, s: Option<&str>, e: Option<&str>| HotNewsParams {
        last_days: last,
        start_date: s.map(|x| x.to_string()),
        end_date: e.map(|x| x.to_string()),
        page_index: None,
        page_size: None,
    };
    assert_eq!(hot(None, Some("2026-06-01"), None).into_hot_args().unwrap_err(), ParamError::UnpairedDates);
    assert_eq!(hot(Some(3), None, Some("2026-06-01")).into_hot_args().unwrap_err(), ParamError::LastDaysWithDates);
    let ok = hot(Some(3), None, None).into_hot_args().unwrap();
    assert_eq!((ok.last_days, ok.page_index, ok.page_size), (Some(3), 1, 10));
}

#[test]
fn show_params_checks_and_plan() {
    let p = |ids: Option<Vec<u64>>, title: Option<&str>, mc: Option<u32>| ShowNewsParams {
        ids,
        title: title.map(|t| t.to_string()),
        max_concurrent: mc,
        include_html: Some(true),
    };
    assert_eq!(p(Some(vec![1, 0]), None, None).validate_lookup().unwrap_err(), ParamError::ZeroIdInIds);
    assert_eq!(p(Some(vec![]), None, None).validate_lookup().unwrap_err(), ParamError::MissingIdsAndTitle);
    assert_eq!(p(Some(vec![1]), None, Some(0)).into_show_args().unwrap_err(), ParamError::MaxConcurrentOutOfRange);
    assert_eq!(p(Some(vec![1]), None, Some(65)).into_show_args().unwrap_err(), ParamError::MaxConcurrentOutOfRange);
    assert_eq!(p(None, Some(" t "), None).into_show_args().unwrap_err(), ParamError::EmptyIds);
    let a = p(Some(vec![3]), None, Some(64)).into_show_args().unwrap();
    assert_eq!((a.max_concurrent, a.include_html), (64, true));

    let plan = p(None, Some("  标题 "), None).into_show_plan().unwrap();
    assert!(matches!(plan.target, ShowTarget::Title(ref t) if t == "标题"));
    assert_eq!(plan.max_concurrent, 8);
    let plan = p(Some(vec![5, 6]), Some("x"), None).into_show_plan().unwrap();
    assert!(matches!(plan.target, ShowTarget::Ids(ref v) if v == &vec![5, 6]));
    assert_eq!(p(Some(vec![5]), None, Some(99)).into_show_plan().unwrap_err(), ParamError::MaxConcurrentOutOfRange);
}

#[test]
fn blog_app_falls_back_to_login() {
    let args = |name: Option<&str>| PostListArgs { name: name.map(|n| n.to_string()), page_index: 2, page_size: 5 };
    assert_eq!(with_blog_app(args(Some("me")), "login").unwrap().name.as_deref(), Some("me"));
    assert_eq!(with_blog_app(args(Some("  ")), "login").unwrap().name.as_deref(), Some("login"));
    assert_eq!(with_blog_app(args(None), "login").unwrap().page_index, 2);
    assert_eq!(with_blog_app(args(None), " ").unwrap_err(), ParamError::MissingBlogApp);
}

#[test]
fn search_hits_are_cleaned_ordered_and_cut() {
    let hits = vec![
        hit("<b>a</b>", "2026-01-01", "1"),
        hit("b", "2026-03-01", "2"),
        hit("c", "2026-01-01", "3"),
        hit("d", "2026-02-01", "4"),
    ];
    let out = arrange_search_results(hits, SearchSort::Time, 3);
    let ids: Vec<&str> = out.iter().map(|d| d.id.as_str()).collect();
    assert_eq!(ids, vec!["2", "4", "1"]);
    assert_eq!(out[2].title, "a");
    assert_eq!(out[2].content, "c");

    let hits = vec![hit("x", "1", "1"), hit("y", "3", "2")];
    let out = arrange_post_search_results(hits, PostSearchSort::Relevance, 15);
    let ids: Vec<&str> = out.iter().map(|d| d.id.as_str()).collect();
    assert_eq!(ids, vec!["1", "2"]);

    assert!(text_less("2026-01-01", "2026-01-02"));
    assert!(text_less("ab", "abc"));
    assert!(!text_less("b", "ab"));
}

#[test]
fn news_urls_are_filled_only_when_missing() {
    let mut list = vec![news(1, "a"), NewsInfo { url: Some("keep".into()), ..news(2, "b") }];
    add_news_urls(&mut list);
    assert_eq!(list[0].url.as_deref(), Some("https://news.cnblogs.com/n/1/"));
    assert_eq!(list[1].url.as_deref(), Some("keep"));
}

#[test]
fn title_lookup_walks_recommended_latest_then_search() {
    let list = vec![news(1, "Other"), news(2, "Rust 发布"), news(3, "Rust发布")];
    assert_eq!(find_news_info_id_by_title(&list, "Rust发布"), Some(2));

    let (lookup, request) = TitleLookup::new(" Rust 发布 ");
    assert!(matches!(request, LookupRequest::Recommended(ref a) if a.page_index == 1 && a.page_size == 20));
    let (lookup, step) = lookup.step(LookupReply::News(vec![news(9, "no")]));
    assert_eq!(lookup.stage, LookupStage::Latest);
    assert!(matches!(step, LookupStep::Fetch(LookupRequest::Latest(ref a)) if a.page_size == 20));
    let (lookup, step) = lookup.step(LookupReply::News(vec![]));
    assert_eq!(lookup.stage, LookupStage::Search);
    match step {
        LookupStep::Fetch(LookupRequest::Search(a)) => {
            assert_eq!(a.keywords, " Rust 发布 ");
            assert_eq!((a.page_index, a.limit, a.sort), (1, 15, SearchSort::Relevance));
        }
        other => panic!("unexpected {:?}", other),
    }
    let hits = vec![
        hit("nothing", "t", "doc-a"),
        ZzkDocument { uri: "https://news.cnblogs.com/n/77/".into(), ..hit("<em>Rust</em> 发布", "t", "doc-b") },
    ];
    let (_, step) = lookup.step(LookupReply::Hits(hits));
    assert!(matches!(step, LookupStep::Found(77)));

    let (lookup, _) = TitleLookup::new("x");
    let (lookup, _) = lookup.step(LookupReply::News(vec![]));
    let (lookup, _) = lookup.step(LookupReply::News(vec![]));
    match lookup.step(LookupReply::Hits(vec![hit("y", "t", "doc")])).1 {
        LookupStep::NotFound(e) => assert_eq!(e.message(), "未找到标题匹配的新闻：x"),
        other => panic!("unexpected {:?}", other),
    }

    let (_, step) = TitleLookup::new("a").0.step(LookupReply::News(vec![news(4, " a ")]));
    assert!(matches!(step, LookupStep::Found(4)));
}

#[test]
fn search_pick_prefers_matching_title_then_first_id() {
    let hits = vec![hit("a", "t", "doc"), hit("b", "t", "12"), hit("c", "t", "13")];
    assert_eq!(pick_news_id_from_hits(hits, "c"), Some(13));
    let hits = vec![hit("a", "t", "doc"), hit("b", "t", "12")];
    assert_eq!(pick_news_id_from_hits(hits, "zz"), Some(12));
}

#[test]
fn show_ids_are_read_from_words() {
    assert_eq!(parse_show_ids(" 1 2\n3\t").unwrap(), vec![1, 2, 3]);
    assert_eq!(parse_show_ids("").unwrap(), Vec::<u64>::new());
    match parse_show_ids("1 x2 3") {
        Err(IdInputError::Invalid(w)) => assert_eq!(w, "x2"),
        other => panic!("unexpected {:?}", other),
    }
    let e = parse_show_ids("5 00").unwrap_err();
    assert!(matches!(e, IdInputError::Zero));
    assert_eq!(e.message(), "无效的 ID '0'，需要正整数");
    assert_eq!(IdInputError::Invalid("ab".into()).message(), "无效的 ID 'ab'，需要正整数");

    assert_eq!(show_mode(&vec![], false), Err(NoIds));
    assert_eq!(show_mode(&vec![4], false), Ok(ShowMode::Single(4)));
    assert_eq!(show_mode(&vec![4], true), Ok(ShowMode::Batch));
    assert_eq!(show_mode(&vec![4, 5], false), Ok(ShowMode::Batch));
    assert_eq!(NoIds.message(), "未提供新闻 ID（位置参数为空且 --stdin 没读到任何 ID）");

    assert_eq!(list_output(true, true, true), ListOutput::Json);
    assert_eq!(list_output(false, true, true), ListOutput::Ids);
    assert_eq!(list_output(false, true, false), ListOutput::Titles);
    assert_eq!(list_output(false, false, false), ListOutput::Full);
}

#[test]
fn batch_results_come_back_in_request_order() {
    let tagged = vec![
        TaggedDetail { index: 2, id: 30, outcome: Err("boom".into()) },
        TaggedDetail { index: 0, id: 10, outcome: Ok(NewsDetail { news_id: 10, ..Default::default() }) },
        TaggedDetail { index: 1, id: 20, outcome: Err("gone".into()) },
    ];
    let results = collect_detail_results(tagged);
    let ids: Vec<u64> = results
        .iter()
        .map(|r| match r {
            DetailResult::Loaded { id, .. } | DetailResult::Failed { id, .. } => *id,
        })
        .collect();
    assert_eq!(ids, vec![10, 20, 30]);
    assert!(batch_outcome(&results).is_ok());

    let failed = vec![DetailResult::Failed { id: 1, error: "e".into() }, DetailResult::Failed { id: 2, error: "e".into() }];
    let e = batch_outcome(&failed).unwrap_err();
    assert_eq!(e.count, 2);
    assert_eq!(e.message(), "批量获取失败：2 条全部失败");
}

#[test]
fn detail_responses_are_checked() {
    assert_eq!(truncate_for_error("abc", 3), "abc");
    assert_eq!(truncate_for_error("新闻abc", 2), "新闻…(total 5 chars)");

    let e = check_detail_response(5, 404, "missing").unwrap_err();
    assert_eq!(e.message(), "获取新闻详情失败 (id=5, HTTP 404): missing");
    let e = check_detail_response(5, 200, r#"{"NewsId":0,"Title":null}"#).unwrap_err();
    assert!(matches!(e, DetailFetchError::NotFound { id: 5 }));
    assert_eq!(e.message(), "新闻不存在 (id=5)");
    assert!(check_detail_response(5, 200, r#"{"NewsId":5,"Title":"t"}"#).is_ok());
    assert!(check_detail_response(5, 200, r#"{"NewsId":0,"Title":"t"}"#).is_ok());
    assert!(check_detail_response(5, 204, "not json").is_ok());
    let body = "x".repeat(201);
    let e = parse_failure(5, 200, "bad".into(), &body);
    assert_eq!(
        e.message(),
        format!("解析新闻详情失败 (id=5, HTTP 200): bad; body preview: {}…(total 201 chars)", "x".repeat(200))
    );
}

#[test]
fn cache_validity_and_paths() {
    let mut cache = Cache::default();
    assert!(cache.is_token_empty() && !cache.is_valid());
    cache.token = " t ".into();
    assert!(!cache.is_valid());
    cache.id = 3;
    assert!(cache.is_valid());

    let dir = CacheDir::new("/home/alice".to_string());
    assert_eq!(dir.full_cache_dir(), "/home/alice/.cnblogs");
    assert_eq!(dir.full_cache_file(), "/home/alice/.cnblogs/token");
    assert_eq!(CacheDir::new("/".to_string()).full_cache_file(), "/.cnblogs/token");
    assert_eq!(join_path("/a", "/b"), "/b");
    assert_eq!(join_path("", "b"), "b");
}

#[test]
fn dates_and_instants() {
    assert!(CalendarDate::from_ymd(2026, 2, 30).is_none());
    let today = CalendarDate::from_ymd(2026, 3, 3).unwrap();
    assert_eq!(today.iso_text().as_deref(), Some("2026-03-03"));
    assert_eq!(today.days_before(7), CalendarDate::from_ymd(2026, 2, 24));
    assert_eq!(last_days(today, 7), Some(("2026-02-24".to_string(), "2026-03-03".to_string())));
    assert_eq!(CalendarDate::from_ymd(12345, 1, 2).unwrap().iso_text().as_deref(), Some("+12345-01-02"));
    assert_eq!(last_days(today, u32::MAX), None);

    let args = HotArgs { start_date: None, end_date: None, last_days: None, page_index: 1, page_size: 10, title_only: false, ids_only: false };
    let filled = fill_hot_dates(args, today).unwrap();
    assert_eq!(filled.start_date.as_deref(), Some("2026-02-24"));
    assert_eq!(filled.end_date.as_deref(), Some("2026-03-03"));
    let given = HotArgs { start_date: Some("a".into()), end_date: Some("b".into()), last_days: None, page_index: 1, page_size: 10, title_only: false, ids_only: false };
    assert_eq!(fill_hot_dates(given, today).unwrap().start_date.as_deref(), Some("a"));

    assert_eq!(publish_instant("2026-05-18T10:23:45"), Some(1779071025));
    assert_eq!(publish_instant("2026-05-18T10:23:45.123"), Some(1779071025));
    assert_eq!(publish_instant("2026-05-18 10:23:45"), Some(1779071025));
    assert_eq!(publish_instant("2026-01-20T15:40:00+08:00"), Some(1768894800));
    assert_eq!(publish_instant("not-a-date"), None);
}

#[test]
fn decoding_undoes_one_level_of_escaping() {
    for text in ["a < b && c > \"d\"", "&lt; &amp; &nbsp; &#39; &apos; &quot;", "&amp;lt;", "", "plain"] {
        let escaped = text.replace('&', "&amp;").replace('<', "&lt;").replace('>', "&gt;").replace('"', "&quot;");
        assert_eq!(decode_html_entities(&escaped), text);
    }
}

#[test]
fn news_id_reads_back_the_id_of_a_built_url() {
    for id in [0u64, 7, 42, 1234567, u64::MAX] {
        let doc = hit("t", "2026", "not-a-number");
        let doc = ZzkDocument { uri: news(id, "T").build_url(), ..doc };
        assert_eq!(doc.news_id(), Some(id));
    }
    let doc = ZzkDocument { uri: news(9, "T").build_url(), ..hit("t", "2026", "5") };
    assert_eq!(doc.news_id(), Some(5));
}
