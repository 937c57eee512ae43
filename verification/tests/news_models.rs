use cnblogs_lib::models::news::{decode_html_entities, render_publish_time, strip_html, ZzkDocument};

#[test]
fn news_id_from_numeric_id_field() {
    let d = ZzkDocument {
        id: "813264".into(),
        uri: "https://news.cnblogs.com/n/813264/".into(),
        ..Default::default()
    };
    assert_eq!(d.news_id(), Some(813264));
}

#[test]
fn news_id_falls_back_to_uri() {
    let d = ZzkDocument {
        id: "doc-abc-xyz".into(),
        uri: "https://news.cnblogs.com/n/812345/".into(),
        ..Default::default()
    };
    assert_eq!(d.news_id(), Some(812345));
}

#[test]
fn decode_entities_handles_amp_last() {
    assert_eq!(decode_html_entities("&amp;lt;"), "&lt;");
    assert_eq!(decode_html_entities("a&nbsp;b&amp;c&lt;d&gt;e&quot;f&#39;g"), "a b&c<d>e\"f'g");
}

#[test]
fn strip_html_decodes_entities() {
    let raw = "<p>Tom&nbsp;&amp;&nbsp;Jerry &lt;hi&gt;</p>";
    assert_eq!(strip_html(raw), "Tom & Jerry <hi>");
}

#[test]
fn render_publish_time_falls_back_on_unparseable() {
    let age = |t: i64| format!("[{}]", t);
    assert_eq!(render_publish_time("not-a-date", age), "not-a-date");
}

#[test]
fn render_publish_time_parses_naive_format() {
    let age = |t: i64| format!("[{}]", t);
    let out = render_publish_time("2026-05-18T10:23:45", age);
    assert!(out.starts_with('['), "got: {}", out);
}

#[test]
fn news_id_none_when_neither_matches() {
    let d = ZzkDocument {
        id: "doc-abc".into(),
        uri: "https://example.com/whatever".into(),
        ..Default::default()
    };
    assert_eq!(d.news_id(), None);
}
