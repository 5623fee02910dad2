use tally::format::Format;

#[test]
fn extension_wins_then_accept_then_html() {
    assert_eq!(Format::negotiate("/run.json", None), Format::Json);
    assert_eq!(
        Format::negotiate("/run", Some("application/json")),
        Format::Json
    );
    assert_eq!(Format::negotiate("/run", Some("text/html")), Format::Html);
    assert_eq!(Format::negotiate("/run", None), Format::Html);
}

#[test]
fn extension_beats_an_html_accept() {
    assert_eq!(Format::negotiate("/run.json", Some("text/html")), Format::Json);
}

#[test]
fn accept_may_list_json_among_others() {
    assert_eq!(
        Format::negotiate("/run", Some("text/html, application/json;q=0.9")),
        Format::Json
    );
    assert_eq!(Format::negotiate("/run", Some("application/xml")), Format::Html);
    assert_eq!(Format::negotiate("/run", Some("")), Format::Html);
}

#[test]
fn only_a_trailing_extension_counts() {
    assert_eq!(Format::negotiate("/run.json/x", None), Format::Html);
    assert_eq!(Format::negotiate(".json", None), Format::Json);
    assert_eq!(Format::negotiate("json", None), Format::Html);
    assert_eq!(Format::negotiate("", None), Format::Html);
}

#[test]
fn content_types() {
    assert_eq!(Format::Html.content_type(), "text/html; charset=utf-8");
    assert_eq!(Format::Json.content_type(), "application/json");
}
