use scraper::Html;
use scraper::Selector;
use scraper_rs::element::Element;

fn strings(parts: &[&str]) -> Vec<String> {
    parts.iter().map(|p| p.to_string()).collect()
}

fn pairs(items: &[(&str, &str)]) -> Vec<(String, String)> {
    items.iter().map(|(k, v)| (k.to_string(), v.to_string())).collect()
}

fn sample() -> Element {
    Element::from_parts(
        "A",
        &strings(&["  some ", "link\n"]),
        "some <b>link</b>".to_string(),
        &pairs(&[("href", "/x"), ("class", "c")]),
    )
}

#[test]
fn from_parts_fills_the_four_fields() {
    let e = sample();
    assert_eq!(e.tag(), "a");
    assert_eq!(e.text(), "some link");
    assert_eq!(e.html(), "some <b>link</b>");
    let mut attrs = e.attrs();
    attrs.sort();
    assert_eq!(attrs, pairs(&[("class", "c"), ("href", "/x")]));
}

#[test]
fn from_parts_lowers_the_tag() {
    let e = Element::from_parts("TextArea", &strings(&[]), String::new(), &pairs(&[]));
    assert_eq!(e.tag(), "textarea");
    assert_eq!(e.text(), "");
    assert_eq!(e.html(), "");
    assert!(e.attrs().is_empty());
}

#[test]
fn duplicate_attribute_keeps_last_value() {
    let e = Element::from_parts(
        "p",
        &strings(&[]),
        String::new(),
        &pairs(&[("id", "first"), ("lang", "en"), ("id", "second"), ("id", "third")]),
    );
    assert_eq!(e.attr("id"), Some("third".to_string()));
    assert_eq!(e.attr("lang"), Some("en".to_string()));
    let mut attrs = e.attrs();
    attrs.sort();
    assert_eq!(attrs, pairs(&[("id", "third"), ("lang", "en")]));
}

#[test]
fn attr_of_missing_name_is_none() {
    let e = sample();
    assert_eq!(e.attr("title"), None);
    assert_eq!(e.attr(""), None);
    assert_eq!(e.attr("HREF"), None);
}

#[test]
fn attr_of_present_name_is_its_value() {
    let e = sample();
    assert_eq!(e.attr("href"), Some("/x".to_string()));
    assert_eq!(e.attr("class"), Some("c".to_string()));
}

#[test]
fn get_prefers_the_attribute_over_the_default() {
    let e = sample();
    assert_eq!(e.get("href", Some("other".to_string())), Some("/x".to_string()));
    assert_eq!(e.get("href", None), Some("/x".to_string()));
}

#[test]
fn get_falls_back_to_the_default() {
    let e = sample();
    assert_eq!(e.get("title", Some("other".to_string())), Some("other".to_string()));
    assert_eq!(e.get("title", None), None);
}

#[test]
fn attrs_is_an_independent_copy() {
    let e = sample();
    let mut copy = e.attrs();
    copy.clear();
    assert_eq!(e.attrs().len(), 2);
}

#[test]
fn clone_keeps_every_field() {
    let e = sample();
    let c = e.clone();
    assert_eq!(c.tag(), e.tag());
    assert_eq!(c.text(), e.text());
    assert_eq!(c.html(), e.html());
    assert_eq!(c.attrs(), e.attrs());
}

#[test]
fn repr_shows_tag_and_text() {
    assert_eq!(sample().repr(), "<Element tag='a' text=some link>");
}

#[test]
fn repr_of_empty_text() {
    let e = Element::from_parts("br", &strings(&[]), String::new(), &pairs(&[]));
    assert_eq!(e.repr(), "<Element tag='br' text=>");
}

#[test]
fn repr_cuts_long_text_at_forty_characters() {
    let text = "abcdefghij".repeat(5);
    let e = Element::from_parts("p", &strings(&[&text]), String::new(), &pairs(&[]));
    let expected = format!("<Element tag='p' text={}...>", "abcdefghij".repeat(4));
    assert_eq!(e.repr(), expected);
}

#[test]
fn build_reads_the_element_behind_a_handle() {
    let html = Html::parse_document("<p id=\"k\" Title='T'>  one <i>two</i>\nthree </p>");
    let selector = Selector::parse("p").unwrap();
    let handle = html.select(&selector).next().unwrap();
    let e = Element::build(&handle);
    assert_eq!(e.tag(), "p");
    assert_eq!(e.text(), "one two three");
    assert_eq!(e.html(), "  one <i>two</i>\nthree ");
    assert_eq!(e.attr("id"), Some("k".to_string()));
    assert_eq!(e.attr("title"), Some("T".to_string()));
    assert_eq!(e.attrs().len(), 2);
}

#[test]
fn build_is_stable_across_repeated_calls() {
    let html = Html::parse_document("<div> a <span> b </span> c </div>");
    let selector = Selector::parse("div").unwrap();
    let handle = html.select(&selector).next().unwrap();
    let first = Element::build(&handle);
    let second = Element::build(&handle);
    assert_eq!(first.text(), "a b c");
    assert_eq!(first.text(), second.text());
    assert_eq!(first.html(), second.html());
    assert_eq!(first.tag(), second.tag());
    assert_eq!(first.attrs(), second.attrs());
}

#[test]
fn build_survives_the_tree() {
    let e = {
        let html = Html::parse_document("<a href='/x'>link</a>");
        let selector = Selector::parse("a").unwrap();
        let handle = html.select(&selector).next().unwrap();
        Element::build(&handle)
    };
    assert_eq!(e.tag(), "a");
    assert_eq!(e.attr("href"), Some("/x".to_string()));
}

#[test]
fn inner_html_escapes_attribute_values() {
    let html = Html::parse_document("<p><a title='a\"b&amp;c'>x</a></p>");
    let selector = Selector::parse("p").unwrap();
    let handle = html.select(&selector).next().unwrap();
    let e = Element::build(&handle);
    assert_eq!(e.html(), "<a title=\"a&quot;b&amp;c\">x</a>");
}

#[test]
fn inner_html_of_void_children() {
    let html = Html::parse_document("<p>a<br>b<img src='i.png'></p>");
    let selector = Selector::parse("p").unwrap();
    let handle = html.select(&selector).next().unwrap();
    let e = Element::build(&handle);
    assert_eq!(e.html(), "a<br>b<img src=\"i.png\">");
}
