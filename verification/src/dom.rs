//! The parsed tree and compiled selectors, as `scraper` provides them.
//!
//! Everything in this module is taken on trust: the types are opaque, and
//! each function's contract restates what the named `scraper` function does.
//! What a call returns is given a name wherever it is a function of the
//! call's arguments alone; the rest of the library reasons over those names.

use scraper::error::SelectorErrorKind;
use scraper::ElementRef;
use scraper::Html;
use scraper::Selector;
use vstd::prelude::*;

verus! {

/// A parsed HTML tree.
#[verifier::external_type_specification]
#[verifier::external_body]
pub struct ExHtml(Html);

/// A compiled selector list.
#[verifier::external_type_specification]
#[verifier::external_body]
pub struct ExSelector(Selector);

/// A handle to one element of a tree.
#[verifier::external_type_specification]
#[verifier::external_body]
pub struct ExElementRef<'a>(ElementRef<'a>);

/// Why a selector text was rejected.
#[verifier::external_type_specification]
#[verifier::external_body]
pub struct ExSelectorErrorKind(SelectorErrorKind);

/// The tree that `Html::parse_document` builds from the markup `src`.
pub uninterp spec fn parsed_document(src: Seq<char>) -> Html;

/// Whether the tree's root has an element among its children.
pub uninterp spec fn has_root_element(html: Html) -> bool;

/// What `Selector::parse` returns for the text `css`.
pub uninterp spec fn parsed_selector(css: Seq<char>) -> Result<Selector, SelectorErrorKind>;

/// The first element among the children of the tree's root: the `<html>`
/// element of a parsed document.
pub uninterp spec fn root_of(html: Html) -> ElementRef<'static>;

/// The element `el` followed by the elements below it, in document order
/// (pre-order, depth first, children from left to right).
pub uninterp spec fn subtree_elements(el: ElementRef) -> Seq<ElementRef<'static>>;

/// Whether `el` matches at least one alternative of the selector list `sel`.
pub uninterp spec fn selector_accepts(sel: Selector, el: ElementRef) -> bool;

/// The local name of `el` as the tree records it.
pub uninterp spec fn name_of(el: ElementRef) -> Seq<char>;

/// The contents of the text nodes at and below `el`, in document order.
pub uninterp spec fn texts_of(el: ElementRef) -> Seq<Seq<char>>;

/// The serialised markup of the children of `el`.
pub uninterp spec fn inner_html_of(el: ElementRef) -> Seq<char>;

/// The attributes of `el` as (local name, value) pairs, in the order in
/// which the tree hands them out.
pub uninterp spec fn attrs_of(el: ElementRef) -> Seq<(Seq<char>, Seq<char>)>;

/// The debug rendering of a selector error.
pub uninterp spec fn error_detail(e: SelectorErrorKind) -> Seq<char>;

/// Parses `src` as a whole document with `Html::parse_document`.
///
/// Parsing never fails. The result is named, and it always has a root
/// element: `html5ever`'s tree builder, which does the parsing, creates the
/// `<html>` element in its "before html" insertion mode for every token
/// but comments, doctypes and whitespace, and the end of the input is such
/// a token.
#[verifier::external_body]
pub(crate) fn parse_document(src: &str) -> (html: Html)
    ensures
        html == parsed_document(src@),
        has_root_element(html),
{
    Html::parse_document(src)
}

/// Compiles `css` with `Selector::parse`. The result, selector or error,
/// is named.
#[verifier::external_body]
pub(crate) fn parse_selector(css: &str) -> (r: Result<Selector, SelectorErrorKind>)
    ensures
        r == parsed_selector(css@),
{
    Selector::parse(css)
}

/// The root element, by `Html::root_element`, which panics on a tree
/// whose root has no element child.
#[verifier::external_body]
pub(crate) fn root_element<'a>(html: &'a Html) -> (el: ElementRef<'a>)
    requires
        has_root_element(*html),
    ensures
        el == root_of(*html),
{
    html.root_element()
}

/// The elements at and below `el`, collected from
/// `ElementRef::descendent_elements`, which walks the subtree in pre-order
/// and yields `el` first.
#[verifier::external_body]
pub(crate) fn descendant_elements<'a>(el: &ElementRef<'a>) -> (r: Vec<ElementRef<'a>>)
    ensures
        r@ == subtree_elements(*el),
{
    el.descendent_elements().collect()
}

/// `Selector::matches`: whether some alternative of `sel` matches `el`.
#[verifier::external_body]
pub(crate) fn selector_matches(sel: &Selector, el: &ElementRef) -> (r: bool)
    ensures
        r == selector_accepts(*sel, *el),
{
    sel.matches(el)
}

/// The element's local name, from `Element::name`.
#[verifier::external_body]
pub(crate) fn element_name(el: &ElementRef) -> (r: String)
    ensures
        r@ == name_of(*el),
{
    el.value().name().to_string()
}

/// The text nodes at and below `el`, collected from `ElementRef::text`.
#[verifier::external_body]
pub(crate) fn element_texts(el: &ElementRef) -> (r: Vec<String>)
    ensures
        r.deep_view() == texts_of(*el),
{
    el.text().map(|t| t.to_string()).collect()
}

/// The markup of the element's children, from `ElementRef::inner_html`.
#[verifier::external_body]
pub(crate) fn element_inner_html(el: &ElementRef) -> (r: String)
    ensures
        r@ == inner_html_of(*el),
{
    el.inner_html()
}

/// The element's attributes, collected from `Element::attrs`.
#[verifier::external_body]
pub(crate) fn element_attrs(el: &ElementRef) -> (r: Vec<(String, String)>)
    ensures
        r.deep_view() == attrs_of(*el),
{
    el.value().attrs().map(|(k, v)| (k.to_string(), v.to_string())).collect()
}

/// The debug rendering of a selector error, by its `Debug` impl.
#[verifier::external_body]
pub(crate) fn describe_error(e: &SelectorErrorKind) -> (r: String)
    ensures
        r@ == error_detail(*e),
{
    format!("{:?}", e)
}

} // verus!
