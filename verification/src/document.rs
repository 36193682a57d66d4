//! Parsed documents and the queries on them.

use crate::dom::descendant_elements;
use crate::dom::element_texts;
use crate::dom::has_root_element;
use crate::dom::parse_document;
use crate::dom::parsed_document;
use crate::dom::parsed_selector;
use crate::dom::root_element;
use crate::dom::root_of;
use crate::dom::selector_accepts;
use crate::dom::subtree_elements;
use crate::dom::texts_of;
use crate::element::snapshot_of;
use crate::element::Element;
use crate::element::ElementView;
use crate::error::SyntaxError;
use crate::error::SyntaxErrorView;
use crate::repr::decimal;
use crate::repr::decimal_string;
use crate::selector::compile;
use crate::selector::compiled;
use crate::selector::is_valid_selector;
use crate::selector::lemma_matching_positions;
use crate::selector::match_all;
use crate::selector::matching_elements;
use crate::selector::matching_positions;
use crate::text::normalize_text;
use crate::text::text_of;
use scraper::ElementRef;
use scraper::Html;
use scraper::Selector;
use vstd::prelude::*;
use vstd::utf8::encode_utf8;

verus! {

/// The elements of the document that the markup `src` parses to, in
/// document order, from the root element on.
pub open spec fn document_elements(src: Seq<char>) -> Seq<ElementRef<'static>> {
    subtree_elements(root_of(parsed_document(src)))
}

/// The normalised text of the whole document that `src` parses to.
pub open spec fn document_text(src: Seq<char>) -> Seq<char> {
    text_of(texts_of(root_of(parsed_document(src))))
}

/// The snapshots of the elements behind `handles`, in the same order.
pub open spec fn snapshots(handles: Seq<ElementRef<'static>>) -> Seq<ElementView> {
    Seq::new(handles.len(), |k: int| snapshot_of(handles[k]))
}

/// What a compiled selector selects in the document that `src` parses to.
pub open spec fn selected_with(src: Seq<char>, selector: Selector) -> Seq<ElementView> {
    snapshots(matching_elements(document_elements(src), selector))
}

/// What the selector text `css` selects in the document that `src` parses
/// to: the snapshots of the matching elements, or the syntax error of `css`.
pub open spec fn selected(src: Seq<char>, css: Seq<char>) -> Result<
    Seq<ElementView>,
    SyntaxErrorView,
> {
    match compiled(css) {
        Ok(selector) => Ok(selected_with(src, selector)),
        Err(e) => Err(e),
    }
}

/// The first of `all`, if there is one.
pub open spec fn first_of(all: Seq<ElementView>) -> Option<ElementView> {
    if all.len() > 0 {
        Some(all[0])
    } else {
        None
    }
}

/// The one-line description of a document with the markup `src`.
pub open spec fn document_repr(src: Seq<char>) -> Seq<char> {
    "<Document len_html="@ + decimal(encode_utf8(src).len()) + ">"@
}

/// A selection gives the matching elements of the document in strict
/// document order. The selection succeeds exactly for the valid selector
/// texts. Then its k-th snapshot is taken from the element at the k-th
/// matching position; the positions ascend strictly, so that no element is
/// listed twice and an element that stands earlier in the document is
/// listed earlier; and every element that the selector accepts is among
/// them.
pub proof fn lemma_selection_in_document_order(src: Seq<char>, css: Seq<char>)
    ensures
        selected(src, css) is Ok <==> is_valid_selector(css),
        is_valid_selector(css) ==> ({
            let selector = parsed_selector(css)->Ok_0;
            let elements = document_elements(src);
            let positions = matching_positions(elements, selector);
            let found = selected(src, css)->Ok_0;
            &&& found.len() == positions.len()
            &&& forall|k: int|
                0 <= k < found.len() ==> 0 <= #[trigger] positions[k] < elements.len()
                    && found[k] == snapshot_of(elements[positions[k]])
            &&& forall|j: int, k: int|
                0 <= j < k < positions.len() ==> positions[j] < positions[k]
            &&& forall|i: int|
                0 <= i < elements.len() ==> (positions.contains(i) <==> selector_accepts(
                    selector,
                    #[trigger] elements[i],
                ))
        }),
{
    let selector = parsed_selector(css)->Ok_0;
    let elements = document_elements(src);
    let positions = matching_positions(elements, selector);
    lemma_matching_positions(elements, selector);
    assert forall|i: int| 0 <= i < elements.len() && positions.contains(i) implies selector_accepts(
        selector,
        #[trigger] elements[i],
    ) by {
        let k: int = choose|k: int| 0 <= k < positions.len() && positions[k] == i;
        assert(selector_accepts(selector, elements[positions[k]]));
    }
}

/// What finding `css` gives in the document that `src` parses to: the
/// first snapshot of the selection, `None` exactly where the selection is
/// empty, or the syntax error of `css`.
pub open spec fn found_first(src: Seq<char>, css: Seq<char>) -> Result<
    Option<ElementView>,
    SyntaxErrorView,
> {
    match selected(src, css) {
        Ok(all) => Ok(first_of(all)),
        Err(e) => Err(e),
    }
}

/// A parsed HTML document.
pub struct Document {
    raw_html: String,
    html: Html,
}

impl View for Document {
    type V = Seq<char>;

    /// The markup the document was parsed from.
    closed spec fn view(&self) -> Seq<char> {
        self.raw_html@
    }
}

impl Document {
    /// The tree is the parse of the markup, and it has a root element.
    #[verifier::type_invariant]
    closed spec fn tree_is_parse_of_markup(&self) -> bool {
        &&& self.html == parsed_document(self.raw_html@)
        &&& has_root_element(self.html)
    }

    /// Parses `html` as a whole document. Parsing does not fail: markup
    /// errors are repaired as HTML prescribes.
    pub fn new(html: &str) -> (r: Document)
        ensures
            r@ == html@,
    {
        Document { raw_html: html.to_owned(), html: parse_document(html) }
    }

    /// Parses `html` as a whole document; the same as [`Document::new`].
    pub fn from_html(html: &str) -> (r: Document)
        ensures
            r@ == html@,
    {
        Document::new(html)
    }

    /// The markup the document was parsed from.
    pub fn html(&self) -> (r: &str)
        ensures
            r@ == self@,
    {
        self.raw_html.as_str()
    }

    /// The text of the whole document, normalised.
    pub fn text(&self) -> (r: String)
        ensures
            r@ == document_text(self@),
    {
        proof {
            use_type_invariant(self);
        }
        let root = root_element(&self.html);
        let fragments = element_texts(&root);
        normalize_text(&fragments)
    }

    /// The snapshots of the elements that a compiled selector matches, in
    /// document order.
    pub fn select_with(&self, selector: &Selector) -> (r: Vec<Element>)
        ensures
            r.deep_view() == selected_with(self@, *selector),
    {
        proof {
            use_type_invariant(self);
        }
        let root = root_element(&self.html);
        let elements = descendant_elements(&root);
        let matches = match_all(&elements, selector);
        let mut out: Vec<Element> = Vec::new();
        let mut i: usize = 0;
        while i < matches.len()
            invariant
                i <= matches.len(),
                out.deep_view() == snapshots(matches@.take(i as int)),
            decreases matches.len() - i,
        {
            let ghost before = out.deep_view();
            out.push(Element::build(&matches[i]));
            assert(out.deep_view() == before.push(snapshot_of(matches@[i as int])));
            i += 1;
        }
        out
    }

    /// The snapshots of all elements that match the selector text `css`, in
    /// document order; a syntax error where `css` is not a valid selector
    /// list, found before any element is looked at.
    pub fn select(&self, css: &str) -> (r: Result<Vec<Element>, SyntaxError>)
        ensures
            match r {
                Ok(found) => selected(self@, css@) == Ok::<Seq<ElementView>, SyntaxErrorView>(
                    found.deep_view(),
                ),
                Err(e) => selected(self@, css@) == Err::<Seq<ElementView>, SyntaxErrorView>(e@),
            },
    {
        match compile(css) {
            Ok(selector) => Ok(self.select_with(&selector)),
            Err(e) => Err(e),
        }
    }

    /// The snapshot of the first element in document order that matches
    /// `css`, or `None` where no element matches.
    pub fn find(&self, css: &str) -> (r: Result<Option<Element>, SyntaxError>)
        ensures
            match r {
                Ok(first) => found_first(self@, css@) == Ok::<
                    Option<ElementView>,
                    SyntaxErrorView,
                >(first.deep_view()),
                Err(e) => found_first(self@, css@) == Err::<Option<ElementView>, SyntaxErrorView>(
                    e@,
                ),
            },
    {
        match self.select(css) {
            Ok(mut found) => {
                if found.len() > 0 {
                    Ok(Some(found.swap_remove(0)))
                } else {
                    Ok(None)
                }
            },
            Err(e) => Err(e),
        }
    }

    /// The same as [`Document::select`].
    pub fn css(&self, css: &str) -> (r: Result<Vec<Element>, SyntaxError>)
        ensures
            match r {
                Ok(found) => selected(self@, css@) == Ok::<Seq<ElementView>, SyntaxErrorView>(
                    found.deep_view(),
                ),
                Err(e) => selected(self@, css@) == Err::<Seq<ElementView>, SyntaxErrorView>(e@),
            },
    {
        self.select(css)
    }

    /// A one-line description for debugging: the length of the markup in
    /// bytes.
    pub fn repr(&self) -> (r: String)
        ensures
            r@ == document_repr(self@),
    {
        proof {
            reveal_strlit("<Document len_html=");
            reveal_strlit(">");
        }
        let len: usize = self.raw_html.as_str().as_bytes().len();
        let mut out = "<Document len_html=".to_owned();
        out.append(decimal_string(len).as_str());
        out.append(">");
        out
    }
}

/// Parses `html` as a whole document.
pub fn parse(html: &str) -> (r: Document)
    ensures
        r@ == html@,
{
    Document::from_html(html)
}

/// Parses `html` and selects from it all elements that match `css`.
pub fn select(html: &str, css: &str) -> (r: Result<Vec<Element>, SyntaxError>)
    ensures
        match r {
            Ok(found) => selected(html@, css@) == Ok::<Seq<ElementView>, SyntaxErrorView>(
                found.deep_view(),
            ),
            Err(e) => selected(html@, css@) == Err::<Seq<ElementView>, SyntaxErrorView>(e@),
        },
{
    let doc = Document::from_html(html);
    doc.select(css)
}

/// Parses `html` and finds in it the first element that matches `css`.
pub fn first(html: &str, css: &str) -> (r: Result<Option<Element>, SyntaxError>)
    ensures
        match r {
            Ok(first) => found_first(html@, css@) == Ok::<Option<ElementView>, SyntaxErrorView>(
                first.deep_view(),
            ),
            Err(e) => found_first(html@, css@) == Err::<Option<ElementView>, SyntaxErrorView>(e@),
        },
{
    let doc = Document::from_html(html);
    doc.find(css)
}

} // verus!
