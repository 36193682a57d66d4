//! Element snapshots: owned copies of what a query reads from a matched
//! element, independent of the tree they were taken from.

use crate::dom::attrs_of;
use crate::dom::element_attrs;
use crate::dom::element_inner_html;
use crate::dom::element_name;
use crate::dom::element_texts;
use crate::dom::inner_html_of;
use crate::dom::name_of;
use crate::dom::texts_of;
use crate::repr::truncate_for_repr;
use crate::repr::truncated;
use crate::text::lowercase;
use crate::text::lowercased;
use crate::text::normalize_text;
use crate::text::text_of;
use crate::text::trim;
use crate::text::trimmed;
use scraper::ElementRef;
use vstd::prelude::*;

verus! {

/// An attribute list as the tree hands it out: (name, value) pairs.
pub type AttrPairs = Seq<(Seq<char>, Seq<char>)>;

/// What a snapshot holds.
pub struct ElementView {
    /// The tag name, in ASCII lower case.
    pub tag: Seq<char>,
    /// The normalised text of the element.
    pub text: Seq<char>,
    /// The markup of the element's children.
    pub inner_html: Seq<char>,
    /// The attributes, one value per name.
    pub attrs: Map<Seq<char>, Seq<char>>,
}

/// The mapping that `pairs` stands for, read from left to right: where a
/// name occurs more than once, its last value stays.
pub open spec fn attrs_map(pairs: AttrPairs) -> Map<Seq<char>, Seq<char>>
    decreases pairs.len(),
{
    if pairs.len() == 0 {
        Map::empty()
    } else {
        attrs_map(pairs.drop_last()).insert(pairs.last().0, pairs.last().1)
    }
}

/// Whether no name occurs twice in `pairs`.
pub open spec fn distinct_names(pairs: AttrPairs) -> bool {
    forall|i: int, j: int| 0 <= i < j < pairs.len() ==> pairs[i].0 != pairs[j].0
}

/// The snapshot of an element with the given local name, text fragments,
/// inner markup and attribute list.
pub open spec fn snapshot_from(
    name: Seq<char>,
    texts: Seq<Seq<char>>,
    inner_html: Seq<char>,
    attrs: AttrPairs,
) -> ElementView {
    ElementView {
        tag: lowercased(name),
        text: text_of(texts),
        inner_html,
        attrs: attrs_map(attrs),
    }
}

/// The snapshot of the element behind a handle.
pub open spec fn snapshot_of(el: ElementRef) -> ElementView {
    snapshot_from(name_of(el), texts_of(el), inner_html_of(el), attrs_of(el))
}

/// A name is mapped exactly when it occurs in the list.
pub proof fn lemma_attrs_map_names(pairs: AttrPairs, name: Seq<char>)
    ensures
        attrs_map(pairs).contains_key(name) <==> exists|i: int|
            0 <= i < pairs.len() && #[trigger] pairs[i].0 == name,
    decreases pairs.len(),
{
    if pairs.len() > 0 {
        let front = pairs.drop_last();
        lemma_attrs_map_names(front, name);
        if pairs.last().0 != name {
            if attrs_map(pairs).contains_key(name) {
                let i: int = choose|i: int| 0 <= i < front.len() && #[trigger] front[i].0 == name;
                assert(pairs[i].0 == name);
            } else if exists|i: int| 0 <= i < pairs.len() && #[trigger] pairs[i].0 == name {
                let i: int = choose|i: int| 0 <= i < pairs.len() && #[trigger] pairs[i].0 == name;
                assert(front[i].0 == name);
            }
        }
    }
}

/// A name is mapped to the value of its last occurrence in the list.
pub proof fn lemma_attrs_map_last_wins(pairs: AttrPairs, i: int)
    requires
        0 <= i < pairs.len(),
        forall|j: int| i < j < pairs.len() ==> (#[trigger] pairs[j]).0 != pairs[i].0,
    ensures
        attrs_map(pairs).contains_key(pairs[i].0),
        attrs_map(pairs)[pairs[i].0] == pairs[i].1,
    decreases pairs.len(),
{
    if i < pairs.len() - 1 {
        let front = pairs.drop_last();
        assert forall|j: int| i < j < front.len() implies (#[trigger] front[j]).0
            != front[i].0 by {
            assert(front[j] == pairs[j]);
        }
        lemma_attrs_map_last_wins(front, i);
    }
}

/// Replacing the value of a name in a list without repeated names is
/// inserting the new value into the mapping.
pub proof fn lemma_attrs_map_update(pairs: AttrPairs, i: int, value: Seq<char>)
    requires
        distinct_names(pairs),
        0 <= i < pairs.len(),
    ensures
        distinct_names(pairs.update(i, (pairs[i].0, value))),
        attrs_map(pairs.update(i, (pairs[i].0, value))) == attrs_map(pairs).insert(
            pairs[i].0,
            value,
        ),
    decreases pairs.len(),
{
    let name = pairs[i].0;
    let next = pairs.update(i, (name, value));
    let front = pairs.drop_last();
    if i == pairs.len() - 1 {
        assert(next.drop_last() == front);
        assert(attrs_map(front).insert(name, pairs[i].1).insert(name, value) == attrs_map(
            front,
        ).insert(name, value));
    } else {
        lemma_attrs_map_update(front, i, value);
        assert(next.drop_last() == front.update(i, (name, value)));
        assert(attrs_map(front).insert(name, value).insert(pairs.last().0, pairs.last().1)
            == attrs_map(front).insert(pairs.last().0, pairs.last().1).insert(name, value));
    }
}

/// A snapshot of one element: its tag, normalised text, inner markup and
/// attributes, all owned.
#[derive(Debug)]
pub struct Element {
    tag: String,
    text: String,
    inner_html: String,
    attrs: Vec<(String, String)>,
}

impl View for Element {
    type V = ElementView;

    closed spec fn view(&self) -> ElementView {
        ElementView {
            tag: self.tag@,
            text: self.text@,
            inner_html: self.inner_html@,
            attrs: attrs_map(self.attrs.deep_view()),
        }
    }
}

impl DeepView for Element {
    type V = ElementView;

    open spec fn deep_view(&self) -> ElementView {
        self@
    }
}

impl Clone for Element {
    fn clone(&self) -> (r: Self)
        ensures
            r@ == self@,
    {
        proof {
            use_type_invariant(self);
        }
        Element {
            tag: self.tag.clone(),
            text: self.text.clone(),
            inner_html: self.inner_html.clone(),
            attrs: copy_pairs(&self.attrs),
        }
    }
}

/// An owned copy of a list of pairs.
pub fn copy_pairs(pairs: &Vec<(String, String)>) -> (r: Vec<(String, String)>)
    ensures
        r.deep_view() == pairs.deep_view(),
{
    let mut out: Vec<(String, String)> = Vec::new();
    let mut i: usize = 0;
    while i < pairs.len()
        invariant
            i <= pairs.len(),
            out.deep_view() == pairs.deep_view().take(i as int),
        decreases pairs.len() - i,
    {
        let ghost before = out.deep_view();
        out.push((pairs[i].0.clone(), pairs[i].1.clone()));
        assert(out.deep_view() == before.push(pairs.deep_view()[i as int]));
        i += 1;
    }
    out
}

/// Drops from `pairs` every pair whose name occurs again further on, so
/// that each name keeps its last value.
pub fn last_values(pairs: &Vec<(String, String)>) -> (r: Vec<(String, String)>)
    ensures
        distinct_names(r.deep_view()),
        attrs_map(r.deep_view()) == attrs_map(pairs.deep_view()),
{
    let mut out: Vec<(String, String)> = Vec::new();
    let mut i: usize = 0;
    while i < pairs.len()
        invariant
            i <= pairs.len(),
            distinct_names(out.deep_view()),
            attrs_map(out.deep_view()) == attrs_map(pairs.deep_view().take(i as int)),
        decreases pairs.len() - i,
    {
        let name = pairs[i].0.clone();
        let value = pairs[i].1.clone();
        proof {
            let done = pairs.deep_view().take(i as int);
            let next = pairs.deep_view().take(i + 1);
            assert(next.drop_last() == done);
        }
        let ghost before = out.deep_view();
        match position_of(&out, &name) {
            Some(j) => {
                proof {
                    lemma_attrs_map_update(before, j as int, value@);
                }
                out.set(j, (name, value));
                assert(out.deep_view() == before.update(j as int, (before[j as int].0, value@)));
            },
            None => {
                out.push((name, value));
                assert(out.deep_view() == before.push((name@, value@)));
                assert(out.deep_view().drop_last() == before);
            },
        }
        i += 1;
    }
    proof {
        assert(pairs.deep_view().take(pairs.len() as int) == pairs.deep_view());
    }
    out
}

/// The position of the first pair named `name`, if there is one.
pub fn position_of(pairs: &Vec<(String, String)>, name: &String) -> (r: Option<usize>)
    ensures
        match r {
            Some(j) => j < pairs.len() && pairs[j as int].0@ == name@ && forall|k: int|
                0 <= k < j ==> (#[trigger] pairs[k]).0@ != name@,
            None => forall|k: int| 0 <= k < pairs.len() ==> (#[trigger] pairs[k]).0@ != name@,
        },
{
    let mut j: usize = 0;
    while j < pairs.len()
        invariant
            j <= pairs.len(),
            forall|k: int| 0 <= k < j ==> (#[trigger] pairs[k]).0@ != name@,
        decreases pairs.len() - j,
    {
        if pairs[j].0 == *name {
            return Some(j);
        }
        j += 1;
    }
    None
}

impl Element {
    /// No attribute name is held twice.
    #[verifier::type_invariant]
    closed spec fn attrs_are_unique(&self) -> bool {
        distinct_names(self.attrs.deep_view())
    }

    /// Builds the snapshot of an element from what the tree records of it:
    /// its local name, the contents of the text nodes at and below it in
    /// document order, the markup of its children, and its attribute list.
    pub fn from_parts(
        name: &str,
        texts: &Vec<String>,
        inner_html: String,
        attrs: &Vec<(String, String)>,
    ) -> (r: Element)
        ensures
            r@ == snapshot_from(name@, texts.deep_view(), inner_html@, attrs.deep_view()),
    {
        Element {
            tag: lowercase(name),
            text: normalize_text(texts),
            inner_html,
            attrs: last_values(attrs),
        }
    }

    /// Takes the snapshot of the element behind `el`.
    pub fn build(el: &ElementRef) -> (r: Element)
        ensures
            r@ == snapshot_of(*el),
    {
        let name = element_name(el);
        let texts = element_texts(el);
        let inner_html = element_inner_html(el);
        let attrs = element_attrs(el);
        Element::from_parts(name.as_str(), &texts, inner_html, &attrs)
    }

    /// The tag name, in lower case.
    pub fn tag(&self) -> (r: &str)
        ensures
            r@ == self@.tag,
    {
        self.tag.as_str()
    }

    /// The normalised text.
    pub fn text(&self) -> (r: &str)
        ensures
            r@ == self@.text,
    {
        self.text.as_str()
    }

    /// The markup of the element's children.
    pub fn html(&self) -> (r: &str)
        ensures
            r@ == self@.inner_html,
    {
        self.inner_html.as_str()
    }

    /// The attributes as (name, value) pairs, each name once.
    pub fn attrs(&self) -> (r: Vec<(String, String)>)
        ensures
            distinct_names(r.deep_view()),
            attrs_map(r.deep_view()) == self@.attrs,
    {
        proof {
            use_type_invariant(self);
        }
        copy_pairs(&self.attrs)
    }

    /// The value of the attribute `name`, if the element has it.
    pub fn attr(&self, name: &str) -> (r: Option<String>)
        ensures
            match r {
                Some(value) => self@.attrs.contains_key(name@) && value@ == self@.attrs[name@],
                None => !self@.attrs.contains_key(name@),
            },
    {
        proof {
            use_type_invariant(self);
            lemma_attrs_map_names(self.attrs.deep_view(), name@);
        }
        let key = name.to_owned();
        match position_of(&self.attrs, &key) {
            Some(j) => {
                proof {
                    lemma_attrs_map_last_wins(self.attrs.deep_view(), j as int);
                }
                Some(self.attrs[j].1.clone())
            },
            None => {
                assert forall|i: int| 0 <= i < self.attrs.len() implies (
                #[trigger] self.attrs.deep_view()[i]).0 != name@ by {
                    assert(self.attrs[i].0@ != name@);
                }
                None
            },
        }
    }

    /// The value of the attribute `name`, or `default` where the element
    /// does not have it.
    pub fn get(&self, name: &str, default: Option<String>) -> (r: Option<String>)
        ensures
            self@.attrs.contains_key(name@) ==> (r matches Some(value) && value@
                == self@.attrs[name@]),
            !self@.attrs.contains_key(name@) ==> r == default,
    {
        match self.attr(name) {
            Some(value) => Some(value),
            None => default,
        }
    }

    /// A one-line description for debugging: the tag and the first 40
    /// characters of the text.
    pub fn repr(&self) -> (r: String)
        ensures
            r@ == repr_of(self@),
    {
        proof {
            reveal_strlit("<Element tag='");
            reveal_strlit("' text=");
            reveal_strlit(">");
        }
        let preview = truncate_for_repr(trim(self.text.as_str()), 40);
        let mut out = "<Element tag='".to_owned();
        out.append(self.tag.as_str());
        out.append("' text=");
        out.append(preview.as_str());
        out.append(">");
        out
    }
}

/// The one-line description of a snapshot.
pub open spec fn repr_of(e: ElementView) -> Seq<char> {
    "<Element tag='"@ + e.tag + "' text="@ + truncated(trimmed(e.text), 40) + ">"@
}

} // verus!
