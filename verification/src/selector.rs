//! Compiling selector texts and matching them against the elements of a
//! tree, in document order.

use crate::dom::parse_selector;
use crate::dom::parsed_selector;
use crate::dom::selector_accepts;
use crate::dom::selector_matches;
use crate::error::syntax_error_of;
use crate::error::flaw_error_of;
use crate::error::SyntaxError;
use crate::error::SyntaxErrorView;
use crate::syntax::find_flaw;
use crate::syntax::flaw_of;
use scraper::ElementRef;
use scraper::Selector;
use vstd::prelude::*;

verus! {

/// Whether `css` is a valid selector list: its outer form is flawless and
/// the selector parser accepts it.
pub open spec fn is_valid_selector(css: Seq<char>) -> bool {
    flaw_of(css) is None && parsed_selector(css) is Ok
}

/// What compiling `css` gives: the selector where `css` is valid, else the
/// syntax error, which names the flaw in the outer form where there is one
/// and the parser's finding otherwise.
pub open spec fn compiled(css: Seq<char>) -> Result<Selector, SyntaxErrorView> {
    match flaw_of(css) {
        Some(flaw) => Err(flaw_error_of(css, flaw)),
        None => match parsed_selector(css) {
            Ok(selector) => Ok(selector),
            Err(e) => Err(syntax_error_of(css, e)),
        },
    }
}

/// The positions in `elements` of the elements that `selector` accepts, in
/// ascending order.
pub open spec fn matching_positions(
    elements: Seq<ElementRef<'static>>,
    selector: Selector,
) -> Seq<int>
    decreases elements.len(),
{
    if elements.len() == 0 {
        Seq::empty()
    } else {
        let front = matching_positions(elements.drop_last(), selector);
        if selector_accepts(selector, elements.last()) {
            front.push(elements.len() - 1)
        } else {
            front
        }
    }
}

/// The elements of `elements` that `selector` accepts, each once, in the
/// order in which they stand in `elements`.
pub open spec fn matching_elements(
    elements: Seq<ElementRef<'static>>,
    selector: Selector,
) -> Seq<ElementRef<'static>> {
    let positions = matching_positions(elements, selector);
    Seq::new(positions.len(), |k: int| elements[positions[k]])
}

/// The matching positions are exactly the positions of the accepted
/// elements, and they come in strictly ascending order: every accepted
/// element is listed, none twice, and an element that stands earlier is
/// listed earlier.
pub proof fn lemma_matching_positions(elements: Seq<ElementRef<'static>>, selector: Selector)
    ensures
        forall|k: int|
            0 <= k < matching_positions(elements, selector).len() ==> {
                let p = #[trigger] matching_positions(elements, selector)[k];
                0 <= p < elements.len() && selector_accepts(selector, elements[p])
            },
        forall|j: int, k: int|
            0 <= j < k < matching_positions(elements, selector).len() ==> matching_positions(
                elements,
                selector,
            )[j] < matching_positions(elements, selector)[k],
        forall|i: int|
            0 <= i < elements.len() && selector_accepts(selector, #[trigger] elements[i])
                ==> matching_positions(elements, selector).contains(i),
    decreases elements.len(),
{
    if elements.len() > 0 {
        let front_elements = elements.drop_last();
        let front = matching_positions(front_elements, selector);
        let all = matching_positions(elements, selector);
        let last: int = elements.len() - 1;
        lemma_matching_positions(front_elements, selector);
        assert forall|k: int| 0 <= k < all.len() implies {
            let p = #[trigger] all[k];
            0 <= p < elements.len() && selector_accepts(selector, elements[p])
        } by {
            if k < front.len() {
                assert(all[k] == front[k]);
            }
        }
        assert forall|j: int, k: int| 0 <= j < k < all.len() implies all[j] < all[k] by {
            assert(all[j] == front[j]);
        }
        assert forall|i: int|
            0 <= i < elements.len() && selector_accepts(
                selector,
                #[trigger] elements[i],
            ) implies all.contains(i) by {
            if i < last {
                assert(front_elements[i] == elements[i]);
                let k: int = choose|k: int| 0 <= k < front.len() && front[k] == i;
                assert(all[k] == i);
            } else {
                assert(all[all.len() - 1] == i);
            }
        }
    }
}

/// Compiles a selector text.
///
/// Succeeds exactly on the valid selector lists. Any other text, the empty
/// one included, is answered with a syntax error that carries the text. A
/// text with unbalanced brackets, or with a combinator or comma that lacks
/// a compound selector beside it, is rejected before it is parsed.
pub fn compile(css: &str) -> (r: Result<Selector, SyntaxError>)
    ensures
        r is Ok <==> is_valid_selector(css@),
        match r {
            Ok(selector) => compiled(css@) == Ok::<Selector, SyntaxErrorView>(selector),
            Err(e) => compiled(css@) == Err::<Selector, SyntaxErrorView>(e@),
        },
{
    match find_flaw(css) {
        Some(flaw) => Err(SyntaxError::from_flaw(css, flaw)),
        None => match parse_selector(css) {
            Ok(selector) => Ok(selector),
            Err(e) => Err(SyntaxError::from_parse_error(css, &e)),
        },
    }
}

/// Picks from `elements` those that `selector` accepts, keeping their order.
pub fn match_all<'a>(elements: &Vec<ElementRef<'a>>, selector: &Selector) -> (r: Vec<
    ElementRef<'a>,
>)
    ensures
        r@ == matching_elements(elements@, *selector),
{
    let mut out: Vec<ElementRef<'a>> = Vec::new();
    let mut i: usize = 0;
    while i < elements.len()
        invariant
            i <= elements.len(),
            out@ == matching_elements(elements@.take(i as int), *selector),
        decreases elements.len() - i,
    {
        proof {
            let done = elements@.take(i as int);
            let next = elements@.take(i + 1);
            assert(next.drop_last() == done);
            lemma_matching_positions(done, *selector);
            let before = matching_positions(done, *selector);
            assert forall|k: int| 0 <= k < before.len() implies next[before[k]]
                == done[before[k]] by {}
            if selector_accepts(*selector, elements@[i as int]) {
                assert(matching_elements(next, *selector) == matching_elements(
                    done,
                    *selector,
                ).push(elements@[i as int]));
            }
        }
        if selector_matches(selector, &elements[i]) {
            out.push(elements[i]);
        }
        i += 1;
    }
    proof {
        assert(elements@.take(elements.len() as int) == elements@);
    }
    out
}

} // verus!
