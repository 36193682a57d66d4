//! The error of a query: a selector text that does not compile.

use crate::dom::describe_error;
use crate::dom::error_detail;
use crate::syntax::Flaw;
use scraper::error::SelectorErrorKind;
use vstd::prelude::*;

verus! {

/// What a syntax error holds.
pub struct SyntaxErrorView {
    /// The selector text that was rejected.
    pub selector: Seq<char>,
    /// What is wrong with it: the flaw in its outer form, or else the
    /// parser's finding.
    pub detail: Seq<char>,
}

/// A selector text that is not a valid CSS selector list.
#[derive(Debug)]
pub struct SyntaxError {
    selector: String,
    detail: String,
}

impl View for SyntaxError {
    type V = SyntaxErrorView;

    closed spec fn view(&self) -> SyntaxErrorView {
        SyntaxErrorView { selector: self.selector@, detail: self.detail@ }
    }
}

impl DeepView for SyntaxError {
    type V = SyntaxErrorView;

    open spec fn deep_view(&self) -> SyntaxErrorView {
        self@
    }
}

/// The syntax error for the text `css`, which the parser rejected with `e`.
pub open spec fn syntax_error_of(css: Seq<char>, e: SelectorErrorKind) -> SyntaxErrorView {
    SyntaxErrorView { selector: css, detail: error_detail(e) }
}

/// What the error says of a flaw in the outer form of a text.
pub open spec fn flaw_detail(flaw: Flaw) -> Seq<char> {
    match flaw {
        Flaw::Brackets => "UnbalancedBrackets"@,
        Flaw::Operand => "MissingCompound"@,
    }
}

/// The syntax error for the text `css`, whose outer form has `flaw`.
pub open spec fn flaw_error_of(css: Seq<char>, flaw: Flaw) -> SyntaxErrorView {
    SyntaxErrorView { selector: css, detail: flaw_detail(flaw) }
}

/// `s` as Rust's debug formatting writes a string: in double quotes, with
/// quotes, backslashes and unprintable characters escaped.
pub uninterp spec fn debug_quoted(s: Seq<char>) -> Seq<char>;

/// `s` in its debug form, as the standard library's `Debug` for `str`
/// writes it through `format!`.
#[verifier::external_body]
fn quote(s: &str) -> (r: String)
    ensures
        r@ == debug_quoted(s@),
{
    format!("{:?}", s)
}

/// The message of a syntax error.
pub open spec fn message_of(e: SyntaxErrorView) -> Seq<char> {
    "Invalid CSS selector "@ + debug_quoted(e.selector) + ": "@ + e.detail
}

impl SyntaxError {
    /// Records that the parser rejected `css` with `e`.
    pub fn from_parse_error(css: &str, e: &SelectorErrorKind) -> (r: SyntaxError)
        ensures
            r@ == syntax_error_of(css@, *e),
    {
        SyntaxError { selector: css.to_owned(), detail: describe_error(e) }
    }

    /// Records that the outer form of `css` has `flaw`.
    pub fn from_flaw(css: &str, flaw: Flaw) -> (r: SyntaxError)
        ensures
            r@ == flaw_error_of(css@, flaw),
    {
        let detail = match flaw {
            Flaw::Brackets => "UnbalancedBrackets",
            Flaw::Operand => "MissingCompound",
        };
        SyntaxError { selector: css.to_owned(), detail: detail.to_owned() }
    }

    /// The selector text that was rejected.
    pub fn selector(&self) -> (r: &str)
        ensures
            r@ == self@.selector,
    {
        self.selector.as_str()
    }

    /// What is wrong with the text.
    pub fn detail(&self) -> (r: &str)
        ensures
            r@ == self@.detail,
    {
        self.detail.as_str()
    }

    /// The full message: the rejected text, quoted, and what is wrong with
    /// it.
    pub fn message(&self) -> (r: String)
        ensures
            r@ == message_of(self@),
    {
        proof {
            reveal_strlit("Invalid CSS selector ");
            reveal_strlit(": ");
        }
        let mut out = "Invalid CSS selector ".to_owned();
        let quoted = quote(self.selector.as_str());
        out.append(quoted.as_str());
        out.append(": ");
        out.append(self.detail.as_str());
        out
    }
}

} // verus!
