//! The outer form of a selector text: balanced brackets and complete
//! combinators.
//!
//! A selector text is scanned once, from left to right, the way a CSS
//! tokenizer reads it: what stands inside quoted strings and comments does
//! not count, and a backslash takes the next character out of play. The
//! scan finds the two flaws that a lenient parser may let pass or may only
//! name vaguely: a bracket that is left open or closed without having been
//! opened, and, outside all brackets, a combinator or comma that lacks the
//! compound selector it stands before or after (which includes the empty
//! text).

use vstd::prelude::*;

verus! {

/// Where the scanner stands between two characters.
#[derive(Clone, Copy, Debug)]
pub enum ScanMode {
    /// In plain text.
    Plain,
    /// In plain text, right after a `/` that may open a comment; holds
    /// whether a compound selector was due before it.
    Slash(bool),
    /// Right after a backslash in plain text.
    Escape,
    /// Inside a string opened by the given quote.
    Quoted(char),
    /// Right after a backslash inside such a string.
    QuotedEscape(char),
    /// Inside a comment.
    Comment,
    /// Inside a comment, right after a `*`.
    CommentStar,
}

/// What is wrong with the outer form of a selector text.
#[derive(Clone, Copy, Debug)]
pub enum Flaw {
    /// A bracket is left open, or closed without having been opened.
    Brackets,
    /// A combinator or comma lacks a compound selector beside it, or the
    /// text holds no selector at all.
    Operand,
}

/// The scanner's state.
pub struct ScanState {
    /// Where the scanner stands.
    pub mode: ScanMode,
    /// The closing brackets still awaited, innermost last.
    pub pending: Seq<char>,
    /// Whether a closing bracket was met that closes nothing.
    pub broken: bool,
    /// Whether, outside all brackets, a compound selector is due: at the
    /// start, after a comma and after a combinator.
    pub due: bool,
    /// Whether a combinator or comma was met while a compound was due.
    pub stray: bool,
}

/// The state before the first character.
pub open spec fn scan_start() -> ScanState {
    ScanState {
        mode: ScanMode::Plain,
        pending: Seq::empty(),
        broken: false,
        due: true,
        stray: false,
    }
}

/// Whether `c` is whitespace to CSS.
pub open spec fn is_css_space(c: char) -> bool {
    c == ' ' || c == '\t' || c == '\n' || c == '\r' || c == '\u{C}'
}

/// Whether `c` joins or separates compound selectors: `>`, `+`, `~` or `,`.
pub open spec fn is_operator(c: char) -> bool {
    c == '>' || c == '+' || c == '~' || c == ','
}

/// The state after reading `c` in plain text.
pub open spec fn scan_plain(st: ScanState, c: char) -> ScanState {
    if is_css_space(c) {
        ScanState { mode: ScanMode::Plain, ..st }
    } else if c == '/' {
        ScanState { mode: ScanMode::Slash(st.due), due: false, ..st }
    } else if is_operator(c) {
        if st.pending.len() > 0 {
            ScanState { mode: ScanMode::Plain, ..st }
        } else {
            ScanState { mode: ScanMode::Plain, due: true, stray: st.stray || st.due, ..st }
        }
    } else if c == '\\' {
        ScanState { mode: ScanMode::Escape, due: false, ..st }
    } else if c == '"' || c == '\'' {
        ScanState { mode: ScanMode::Quoted(c), due: false, ..st }
    } else if c == '[' {
        ScanState { mode: ScanMode::Plain, pending: st.pending.push(']'), due: false, ..st }
    } else if c == '(' {
        ScanState { mode: ScanMode::Plain, pending: st.pending.push(')'), due: false, ..st }
    } else if c == ']' || c == ')' {
        if st.pending.len() > 0 && st.pending.last() == c {
            ScanState { mode: ScanMode::Plain, pending: st.pending.drop_last(), due: false, ..st }
        } else {
            ScanState { mode: ScanMode::Plain, broken: true, due: false, ..st }
        }
    } else {
        ScanState { mode: ScanMode::Plain, due: false, ..st }
    }
}

/// The state after reading `c` in state `st`.
pub open spec fn scan_step(st: ScanState, c: char) -> ScanState {
    match st.mode {
        ScanMode::Plain => scan_plain(st, c),
        ScanMode::Slash(due) => if c == '*' {
            ScanState { mode: ScanMode::Comment, due, ..st }
        } else {
            scan_plain(st, c)
        },
        ScanMode::Escape => ScanState { mode: ScanMode::Plain, ..st },
        ScanMode::Quoted(q) => if c == '\\' {
            ScanState { mode: ScanMode::QuotedEscape(q), ..st }
        } else if c == q {
            ScanState { mode: ScanMode::Plain, ..st }
        } else {
            st
        },
        ScanMode::QuotedEscape(q) => ScanState { mode: ScanMode::Quoted(q), ..st },
        ScanMode::Comment => if c == '*' {
            ScanState { mode: ScanMode::CommentStar, ..st }
        } else {
            st
        },
        ScanMode::CommentStar => if c == '/' {
            ScanState { mode: ScanMode::Plain, ..st }
        } else if c == '*' {
            st
        } else {
            ScanState { mode: ScanMode::Comment, ..st }
        },
    }
}

/// The state after reading all of `s`.
pub open spec fn scan(s: Seq<char>) -> ScanState
    decreases s.len(),
{
    if s.len() == 0 {
        scan_start()
    } else {
        scan_step(scan(s.drop_last()), s.last())
    }
}

/// Whether every bracket of `s` that counts is closed by its partner, and
/// no closing bracket stands without one.
pub open spec fn is_balanced(s: Seq<char>) -> bool {
    !scan(s).broken && scan(s).pending.len() == 0
}

/// Whether, outside all brackets, every combinator and comma of `s` has a
/// compound selector on both sides, and `s` holds a selector at all.
pub open spec fn is_complete(s: Seq<char>) -> bool {
    !scan(s).stray && !scan(s).due
}

/// The flaw in the outer form of `s`, if it has one; the brackets are
/// blamed first.
pub open spec fn flaw_of(s: Seq<char>) -> Option<Flaw> {
    if !is_balanced(s) {
        Some(Flaw::Brackets)
    } else if !is_complete(s) {
        Some(Flaw::Operand)
    } else {
        None
    }
}

/// Whether `c` means nothing to the scanner: it is no whitespace,
/// combinator, comma, bracket, quote, backslash or slash.
pub open spec fn is_word_char(c: char) -> bool {
    !is_css_space(c) && !is_operator(c) && c != '[' && c != ']' && c != '(' && c != ')' && c
        != '"' && c != '\'' && c != '\\' && c != '/'
}

/// Whether `s` is made of such characters only.
pub open spec fn is_word(s: Seq<char>) -> bool {
    forall|i: int| 0 <= i < s.len() ==> is_word_char(#[trigger] s[i])
}

/// Whether `s` is made of CSS whitespace only.
pub open spec fn is_gap(s: Seq<char>) -> bool {
    forall|i: int| 0 <= i < s.len() ==> is_css_space(#[trigger] s[i])
}

/// In plain text, whitespace leaves the scanner's state as it is.
pub proof fn lemma_scan_gap(s: Seq<char>, gap: Seq<char>)
    requires
        scan(s).mode is Plain,
        is_gap(gap),
    ensures
        scan(s + gap) == scan(s),
    decreases gap.len(),
{
    if gap.len() > 0 {
        let front = gap.drop_last();
        assert forall|i: int| 0 <= i < front.len() implies is_css_space(#[trigger] front[i]) by {
            assert(front[i] == gap[i]);
        }
        lemma_scan_gap(s, front);
        assert((s + gap).drop_last() == s + front);
    }
}

/// In plain text, a word changes one thing in the scanner's state: no
/// compound selector is due after it.
pub proof fn lemma_scan_word(s: Seq<char>, word: Seq<char>)
    requires
        scan(s).mode is Plain,
        is_word(word),
        word.len() > 0,
    ensures
        scan(s + word) == (ScanState { due: false, ..scan(s) }),
    decreases word.len(),
{
    let front = word.drop_last();
    assert((s + word).drop_last() == s + front);
    if front.len() > 0 {
        assert forall|i: int| 0 <= i < front.len() implies is_word_char(#[trigger] front[i]) by {
            assert(front[i] == word[i]);
        }
        lemma_scan_word(s, front);
    }
}

/// The empty text has a flaw: it holds no selector.
pub proof fn lemma_empty_text_is_flawed()
    ensures
        flaw_of(Seq::<char>::empty()) == Some(Flaw::Operand),
{
}

/// A single word is flawless.
pub proof fn lemma_word_is_flawless(word: Seq<char>)
    requires
        is_word(word),
        word.len() > 0,
    ensures
        flaw_of(word) == None::<Flaw>,
{
    let start = Seq::<char>::empty();
    lemma_scan_word(start, word);
}

/// A combinator or comma at the end of a text, after a word and any
/// whitespace, is a flaw: the compound selector after it is missing.
pub proof fn lemma_dangling_operator_is_flawed(word: Seq<char>, gap: Seq<char>, c: char)
    requires
        is_word(word),
        word.len() > 0,
        is_gap(gap),
        is_operator(c),
    ensures
        flaw_of(word + gap + seq![c]) == Some(Flaw::Operand),
{
    let start = Seq::<char>::empty();
    lemma_scan_word(start, word);
    lemma_scan_gap(word, gap);
    let all = word + gap + seq![c];
    assert(all.drop_last() == word + gap);
}

/// A bracket that is opened after a word and not closed, whatever word
/// follows it, is a flaw.
pub proof fn lemma_unclosed_bracket_is_flawed(word: Seq<char>, c: char, inner: Seq<char>)
    requires
        is_word(word),
        word.len() > 0,
        c == '[' || c == '(',
        is_word(inner),
    ensures
        flaw_of(word + seq![c] + inner) == Some(Flaw::Brackets),
{
    let start = Seq::<char>::empty();
    lemma_scan_word(start, word);
    let opened = word + seq![c];
    assert(opened.drop_last() == word);
    if inner.len() > 0 {
        lemma_scan_word(opened, inner);
    }
}

/// The scanner while it runs.
struct Scanner {
    mode: ScanMode,
    pending: Vec<char>,
    broken: bool,
    due: bool,
    stray: bool,
}

impl View for Scanner {
    type V = ScanState;

    closed spec fn view(&self) -> ScanState {
        ScanState {
            mode: self.mode,
            pending: self.pending@,
            broken: self.broken,
            due: self.due,
            stray: self.stray,
        }
    }
}

impl Scanner {
    /// Reads `c` in plain text.
    fn plain(&mut self, c: char)
        ensures
            final(self)@ == scan_plain(old(self)@, c),
    {
        self.mode = ScanMode::Plain;
        if c == ' ' || c == '\t' || c == '\n' || c == '\r' || c == '\u{C}' {
        } else if c == '/' {
            self.mode = ScanMode::Slash(self.due);
            self.due = false;
        } else if c == '>' || c == '+' || c == '~' || c == ',' {
            if self.pending.len() == 0 {
                self.stray = self.stray || self.due;
                self.due = true;
            }
        } else {
            self.due = false;
            if c == '\\' {
                self.mode = ScanMode::Escape;
            } else if c == '"' || c == '\'' {
                self.mode = ScanMode::Quoted(c);
            } else if c == '[' {
                self.pending.push(']');
            } else if c == '(' {
                self.pending.push(')');
            } else if c == ']' || c == ')' {
                let depth: usize = self.pending.len();
                if depth > 0 && self.pending[depth - 1] == c {
                    self.pending.pop();
                } else {
                    self.broken = true;
                }
            }
        }
    }

    /// Reads `c`.
    fn step(&mut self, c: char)
        ensures
            final(self)@ == scan_step(old(self)@, c),
    {
        match self.mode {
            ScanMode::Plain => self.plain(c),
            ScanMode::Slash(due) => {
                if c == '*' {
                    self.mode = ScanMode::Comment;
                    self.due = due;
                } else {
                    self.plain(c);
                }
            },
            ScanMode::Escape => {
                self.mode = ScanMode::Plain;
            },
            ScanMode::Quoted(q) => {
                if c == '\\' {
                    self.mode = ScanMode::QuotedEscape(q);
                } else if c == q {
                    self.mode = ScanMode::Plain;
                }
            },
            ScanMode::QuotedEscape(q) => {
                self.mode = ScanMode::Quoted(q);
            },
            ScanMode::Comment => {
                if c == '*' {
                    self.mode = ScanMode::CommentStar;
                }
            },
            ScanMode::CommentStar => {
                if c == '/' {
                    self.mode = ScanMode::Plain;
                } else if c != '*' {
                    self.mode = ScanMode::Comment;
                }
            },
        }
    }
}

/// Scans `css` and names the flaw in its outer form, if it has one.
pub fn find_flaw(css: &str) -> (r: Option<Flaw>)
    ensures
        r == flaw_of(css@),
{
    let mut scanner = Scanner {
        mode: ScanMode::Plain,
        pending: Vec::new(),
        broken: false,
        due: true,
        stray: false,
    };
    for c in it: css.chars()
        invariant
            it.seq() == css@,
            scanner@ == scan(css@.take(it.index() as int)),
    {
        proof {
            let i: int = it.index() as int;
            assert(css@.take(i + 1).drop_last() == css@.take(i));
        }
        scanner.step(c);
    }
    proof {
        assert(css@.take(css@.len() as int) == css@);
    }
    if scanner.broken || scanner.pending.len() > 0 {
        Some(Flaw::Brackets)
    } else if scanner.stray || scanner.due {
        Some(Flaw::Operand)
    } else {
        None
    }
}

} // verus!
