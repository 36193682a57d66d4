//! Text normalisation: whitespace classes, words, and the collapsed form in
//! which an element's text is given.

use vstd::prelude::*;

verus! {

/// Whether `c` has the Unicode `White_Space` property.
pub open spec fn is_whitespace(c: char) -> bool {
    ||| '\u{9}' <= c <= '\u{D}'
    ||| c == ' '
    ||| c == '\u{85}'
    ||| c == '\u{A0}'
    ||| c == '\u{1680}'
    ||| '\u{2000}' <= c <= '\u{200A}'
    ||| c == '\u{2028}'
    ||| c == '\u{2029}'
    ||| c == '\u{202F}'
    ||| c == '\u{205F}'
    ||| c == '\u{3000}'
}

/// The single ASCII space that separates words and fragments.
pub open spec fn space() -> Seq<char> {
    seq![' ']
}

/// `parts` written one after another with `sep` between each two neighbours.
pub open spec fn join(parts: Seq<Seq<char>>, sep: Seq<char>) -> Seq<char>
    decreases parts.len(),
{
    if parts.len() == 0 {
        Seq::empty()
    } else if parts.len() == 1 {
        parts[0]
    } else {
        join(parts.drop_last(), sep) + sep + parts.last()
    }
}

/// The maximal runs of non-whitespace characters of `s`, from left to
/// right: the words of `"  a\n\tb  "` are `a` and `b`.
///
/// Reading `s` up to its last character `c`: whitespace adds nothing, a
/// character that follows a non-whitespace character extends the last word,
/// and any other character starts a new word.
pub open spec fn words(s: Seq<char>) -> Seq<Seq<char>>
    decreases s.len(),
{
    if s.len() == 0 {
        Seq::empty()
    } else {
        let front = words(s.drop_last());
        let c = s.last();
        if is_whitespace(c) {
            front
        } else if s.len() >= 2 && !is_whitespace(s[s.len() - 2]) {
            front.drop_last().push(front.last().push(c))
        } else {
            front.push(seq![c])
        }
    }
}

/// `s` with every run of whitespace collapsed into one space and with no
/// whitespace at either end: its words joined by single spaces.
pub open spec fn normalized(s: Seq<char>) -> Seq<char> {
    join(words(s), space())
}

/// The text of a node whose descendant text nodes hold `fragments`, in
/// document order: the fragments joined by single spaces, then normalised.
pub open spec fn text_of(fragments: Seq<Seq<char>>) -> Seq<char> {
    normalized(join(fragments, space()))
}

/// Whether `n` has the shape of a normalised text: no whitespace but the
/// ASCII space, none at either end, and no two spaces in a row.
pub open spec fn is_collapsed(n: Seq<char>) -> bool {
    &&& forall|i: int| 0 <= i < n.len() && is_whitespace(#[trigger] n[i]) ==> n[i] == ' '
    &&& n.len() > 0 ==> !is_whitespace(n[0]) && !is_whitespace(n.last())
    &&& forall|i: int|
        0 <= i < n.len() - 1 && is_whitespace(#[trigger] n[i]) ==> !is_whitespace(n[i + 1])
}

/// The characters of `s` that are not whitespace, in order.
pub open spec fn visible(s: Seq<char>) -> Seq<char>
    decreases s.len(),
{
    if s.len() == 0 {
        Seq::empty()
    } else if is_whitespace(s.last()) {
        visible(s.drop_last())
    } else {
        visible(s.drop_last()).push(s.last())
    }
}

/// Every word is non-empty and free of whitespace, and there is a word
/// wherever `s` ends in a character that is not whitespace.
pub proof fn lemma_words_shape(s: Seq<char>)
    ensures
        forall|k: int| 0 <= k < words(s).len() ==> (#[trigger] words(s)[k]).len() > 0,
        forall|k: int, j: int|
            0 <= k < words(s).len() && 0 <= j < words(s)[k].len() ==> !is_whitespace(
                #[trigger] words(s)[k][j],
            ),
        s.len() > 0 && !is_whitespace(s.last()) ==> words(s).len() > 0,
    decreases s.len(),
{
    if s.len() > 0 {
        lemma_words_shape(s.drop_last());
        let front = words(s.drop_last());
        let c = s.last();
        if !is_whitespace(c) && s.len() >= 2 && !is_whitespace(s[s.len() - 2]) {
            assert(s.drop_last().last() == s[s.len() - 2]);
            let grown = front.last().push(c);
            assert forall|k: int, j: int|
                0 <= k < words(s).len() && 0 <= j < words(s)[k].len() implies !is_whitespace(
                #[trigger] words(s)[k][j],
            ) by {
                if k < front.len() - 1 {
                    assert(words(s)[k] == front[k]);
                } else {
                    assert(words(s)[k] == grown);
                    if j < front.last().len() {
                        assert(grown[j] == front.last()[j]);
                    }
                }
            }
        }
    }
}

/// Joining a list whose last part is `w` and then appending `c` is joining
/// the list with `c` appended to its last part.
pub proof fn lemma_join_grow_last(parts: Seq<Seq<char>>, sep: Seq<char>, c: char)
    requires
        parts.len() > 0,
    ensures
        join(parts.drop_last().push(parts.last().push(c)), sep) == join(parts, sep).push(c),
{
    let grown = parts.drop_last().push(parts.last().push(c));
    assert(grown.drop_last() == parts.drop_last());
    if parts.len() > 1 {
        assert(join(parts.drop_last(), sep) + sep + parts.last().push(c) == (join(
            parts.drop_last(),
            sep,
        ) + sep + parts.last()).push(c));
    }
}

/// A join is at least as long as its last part.
pub proof fn lemma_join_len(parts: Seq<Seq<char>>, sep: Seq<char>)
    ensures
        parts.len() > 0 ==> join(parts, sep).len() >= parts.last().len(),
{
}

/// How the normalised form grows when one character is appended to `s`.
pub proof fn lemma_normalized_step(s: Seq<char>, c: char)
    ensures
        is_whitespace(c) ==> normalized(s.push(c)) == normalized(s),
        !is_whitespace(c) && s.len() > 0 && !is_whitespace(s.last()) ==> normalized(s.push(c))
            == normalized(s).push(c),
        !is_whitespace(c) && !(s.len() > 0 && !is_whitespace(s.last())) && words(s).len() == 0
            ==> normalized(s.push(c)) == seq![c],
        !is_whitespace(c) && !(s.len() > 0 && !is_whitespace(s.last())) && words(s).len() > 0
            ==> normalized(s.push(c)) == normalized(s) + space() + seq![c],
        (words(s).len() == 0) == (normalized(s).len() == 0),
        words(s.push(c)).len() > 0 <==> words(s).len() > 0 || !is_whitespace(c),
{
    let t = s.push(c);
    assert(t.drop_last() == s);
    lemma_words_shape(s);
    lemma_join_len(words(s), space());
    if !is_whitespace(c) {
        if s.len() > 0 && !is_whitespace(s.last()) {
            lemma_join_grow_last(words(s), space(), c);
        } else {
            assert(words(s).push(seq![c]).drop_last() == words(s));
        }
    }
}

/// The normalised form has no whitespace but single spaces between words.
pub proof fn lemma_normalized_is_collapsed(s: Seq<char>)
    ensures
        is_collapsed(normalized(s)),
    decreases s.len(),
{
    if s.len() > 0 {
        let p = s.drop_last();
        let c = s.last();
        assert(p.push(c) == s);
        lemma_normalized_is_collapsed(p);
        lemma_normalized_step(p, c);
    }
}

/// Normalising keeps the words.
pub proof fn lemma_words_of_normalized(s: Seq<char>)
    ensures
        words(normalized(s)) == words(s),
    decreases s.len(),
{
    if s.len() > 0 {
        let p = s.drop_last();
        let c = s.last();
        assert(p.push(c) == s);
        lemma_words_of_normalized(p);
        lemma_normalized_step(p, c);
        lemma_normalized_is_collapsed(p);
        let n = normalized(p);
        let m = normalized(s);
        if !is_whitespace(c) {
            if p.len() > 0 && !is_whitespace(p.last()) {
                lemma_words_shape(p);
                assert(m.drop_last() == n);
            } else if words(p).len() > 0 {
                let mid = n + space();
                assert(m.drop_last() == mid);
                assert(mid.drop_last() == n);
                assert(words(mid) == words(n));
            } else {
                assert(m.drop_last() == Seq::<char>::empty());
            }
        }
    }
}

/// Normalising neither adds nor drops nor reorders a character that is
/// not whitespace.
pub proof fn lemma_normalized_keeps_visible(s: Seq<char>)
    ensures
        visible(normalized(s)) == visible(s),
    decreases s.len(),
{
    if s.len() > 0 {
        let p = s.drop_last();
        let c = s.last();
        assert(p.push(c) == s);
        lemma_normalized_keeps_visible(p);
        lemma_normalized_step(p, c);
        let n = normalized(p);
        let m = normalized(s);
        if !is_whitespace(c) {
            if p.len() > 0 && !is_whitespace(p.last()) {
                assert(m.drop_last() == n);
            } else if words(p).len() > 0 {
                let mid = n + space();
                assert(m.drop_last() == mid);
                assert(mid.drop_last() == n);
                assert(visible(mid) == visible(n));
            } else {
                assert(m.drop_last() == Seq::<char>::empty());
            }
        }
    }
}

/// Normalising twice is normalising once.
pub proof fn lemma_normalized_idempotent(s: Seq<char>)
    ensures
        normalized(normalized(s)) == normalized(s),
{
    lemma_words_of_normalized(s);
}

/// Tests a character for the Unicode `White_Space` property.
pub fn is_space(c: char) -> (r: bool)
    ensures
        r == is_whitespace(c),
{
    ('\u{9}' <= c && c <= '\u{D}') || c == ' ' || c == '\u{85}' || c == '\u{A0}' || c
        == '\u{1680}' || ('\u{2000}' <= c && c <= '\u{200A}') || c == '\u{2028}' || c
        == '\u{2029}' || c == '\u{202F}' || c == '\u{205F}' || c == '\u{3000}'
}

/// Appends `c` to `s`. Stands for `String::push` of the standard library,
/// which adds the character at the end and changes nothing else.
#[verifier::external_body]
pub(crate) fn push_char(s: &mut String, c: char)
    ensures
        final(s)@ == old(s)@.push(c),
{
    s.push(c)
}

/// Collapses every run of whitespace in `s` into one space and drops the
/// whitespace at both ends.
pub fn collapse_whitespace(s: &str) -> (r: String)
    ensures
        r@ == normalized(s@),
        is_collapsed(r@),
{
    proof {
        lemma_normalized_is_collapsed(s@);
    }
    let mut out = String::new();
    let mut in_word = false;
    let mut started = false;
    for c in it: s.chars()
        invariant
            it.seq() == s@,
            out@ == normalized(s@.take(it.index() as int)),
            in_word == (it.index() > 0 && !is_whitespace(s@[it.index() - 1])),
            started == (words(s@.take(it.index() as int)).len() > 0),
    {
        proof {
            let i: int = it.index() as int;
            assert(s@.take(i + 1) == s@.take(i).push(c));
            lemma_normalized_step(s@.take(i), c);
        }
        let blank = is_space(c);
        if !blank {
            if !in_word && started {
                push_char(&mut out, ' ');
            }
            push_char(&mut out, c);
            started = true;
        }
        in_word = !blank;
    }
    proof {
        assert(s@.take(s@.len() as int) == s@);
    }
    out
}

/// Writes `parts` one after another with a single space between neighbours.
pub fn join_fragments(parts: &Vec<String>) -> (r: String)
    ensures
        r@ == join(parts.deep_view(), space()),
{
    let mut out = String::new();
    let mut i: usize = 0;
    while i < parts.len()
        invariant
            i <= parts.len(),
            out@ == join(parts.deep_view().take(i as int), space()),
        decreases parts.len() - i,
    {
        proof {
            reveal_strlit(" ");
            let done = parts.deep_view().take(i as int);
            let next = parts.deep_view().take(i + 1);
            assert(next.drop_last() == done);
        }
        if i > 0 {
            out.append(" ");
        }
        out.append(parts[i].as_str());
        i += 1;
    }
    proof {
        assert(parts.deep_view().take(parts.len() as int) == parts.deep_view());
    }
    out
}

/// The text of a node from the contents of its descendant text nodes, given
/// in document order.
pub fn normalize_text(fragments: &Vec<String>) -> (r: String)
    ensures
        r@ == text_of(fragments.deep_view()),
        is_collapsed(r@),
{
    let joined = join_fragments(fragments);
    collapse_whitespace(joined.as_str())
}

/// `c` with an ASCII capital letter replaced by its small letter.
pub open spec fn ascii_lower(c: char) -> char {
    if 'A' <= c <= 'Z' {
        ((c as u8) + 32) as char
    } else {
        c
    }
}

/// `s` with every ASCII capital letter replaced by its small letter.
pub open spec fn lowercased(s: Seq<char>) -> Seq<char> {
    Seq::new(s.len(), |i: int| ascii_lower(s[i]))
}

/// Replaces an ASCII capital letter by its small letter.
pub fn to_ascii_lower(c: char) -> (r: char)
    ensures
        r == ascii_lower(c),
{
    if 'A' <= c && c <= 'Z' {
        ((c as u8) + 32) as char
    } else {
        c
    }
}

/// `s` in ASCII lower case.
pub fn lowercase(s: &str) -> (r: String)
    ensures
        r@ == lowercased(s@),
{
    let mut out = String::new();
    for c in it: s.chars()
        invariant
            it.seq() == s@,
            out@ == lowercased(s@.take(it.index() as int)),
    {
        push_char(&mut out, to_ascii_lower(c));
    }
    out
}

/// `s` without the whitespace at its start.
pub open spec fn trim_start(s: Seq<char>) -> Seq<char>
    decreases s.len(),
{
    if s.len() > 0 && is_whitespace(s[0]) {
        trim_start(s.drop_first())
    } else {
        s
    }
}

/// `s` without the whitespace at its end.
pub open spec fn trim_end(s: Seq<char>) -> Seq<char>
    decreases s.len(),
{
    if s.len() > 0 && is_whitespace(s.last()) {
        trim_end(s.drop_last())
    } else {
        s
    }
}

/// `s` without the whitespace at its start and at its end.
pub open spec fn trimmed(s: Seq<char>) -> Seq<char> {
    trim_end(trim_start(s))
}

/// Where the first `a` characters of `s` are whitespace and the next one,
/// if any, is not, trimming the start drops exactly those `a`.
pub proof fn lemma_trim_start_at(s: Seq<char>, a: int)
    requires
        0 <= a <= s.len(),
        forall|j: int| 0 <= j < a ==> is_whitespace(#[trigger] s[j]),
        a < s.len() ==> !is_whitespace(s[a]),
    ensures
        trim_start(s) == s.skip(a),
    decreases a,
{
    if a > 0 {
        let rest = s.drop_first();
        assert forall|j: int| 0 <= j < a - 1 implies is_whitespace(#[trigger] rest[j]) by {
            assert(rest[j] == s[j + 1]);
        }
        lemma_trim_start_at(rest, a - 1);
    }
}

/// Where all of `s` from position `b` on is whitespace and the character
/// before it, if any, is not, trimming the end keeps exactly the first `b`.
pub proof fn lemma_trim_end_at(s: Seq<char>, b: int)
    requires
        0 <= b <= s.len(),
        forall|j: int| b <= j < s.len() ==> is_whitespace(#[trigger] s[j]),
        b > 0 ==> !is_whitespace(s[b - 1]),
    ensures
        trim_end(s) == s.take(b),
    decreases s.len() - b,
{
    if b < s.len() {
        lemma_trim_end_at(s.drop_last(), b);
    }
}

/// The part of `s` between its leading and its trailing whitespace.
pub fn trim(s: &str) -> (r: &str)
    ensures
        r@ == trimmed(s@),
{
    let total: usize = s.unicode_len();
    let mut start: usize = 0;
    let mut end: usize = 0;
    let mut seen = false;
    let mut i: usize = 0;
    for c in it: s.chars()
        invariant
            it.seq() == s@,
            s@.len() == total,
            i == it.index(),
            start <= end <= i,
            forall|j: int| 0 <= j < start ==> is_whitespace(#[trigger] s@[j]),
            forall|j: int| end <= j < i ==> is_whitespace(#[trigger] s@[j]),
            seen ==> start < end && !is_whitespace(s@[start as int]) && !is_whitespace(
                s@[end - 1],
            ),
            !seen ==> start == i,
    {
        if !is_space(c) {
            if !seen {
                start = i;
                seen = true;
            }
            end = i + 1;
        } else if !seen {
            start = i + 1;
            end = i + 1;
        }
        i += 1;
    }
    proof {
        lemma_trim_start_at(s@, start as int);
        let t = s@.skip(start as int);
        assert forall|j: int| end - start <= j < t.len() implies is_whitespace(#[trigger] t[j]) by {
            assert(t[j] == s@[j + start]);
        }
        lemma_trim_end_at(t, end - start);
    }
    s.substring_char(start, end)
}

} // verus!
