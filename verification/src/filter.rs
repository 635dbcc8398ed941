//! Content filter: decides which extracted strings look like prose worth
//! keeping, and collapses whitespace runs in kept strings.

use vstd::prelude::*;

use crate::strutil::push_char;

verus! {

/// The whitespace characters the filter recognizes: the Unicode
/// White_Space characters (tab through carriage return, space, next
/// line, no-break space, ogham space mark, the en-quad..hair-space
/// range, line and paragraph separators, narrow and medium mathematical
/// spaces, and the ideographic space).
pub open spec fn is_space(c: char) -> bool {
    ||| ('\u{9}' <= c && c <= '\u{d}')
    ||| c == ' '
    ||| c == '\u{85}'
    ||| c == '\u{a0}'
    ||| c == '\u{1680}'
    ||| ('\u{2000}' <= c && c <= '\u{200a}')
    ||| c == '\u{2028}'
    ||| c == '\u{2029}'
    ||| c == '\u{202f}'
    ||| c == '\u{205f}'
    ||| c == '\u{3000}'
}

/// ASCII letters.
pub open spec fn is_alpha(c: char) -> bool {
    ('a' <= c && c <= 'z') || ('A' <= c && c <= 'Z')
}

fn is_space_char(c: char) -> (r: bool)
    ensures
        r == is_space(c),
{
    ('\u{9}' <= c && c <= '\u{d}') || c == ' ' || c == '\u{85}' || c == '\u{a0}'
        || c == '\u{1680}' || ('\u{2000}' <= c && c <= '\u{200a}') || c == '\u{2028}'
        || c == '\u{2029}' || c == '\u{202f}' || c == '\u{205f}' || c == '\u{3000}'
}

fn is_alpha_char(c: char) -> (r: bool)
    ensures
        r == is_alpha(c),
{
    ('a' <= c && c <= 'z') || ('A' <= c && c <= 'Z')
}

/// A string is kept exactly when its first line begins with at least four
/// consecutive ASCII letters: this rejects pure numerals, punctuation-only
/// fragments and very short tokens.
pub open spec fn keep_spec(s: Seq<char>) -> bool {
    s.len() >= 4 && (forall|i: int| 0 <= i < 4 ==> is_alpha(#[trigger] s[i]))
}

/// Decides whether an extracted string is real content worth keeping.
pub fn keep(text: &str) -> (r: bool)
    ensures
        r == keep_spec(text@),
{
    let n = text.unicode_len();
    if n < 4 {
        return false;
    }
    let mut i: usize = 0;
    while i < 4
        invariant
            0 <= i <= 4,
            n == text@.len(),
            n >= 4,
            forall|j: int| 0 <= j < i ==> is_alpha(#[trigger] text@[j]),
        decreases 4 - i,
    {
        if !is_alpha_char(text.get_char(i)) {
            return false;
        }
        i = i + 1;
    }
    true
}

/// One step of whitespace collapsing, reading the string from the front.
/// `prev_space` records whether the character just before `s` was
/// whitespace. A whitespace character preceded by whitespace is dropped
/// (its run has already produced its one output character); a whitespace
/// character opening a run of two or more becomes a single space; a lone
/// whitespace character is kept as it is.
pub open spec fn norm_from(s: Seq<char>, prev_space: bool) -> Seq<char>
    decreases s.len(),
{
    if s.len() == 0 {
        Seq::<char>::empty()
    } else if is_space(s[0]) {
        if prev_space {
            norm_from(s.skip(1), true)
        } else if s.len() >= 2 && is_space(s[1]) {
            seq![' '] + norm_from(s.skip(1), true)
        } else {
            seq![s[0]] + norm_from(s.skip(1), true)
        }
    } else {
        seq![s[0]] + norm_from(s.skip(1), false)
    }
}

/// What `normalize` returns: every run of two or more whitespace
/// characters collapsed to a single space, single whitespace characters
/// untouched.
pub open spec fn normalize_spec(s: Seq<char>) -> Seq<char> {
    norm_from(s, false)
}

/// Collapses any run of two or more whitespace characters into one space.
pub fn normalize(text: &str) -> (r: String)
    ensures
        r@ == normalize_spec(text@),
{
    let n = text.unicode_len();
    let mut out = String::new();
    let mut i: usize = 0;
    let mut prev_space = false;
    proof {
        assert(text@.skip(0) =~= text@);
        assert(out@ + norm_from(text@, false) =~= norm_from(text@, false));
    }
    while i < n
        invariant
            0 <= i <= n,
            n == text@.len(),
            prev_space == (i > 0 && is_space(text@[i as int - 1])),
            norm_from(text@, false) == out@ + norm_from(text@.skip(i as int), prev_space),
        decreases n - i,
    {
        let c = text.get_char(i);
        proof {
            assert(text@.skip(i as int).len() == n - i);
            assert(text@.skip(i as int)[0] == text@[i as int]);
            if i + 1 < n {
                assert(text@.skip(i as int)[1] == text@[i as int + 1]);
            }
            assert(text@.skip(i as int).skip(1) =~= text@.skip(i as int + 1));
        }
        if is_space_char(c) {
            if prev_space {
                // dropped: the run already produced its output
            } else if i + 1 < n && is_space_char(text.get_char(i + 1)) {
                push_char(&mut out, ' ');
            } else {
                push_char(&mut out, c);
            }
            prev_space = true;
        } else {
            push_char(&mut out, c);
            prev_space = false;
        }
        i = i + 1;
    }
    proof {
        assert(text@.skip(i as int).len() == 0);
        assert(norm_from(text@.skip(i as int), prev_space) =~= Seq::<char>::empty());
        assert(out@ + Seq::<char>::empty() =~= out@);
    }
    out
}

/// No output of the collapser starts with whitespace when the previous
/// character was whitespace, and no two adjacent output characters are
/// both whitespace.
proof fn lemma_norm_from_no_adjacent(s: Seq<char>, prev_space: bool)
    ensures
        prev_space && norm_from(s, prev_space).len() > 0 ==> !is_space(
            norm_from(s, prev_space)[0],
        ),
        forall|i: int|
            0 <= i && i + 1 < norm_from(s, prev_space).len() ==> !(is_space(
                #[trigger] norm_from(s, prev_space)[i],
            ) && is_space(norm_from(s, prev_space)[i + 1])),
    decreases s.len(),
{
    if s.len() == 0 {
    } else if is_space(s[0]) {
        lemma_norm_from_no_adjacent(s.skip(1), true);
        if prev_space {
        } else if s.len() >= 2 && is_space(s[1]) {
            let r = seq![' '] + norm_from(s.skip(1), true);
            assert(s.skip(1)[0] == s[1]);
            assert(norm_from(s.skip(1), true).len() > 0 ==> !is_space(
                norm_from(s.skip(1), true)[0],
            ));
            assert forall|i: int| 0 <= i && i + 1 < r.len() implies !(is_space(#[trigger] r[i])
                && is_space(r[i + 1])) by {
                if i == 0 {
                    assert(r[1] == norm_from(s.skip(1), true)[0]);
                } else {
                    assert(r[i] == norm_from(s.skip(1), true)[i - 1]);
                    assert(r[i + 1] == norm_from(s.skip(1), true)[i]);
                }
            }
        } else {
            let r = seq![s[0]] + norm_from(s.skip(1), true);
            assert forall|i: int| 0 <= i && i + 1 < r.len() implies !(is_space(#[trigger] r[i])
                && is_space(r[i + 1])) by {
                if i == 0 {
                    assert(r[1] == norm_from(s.skip(1), true)[0]);
                } else {
                    assert(r[i] == norm_from(s.skip(1), true)[i - 1]);
                    assert(r[i + 1] == norm_from(s.skip(1), true)[i]);
                }
            }
        }
    } else {
        lemma_norm_from_no_adjacent(s.skip(1), false);
        let r = seq![s[0]] + norm_from(s.skip(1), false);
        assert forall|i: int| 0 <= i && i + 1 < r.len() implies !(is_space(#[trigger] r[i])
            && is_space(r[i + 1])) by {
            if i == 0 {
                if r.len() > 1 {
                    assert(r[1] == norm_from(s.skip(1), false)[0]);
                }
            } else {
                assert(r[i] == norm_from(s.skip(1), false)[i - 1]);
                assert(r[i + 1] == norm_from(s.skip(1), false)[i]);
            }
        }
    }
}

/// Law: a normalized string never holds two adjacent whitespace
/// characters — every multi-whitespace run has been collapsed.
pub proof fn lemma_normalize_no_adjacent_whitespace(s: Seq<char>)
    ensures
        forall|i: int|
            0 <= i && i + 1 < normalize_spec(s).len() ==> !(is_space(
                #[trigger] normalize_spec(s)[i],
            ) && is_space(normalize_spec(s)[i + 1])),
{
    lemma_norm_from_no_adjacent(s, false);
}

} // verus!
