//! Title sanitization: every character that is neither alphanumeric nor a
//! plain space becomes a space, then runs of spaces collapse to one and the
//! ends are trimmed.

use vstd::prelude::*;
use vstd::string::*;

verus! {

/// What `char::is_alphanumeric` answers for a character (Unicode
/// `Alphabetic` or `Numeric`).
pub uninterp spec fn is_alnum(c: char) -> bool;

/// Relies on `char::is_alphanumeric`: the answer depends on the character alone.
#[verifier::external_body]
fn char_is_alphanumeric(c: char) -> (r: bool)
    ensures
        r == is_alnum(c),
{
    c.is_alphanumeric()
}

/// Relies on `String::push`: appends the character at the end.
#[verifier::external_body]
pub(crate) fn push_char(s: &mut String, c: char)
    ensures
        final(s)@ == old(s)@.push(c),
{
    s.push(c)
}

/// A character kept as is, or a space in its place.
pub open spec fn clean_char(c: char) -> char {
    if is_alnum(c) || c == ' ' {
        c
    } else {
        ' '
    }
}

pub open spec fn cleaned(s: Seq<char>) -> Seq<char> {
    s.map_values(|c: char| clean_char(c))
}

/// Reads `s` left to right: the text built so far, and whether a single
/// space is owed before the next non-space character.
pub open spec fn squeeze(s: Seq<char>) -> (Seq<char>, bool)
    decreases s.len(),
{
    if s.len() == 0 {
        (Seq::empty(), false)
    } else {
        let prev = squeeze(s.drop_last());
        let c = s.last();
        if c == ' ' {
            (prev.0, prev.0.len() > 0)
        } else if prev.1 {
            (prev.0.push(' ').push(c), false)
        } else {
            (prev.0.push(c), false)
        }
    }
}

/// The sanitized form of a title.
pub open spec fn sanitized(s: Seq<char>) -> Seq<char> {
    squeeze(cleaned(s)).0
}

/// The words of `s`: its maximal runs of characters other than a space,
/// in order.
pub open spec fn words(s: Seq<char>) -> Seq<Seq<char>>
    decreases s.len(),
{
    if s.len() == 0 {
        Seq::empty()
    } else {
        let p = s.drop_last();
        let c = s.last();
        let w = words(p);
        if c == ' ' {
            w
        } else if p.len() > 0 && p.last() != ' ' && w.len() > 0 {
            w.update(w.len() - 1, w.last().push(c))
        } else {
            w.push(seq![c])
        }
    }
}

/// The words of `ws` with one space between each two.
pub open spec fn join_words(ws: Seq<Seq<char>>) -> Seq<char>
    decreases ws.len(),
{
    if ws.len() == 0 {
        Seq::empty()
    } else if ws.len() == 1 {
        ws[0]
    } else {
        join_words(ws.drop_last()) + seq![' '] + ws.last()
    }
}

proof fn lemma_squeeze_words(t: Seq<char>)
    ensures
        squeeze(t).0 == join_words(words(t)),
        squeeze(t).1 == (t.len() > 0 && t.last() == ' ' && words(t).len() > 0),
        forall|i: int| 0 <= i < words(t).len() ==> (#[trigger] words(t)[i]).len() > 0,
        (join_words(words(t)).len() > 0) == (words(t).len() > 0),
        t.len() > 0 && t.last() != ' ' ==> words(t).len() > 0,
    decreases t.len(),
{
    if t.len() > 0 {
        let p = t.drop_last();
        let c = t.last();
        lemma_squeeze_words(p);
        let w = words(p);
        if c == ' ' {
        } else if p.len() > 0 && p.last() != ' ' && w.len() > 0 {
            let u = w.update(w.len() - 1, w.last().push(c));
            assert(u.last() == w.last().push(c));
            if w.len() > 1 {
                assert(u.drop_last() == w.drop_last());
            }
            assert forall|i: int| 0 <= i < u.len() implies (#[trigger] u[i]).len() > 0 by {
                if i < u.len() - 1 {
                    assert(u[i] == w[i]);
                }
            }
        } else {
            let u = w.push(seq![c]);
            assert(u.drop_last() == w);
            assert(u.last() == seq![c]);
            assert forall|i: int| 0 <= i < u.len() implies (#[trigger] u[i]).len() > 0 by {
                if i < w.len() {
                    assert(u[i] == w[i]);
                }
            }
            if w.len() == 0 {
                assert(u.len() == 1);
                assert(u[0] == seq![c]);
                assert(seq![c] == Seq::<char>::empty().push(c));
            } else {
                assert(join_words(w).push(' ').push(c) == join_words(w) + seq![' '] + seq![c]);
            }
        }
    }
}

/// The sanitized form of a title is the words of its cleaned form joined by
/// single spaces.
pub proof fn lemma_sanitized_is_joined_words(s: Seq<char>)
    ensures
        sanitized(s) == join_words(words(cleaned(s))),
{
    lemma_squeeze_words(cleaned(s));
}

/// Only alphanumerics and single inner spaces.
pub open spec fn is_clean_name(t: Seq<char>) -> bool {
    &&& forall|i: int| 0 <= i < t.len() ==> #[trigger] t[i] == ' ' || is_alnum(t[i])
    &&& t.len() > 0 ==> t[0] != ' ' && t.last() != ' '
    &&& forall|i: int| 0 <= i < t.len() - 1 ==> !(#[trigger] t[i] == ' ' && t[i + 1] == ' ')
}

pub open spec fn spaced_or_alnum(t: Seq<char>) -> bool {
    forall|i: int| 0 <= i < t.len() ==> #[trigger] t[i] == ' ' || is_alnum(t[i])
}

proof fn lemma_squeeze_shape(t: Seq<char>)
    requires
        spaced_or_alnum(t),
    ensures
        is_clean_name(squeeze(t).0),
        squeeze(t).1 ==> squeeze(t).0.len() > 0,
    decreases t.len(),
{
    if t.len() > 0 {
        let p = t.drop_last();
        assert(spaced_or_alnum(p)) by {
            assert forall|i: int| 0 <= i < p.len() implies #[trigger] p[i] == ' ' || is_alnum(p[i]) by {
                assert(p[i] == t[i]);
            }
        }
        lemma_squeeze_shape(p);
        let prev = squeeze(p);
        let c = t.last();
        assert(t[t.len() - 1] == c);
        if c == ' ' {
        } else if prev.1 {
            let o = prev.0.push(' ').push(c);
            assert(o[o.len() - 1] == c);
            assert(o[o.len() - 2] == ' ');
            assert forall|i: int| 0 <= i < o.len() implies #[trigger] o[i] == ' ' || is_alnum(o[i]) by {
                if i < prev.0.len() {
                    assert(o[i] == prev.0[i]);
                }
            }
            assert forall|i: int| 0 <= i < o.len() - 1 implies !(#[trigger] o[i] == ' ' && o[i + 1] == ' ') by {
                if i + 1 < prev.0.len() {
                    assert(o[i] == prev.0[i] && o[i + 1] == prev.0[i + 1]);
                } else if i + 1 == prev.0.len() {
                    assert(o[i] == prev.0.last());
                }
            }
            assert(o[0] == prev.0[0]);
        } else {
            let o = prev.0.push(c);
            assert(o[o.len() - 1] == c);
            assert forall|i: int| 0 <= i < o.len() implies #[trigger] o[i] == ' ' || is_alnum(o[i]) by {
                if i < prev.0.len() {
                    assert(o[i] == prev.0[i]);
                }
            }
            assert forall|i: int| 0 <= i < o.len() - 1 implies !(#[trigger] o[i] == ' ' && o[i + 1] == ' ') by {
                if i + 1 < prev.0.len() {
                    assert(o[i] == prev.0[i] && o[i + 1] == prev.0[i + 1]);
                }
            }
            if prev.0.len() > 0 {
                assert(o[0] == prev.0[0]);
            }
        }
    }
}

/// On a prefix of a clean name, reading leaves the prefix itself, less a
/// trailing space that is then owed.
proof fn lemma_squeeze_prefix(t: Seq<char>, i: int)
    requires
        is_clean_name(t),
        0 <= i <= t.len(),
    ensures
        squeeze(t.take(i)) == (if i > 0 && t[i - 1] == ' ' {
            (t.take(i - 1), true)
        } else {
            (t.take(i), false)
        }),
    decreases i,
{
    if i > 0 {
        lemma_squeeze_prefix(t, i - 1);
        let p = t.take(i);
        assert(p.drop_last() == t.take(i - 1));
        assert(p.last() == t[i - 1]);
        if t[i - 1] == ' ' {
            assert(i - 1 > 0);
            assert(t[i - 2] != ' ');
        } else if i > 1 && t[i - 2] == ' ' {
            assert(t.take(i - 2).push(' ').push(t[i - 1]) == t.take(i));
        } else {
            assert(t.take(i - 1).push(t[i - 1]) == t.take(i));
        }
    } else {
        assert(t.take(0) == Seq::<char>::empty());
    }
}

proof fn lemma_squeeze_clean_fixed(t: Seq<char>)
    requires
        is_clean_name(t),
    ensures
        squeeze(t).0 == t,
{
    lemma_squeeze_prefix(t, t.len() as int);
    assert(t.take(t.len() as int) == t);
}

/// The sanitized form of any title holds only alphanumerics and single
/// spaces, with no space at either end.
pub proof fn lemma_sanitized_is_clean(s: Seq<char>)
    ensures
        is_clean_name(sanitized(s)),
{
    let c = cleaned(s);
    assert forall|i: int| 0 <= i < c.len() implies #[trigger] c[i] == ' ' || is_alnum(c[i]) by {}
    lemma_squeeze_shape(c);
}

/// Sanitizing twice gives what sanitizing once gives.
pub proof fn lemma_sanitize_idempotent(s: Seq<char>)
    ensures
        sanitized(sanitized(s)) == sanitized(s),
{
    let t = sanitized(s);
    lemma_sanitized_is_clean(s);
    assert(cleaned(t) == t);
    lemma_squeeze_clean_fixed(t);
}

/// The characters of `s` other than spaces, in order.
pub open spec fn non_space(s: Seq<char>) -> Seq<char> {
    s.filter(|c: char| c != ' ')
}

proof fn lemma_non_space_push(s: Seq<char>, c: char)
    ensures
        non_space(s.push(c)) == if c == ' ' {
            non_space(s)
        } else {
            non_space(s).push(c)
        },
{
    reveal_with_fuel(Seq::filter, 1);
    assert(s.push(c).drop_last() == s);
}

proof fn lemma_squeeze_keeps(t: Seq<char>)
    ensures
        non_space(squeeze(t).0) == non_space(t),
    decreases t.len(),
{
    reveal_with_fuel(Seq::filter, 1);
    if t.len() > 0 {
        let p = t.drop_last();
        let c = t.last();
        lemma_squeeze_keeps(p);
        assert(p.push(c) == t);
        lemma_non_space_push(p, c);
        let prev = squeeze(p);
        if c != ' ' {
            lemma_non_space_push(prev.0, ' ');
            lemma_non_space_push(prev.0.push(' '), c);
            lemma_non_space_push(prev.0, c);
        }
    }
}

/// Sanitizing drops no character but spaces: the non-space characters of a
/// sanitized title are those of the title with each character that is
/// neither alphanumeric nor a space replaced by a space.
pub proof fn lemma_sanitize_keeps_characters(s: Seq<char>)
    ensures
        non_space(sanitized(s)) == non_space(cleaned(s)),
{
    lemma_squeeze_keeps(cleaned(s));
}

/// Sanitizes a stream title for use in a file name.
pub fn sanitize_filename(filename: &str) -> (r: String)
    ensures
        r@ == sanitized(filename@),
        r@ == join_words(words(cleaned(filename@))),
{
    let n = filename.unicode_len();
    let ghost src = cleaned(filename@);
    let mut out = String::new();
    let mut has_text = false;
    let mut pending = false;
    let mut i: usize = 0;
    while i < n
        invariant
            n == filename@.len(),
            src == cleaned(filename@),
            i <= n,
            (out@, pending) == squeeze(src.take(i as int)),
            has_text == (out@.len() > 0),
        decreases n - i,
    {
        let c = filename.get_char(i);
        let d = if char_is_alphanumeric(c) || c == ' ' {
            c
        } else {
            ' '
        };
        proof {
            assert(src.take(i + 1).drop_last() == src.take(i as int));
            assert(src.take(i + 1).last() == d);
        }
        if d == ' ' {
            pending = has_text;
        } else {
            if pending {
                push_char(&mut out, ' ');
            }
            push_char(&mut out, d);
            pending = false;
            has_text = true;
        }
        i = i + 1;
    }
    proof {
        assert(src.take(n as int) == src);
        lemma_sanitized_is_joined_words(filename@);
    }
    out
}

} // verus!
