//! Character-level text utilities: the whitespace model, whitespace
//! normalization, and conversions between `&str`, `String` and `Vec<char>`.

use vstd::prelude::*;
use vstd::string::*;

verus! {

/// A whitespace character: the Unicode `White_Space` set, i.e. exactly the
/// characters that `char::is_whitespace` recognizes.
pub open spec fn is_ws(c: char) -> bool {
    ||| c == ' '
    ||| c == '\t'
    ||| c == '\n'
    ||| c == '\u{b}'
    ||| c == '\u{c}'
    ||| c == '\r'
    ||| c == '\u{85}'
    ||| c == '\u{a0}'
    ||| c == '\u{1680}'
    ||| c == '\u{2000}'
    ||| c == '\u{2001}'
    ||| c == '\u{2002}'
    ||| c == '\u{2003}'
    ||| c == '\u{2004}'
    ||| c == '\u{2005}'
    ||| c == '\u{2006}'
    ||| c == '\u{2007}'
    ||| c == '\u{2008}'
    ||| c == '\u{2009}'
    ||| c == '\u{200a}'
    ||| c == '\u{2028}'
    ||| c == '\u{2029}'
    ||| c == '\u{202f}'
    ||| c == '\u{205f}'
    ||| c == '\u{3000}'
}

/// Decides `is_ws`.
pub fn is_ws_char(c: char) -> (b: bool)
    ensures
        b == is_ws(c),
{
    c == ' ' || c == '\t' || c == '\n' || c == '\u{b}' || c == '\u{c}' || c == '\r'
        || c == '\u{85}' || c == '\u{a0}' || c == '\u{1680}' || c == '\u{2000}' || c == '\u{2001}'
        || c == '\u{2002}' || c == '\u{2003}' || c == '\u{2004}' || c == '\u{2005}'
        || c == '\u{2006}' || c == '\u{2007}' || c == '\u{2008}' || c == '\u{2009}'
        || c == '\u{200a}' || c == '\u{2028}' || c == '\u{2029}' || c == '\u{202f}'
        || c == '\u{205f}' || c == '\u{3000}'
}

/// Whitespace reduction of the remainder `s`, where `prev_ws` records whether
/// the character just before `s` was whitespace (in which case a leading
/// whitespace run of `s` belongs to an already-collapsed run).
pub open spec fn reduce_ws_from(s: Seq<char>, prev_ws: bool) -> Seq<char>
    decreases s.len(),
{
    if s.len() == 0 {
        Seq::empty()
    } else if is_ws(s[0]) {
        if prev_ws {
            reduce_ws_from(s.drop_first(), true)
        } else {
            seq![' '] + reduce_ws_from(s.drop_first(), true)
        }
    } else {
        seq![s[0]] + reduce_ws_from(s.drop_first(), false)
    }
}

/// Every maximal run of whitespace characters collapsed to one space; all
/// other characters pass through unchanged.
pub open spec fn reduce_ws(s: Seq<char>) -> Seq<char> {
    reduce_ws_from(s, false)
}

/// A sequence in whitespace normal form: every whitespace character in it is
/// the space character, and no two consecutive characters are whitespace.
pub open spec fn ws_normalized(t: Seq<char>) -> bool {
    &&& forall|i: int| 0 <= i < t.len() && is_ws(#[trigger] t[i]) ==> t[i] == ' '
    &&& forall|i: int| 0 <= i < t.len() - 1 ==> !(is_ws(#[trigger] t[i]) && is_ws(t[i + 1]))
}

/// Whitespace reduction always produces a sequence in whitespace normal form,
/// and with `prev_ws` set it never emits a leading whitespace character.
proof fn lemma_reduce_shape(s: Seq<char>, prev: bool)
    ensures
        ws_normalized(reduce_ws_from(s, prev)),
        prev && reduce_ws_from(s, prev).len() > 0 ==> !is_ws(reduce_ws_from(s, prev)[0]),
    decreases s.len(),
{
    if s.len() == 0 {
    } else {
        let rest = s.drop_first();
        let out = reduce_ws_from(s, prev);
        if is_ws(s[0]) {
            lemma_reduce_shape(rest, true);
            if !prev {
                let tail = reduce_ws_from(rest, true);
                assert(out == seq![' '] + tail);
                assert forall|i: int| 0 <= i < out.len() && is_ws(#[trigger] out[i]) implies out[i]
                    == ' ' by {
                    if i > 0 {
                        assert(out[i] == tail[i - 1]);
                    }
                }
                assert forall|i: int| 0 <= i < out.len() - 1 implies !(is_ws(#[trigger] out[i])
                    && is_ws(out[i + 1])) by {
                    if i == 0 {
                        assert(out[1] == tail[0]);
                    } else {
                        assert(out[i] == tail[i - 1]);
                        assert(out[i + 1] == tail[i]);
                    }
                }
            }
        } else {
            lemma_reduce_shape(rest, false);
            let tail = reduce_ws_from(rest, false);
            assert(out == seq![s[0]] + tail);
            assert forall|i: int| 0 <= i < out.len() && is_ws(#[trigger] out[i]) implies out[i]
                == ' ' by {
                if i > 0 {
                    assert(out[i] == tail[i - 1]);
                }
            }
            assert forall|i: int| 0 <= i < out.len() - 1 implies !(is_ws(#[trigger] out[i])
                && is_ws(out[i + 1])) by {
                if i == 0 {
                    assert(out[1] == tail[0]);
                } else {
                    assert(out[i] == tail[i - 1]);
                    assert(out[i + 1] == tail[i]);
                }
            }
        }
    }
}

/// A sequence already in whitespace normal form is a fixed point of
/// whitespace reduction.
proof fn lemma_reduce_fix(t: Seq<char>, prev: bool)
    requires
        ws_normalized(t),
        prev ==> t.len() == 0 || !is_ws(t[0]),
    ensures
        reduce_ws_from(t, prev) == t,
    decreases t.len(),
{
    if t.len() == 0 {
        assert(reduce_ws_from(t, prev) =~= t);
    } else {
        let rest = t.drop_first();
        assert forall|i: int| 0 <= i < rest.len() && is_ws(#[trigger] rest[i]) implies rest[i]
            == ' ' by {
            assert(rest[i] == t[i + 1]);
        }
        assert forall|i: int| 0 <= i < rest.len() - 1 implies !(is_ws(#[trigger] rest[i])
            && is_ws(rest[i + 1])) by {
            assert(rest[i] == t[i + 1]);
            assert(rest[i + 1] == t[i + 2]);
        }
        if is_ws(t[0]) {
            assert(t[0] == ' ');
            if rest.len() > 0 {
                assert(!(is_ws(t[0]) && is_ws(t[1])));
                assert(rest[0] == t[1]);
            }
            lemma_reduce_fix(rest, true);
            assert(reduce_ws_from(t, prev) == seq![' '] + rest);
            assert(seq![' '] + rest =~= t);
        } else {
            lemma_reduce_fix(rest, false);
            assert(reduce_ws_from(t, prev) == seq![t[0]] + rest);
            assert(seq![t[0]] + rest =~= t);
        }
    }
}

/// Law: whitespace reduction is idempotent, and its output is in whitespace
/// normal form — in particular it never contains two consecutive space
/// characters.
pub proof fn lemma_reduce_ws_idempotent(s: Seq<char>)
    ensures
        reduce_ws(reduce_ws(s)) == reduce_ws(s),
        ws_normalized(reduce_ws(s)),
{
    lemma_reduce_shape(s, false);
    lemma_reduce_fix(reduce_ws(s), false);
}

/// The characters of `s`, in order, as a vector.
pub fn str_to_chars(s: &str) -> (v: Vec<char>)
    ensures
        v@ == s@,
{
    let n = s.unicode_len();
    let mut v: Vec<char> = Vec::new();
    let mut i: usize = 0;
    while i < n
        invariant
            i <= n,
            n == s@.len(),
            v@ == s@.take(i as int),
        decreases n - i,
    {
        v.push(s.get_char(i));
        proof {
            assert(s@.take(i + 1 as int) =~= s@.take(i as int).push(s@[i as int]));
        }
        i = i + 1;
    }
    proof {
        assert(s@.take(n as int) =~= s@);
    }
    v
}

/// Relies on `String`'s `FromIterator<char>` implementation: collecting the
/// characters of a vector yields a string whose character sequence is exactly
/// that vector.
#[verifier::external_body]
pub fn chars_to_string(v: &Vec<char>) -> (s: String)
    ensures
        s@ == v@,
{
    v.iter().collect()
}

/// Whitespace reduction on a character vector.
pub fn reduce_ws_chars(s: &Vec<char>) -> (r: Vec<char>)
    ensures
        r@ == reduce_ws(s@),
{
    let n = s.len();
    let mut out: Vec<char> = Vec::new();
    let mut prev: bool = false;
    let mut i: usize = 0;
    proof {
        assert(s@.skip(0) =~= s@);
        assert(Seq::<char>::empty() + reduce_ws_from(s@, false) =~= reduce_ws_from(s@, false));
    }
    while i < n
        invariant
            i <= n,
            n == s@.len(),
            reduce_ws(s@) == out@ + reduce_ws_from(s@.skip(i as int), prev),
        decreases n - i,
    {
        let ghost pre = s@.skip(i as int);
        let ghost out0 = out@;
        let ghost prev0 = prev;
        let c = s[i];
        proof {
            assert(pre.drop_first() =~= s@.skip(i + 1));
            assert(pre[0] == s@[i as int]);
        }
        if is_ws_char(c) {
            if !prev {
                out.push(' ');
            }
            prev = true;
        } else {
            out.push(c);
            prev = false;
        }
        i = i + 1;
        proof {
            let rest = reduce_ws_from(s@.skip(i as int), prev);
            if is_ws(pre[0]) {
                if prev0 {
                    assert(reduce_ws_from(pre, prev0) == rest);
                } else {
                    assert(reduce_ws_from(pre, prev0) == seq![' '] + rest);
                    assert(out0 + (seq![' '] + rest) =~= out@ + rest);
                }
            } else {
                assert(reduce_ws_from(pre, prev0) == seq![pre[0]] + rest);
                assert(out0 + (seq![pre[0]] + rest) =~= out@ + rest);
            }
        }
    }
    proof {
        assert(s@.skip(n as int) =~= Seq::<char>::empty());
        assert(out@ + reduce_ws_from(Seq::<char>::empty(), prev) =~= out@);
    }
    out
}

/// Replaces every maximal run of whitespace characters in `s` with a single
/// space character; all other characters pass through unchanged.
pub fn reduce_whitespace(s: &str) -> (r: String)
    ensures
        r@ == reduce_ws(s@),
{
    let chars = str_to_chars(s);
    let reduced = reduce_ws_chars(&chars);
    chars_to_string(&reduced)
}

/// The views of a sequence of character vectors.
pub open spec fn views_of(vs: Seq<Vec<char>>) -> Seq<Seq<char>> {
    vs.map_values(|v: Vec<char>| v@)
}

/// A nonempty accumulated chunk as a singleton, an empty one as nothing.
pub open spec fn wrap_chunk(cur: Seq<char>) -> Seq<Seq<char>> {
    if cur.len() > 0 {
        seq![cur]
    } else {
        Seq::empty()
    }
}

/// The whitespace-delimited tokens of the remainder `s`, with `cur` the
/// partial token accumulated so far.
pub open spec fn split_ws_from(s: Seq<char>, cur: Seq<char>) -> Seq<Seq<char>>
    decreases s.len(),
{
    if s.len() == 0 {
        wrap_chunk(cur)
    } else if is_ws(s[0]) {
        wrap_chunk(cur) + split_ws_from(s.drop_first(), Seq::empty())
    } else {
        split_ws_from(s.drop_first(), cur.push(s[0]))
    }
}

/// The maximal whitespace-free tokens of `s`, in order.
pub open spec fn ws_tokens(s: Seq<char>) -> Seq<Seq<char>> {
    split_ws_from(s, Seq::empty())
}

/// The newline-delimited nonempty lines of the remainder `s`, with `cur` the
/// partial line accumulated so far.
pub open spec fn split_nl_from(s: Seq<char>, cur: Seq<char>) -> Seq<Seq<char>>
    decreases s.len(),
{
    if s.len() == 0 {
        wrap_chunk(cur)
    } else if s[0] == '\n' {
        wrap_chunk(cur) + split_nl_from(s.drop_first(), Seq::empty())
    } else {
        split_nl_from(s.drop_first(), cur.push(s[0]))
    }
}

/// The nonempty lines of `s`: split on newline, empty lines discarded,
/// order preserved.
pub open spec fn nl_lines(s: Seq<char>) -> Seq<Seq<char>> {
    split_nl_from(s, Seq::empty())
}

/// The whitespace-delimited tokens of `s`.
pub fn tokens_of(s: &Vec<char>) -> (r: Vec<Vec<char>>)
    ensures
        views_of(r@) == ws_tokens(s@),
{
    let n = s.len();
    let mut out: Vec<Vec<char>> = Vec::new();
    let mut cur: Vec<char> = Vec::new();
    let mut i: usize = 0;
    proof {
        assert(s@.skip(0) =~= s@);
        assert(views_of(out@) + split_ws_from(s@, cur@) =~= split_ws_from(s@, cur@));
    }
    while i < n
        invariant
            i <= n,
            n == s@.len(),
            ws_tokens(s@) == views_of(out@) + split_ws_from(s@.skip(i as int), cur@),
        decreases n - i,
    {
        let ghost pre = s@.skip(i as int);
        let ghost out0 = views_of(out@);
        let ghost cur0 = cur@;
        let c = s[i];
        proof {
            assert(pre.drop_first() =~= s@.skip(i + 1));
            assert(pre[0] == s@[i as int]);
        }
        if is_ws_char(c) {
            if cur.len() > 0 {
                out.push(cur);
                cur = Vec::new();
                proof {
                    assert(views_of(out@) =~= out0.push(cur0));
                    assert(out0 + (seq![cur0] + split_ws_from(pre.drop_first(), Seq::empty()))
                        =~= out0.push(cur0) + split_ws_from(pre.drop_first(), Seq::empty()));
                }
            } else {
                proof {
                    assert(cur@ =~= Seq::<char>::empty());
                    assert(wrap_chunk(cur0) + split_ws_from(pre.drop_first(), Seq::empty())
                        =~= split_ws_from(pre.drop_first(), Seq::empty()));
                }
            }
        } else {
            cur.push(c);
        }
        i = i + 1;
    }
    proof {
        assert(s@.skip(n as int) =~= Seq::<char>::empty());
    }
    if cur.len() > 0 {
        let ghost out0 = views_of(out@);
        let ghost cur0 = cur@;
        out.push(cur);
        proof {
            assert(views_of(out@) =~= out0.push(cur0));
            assert(out0 + wrap_chunk(cur0) =~= out0.push(cur0));
        }
    } else {
        proof {
            assert(views_of(out@) + wrap_chunk(cur@) =~= views_of(out@));
        }
    }
    out
}

/// `sub` occurs in `s` starting at position `i`.
pub open spec fn occurs_at(s: Seq<char>, sub: Seq<char>, i: int) -> bool {
    0 <= i && i + sub.len() <= s.len() && s.subrange(i, i + sub.len() as int) == sub
}

/// `sub` occurs somewhere in `s`.
pub open spec fn contains_seq(s: Seq<char>, sub: Seq<char>) -> bool {
    exists|i: int| occurs_at(s, sub, i)
}

/// `s` begins with `p`.
pub open spec fn begins_with(s: Seq<char>, p: Seq<char>) -> bool {
    occurs_at(s, p, 0)
}

/// Whether the characters of `a` and `b` are equal.
pub fn eq_chars(a: &Vec<char>, b: &Vec<char>) -> (r: bool)
    ensures
        r == (a@ == b@),
{
    if a.len() != b.len() {
        return false;
    }
    let n = a.len();
    let mut i: usize = 0;
    while i < n
        invariant
            i <= n,
            n == a@.len() == b@.len(),
            forall|j: int| 0 <= j < i ==> a@[j] == b@[j],
        decreases n - i,
    {
        if a[i] != b[i] {
            return false;
        }
        i = i + 1;
    }
    proof {
        assert(a@ =~= b@);
    }
    true
}

/// Whether `sub` occurs at position `i` of `s`; `i + sub.len()` must not
/// exceed `s.len()`.
fn matches_at(s: &Vec<char>, sub: &Vec<char>, i: usize) -> (r: bool)
    requires
        i + sub@.len() <= s@.len(),
    ensures
        r == occurs_at(s@, sub@, i as int),
{
    let n = s.len();
    let m = sub.len();
    let mut j: usize = 0;
    while j < m
        invariant
            j <= m,
            n == s@.len(),
            m == sub@.len(),
            i + m <= n,
            forall|k: int| 0 <= k < j ==> s@[i + k] == sub@[k],
        decreases m - j,
    {
        if s[i + j] != sub[j] {
            proof {
                assert(s@.subrange(i as int, i + m) != sub@) by {
                    assert(s@.subrange(i as int, i + m)[j as int] == s@[i + j]);
                }
            }
            return false;
        }
        j = j + 1;
    }
    proof {
        assert(s@.subrange(i as int, i + m) =~= sub@);
    }
    true
}

/// The least position at which `sub` occurs in `s`, if any.
pub fn find_sub(s: &Vec<char>, sub: &Vec<char>) -> (r: Option<usize>)
    ensures
        match r {
            Some(i) => occurs_at(s@, sub@, i as int) && forall|j: int|
                0 <= j < i ==> !occurs_at(s@, sub@, j),
            None => !contains_seq(s@, sub@),
        },
{
    let n = s.len();
    let m = sub.len();
    if m > n {
        return None;
    }
    if m == 0 {
        proof {
            assert(s@.subrange(0, 0) =~= sub@);
        }
        return Some(0);
    }
    let mut i: usize = 0;
    while i <= n - m
        invariant
            1 <= m <= n,
            n == s@.len(),
            m == sub@.len(),
            i <= n - m + 1,
            forall|j: int| 0 <= j < i ==> !occurs_at(s@, sub@, j),
        decreases n - i,
    {
        if matches_at(s, sub, i) {
            return Some(i);
        }
        i = i + 1;
    }
    proof {
        assert forall|j: int| !occurs_at(s@, sub@, j) by {
            if occurs_at(s@, sub@, j) {
                assert(0 <= j <= n - m);
            }
        }
    }
    None
}

/// Whether `sub` occurs somewhere in `s`.
pub fn contains_exec(s: &Vec<char>, sub: &Vec<char>) -> (r: bool)
    ensures
        r == contains_seq(s@, sub@),
{
    match find_sub(s, sub) {
        Some(_) => true,
        None => false,
    }
}

/// Whether `s` begins with `p`.
pub fn has_prefix(s: &Vec<char>, p: &Vec<char>) -> (r: bool)
    ensures
        r == begins_with(s@, p@),
{
    if p.len() > s.len() {
        proof {
            assert(!occurs_at(s@, p@, 0));
        }
        return false;
    }
    matches_at(s, p, 0)
}

/// The characters of `s` from `from` (inclusive) to `to` (exclusive).
pub fn subvec(s: &Vec<char>, from: usize, to: usize) -> (r: Vec<char>)
    requires
        from <= to <= s@.len(),
    ensures
        r@ == s@.subrange(from as int, to as int),
{
    let mut r: Vec<char> = Vec::new();
    let mut i: usize = from;
    while i < to
        invariant
            from <= i <= to <= s@.len(),
            r@ == s@.subrange(from as int, i as int),
        decreases to - i,
    {
        r.push(s[i]);
        proof {
            assert(s@.subrange(from as int, i + 1) =~= s@.subrange(from as int, i as int).push(
                s@[i as int],
            ));
        }
        i = i + 1;
    }
    r
}

/// Appends a copy of `src` to `dst`.
pub fn extend_chars(dst: &mut Vec<char>, src: &Vec<char>)
    ensures
        final(dst)@ == old(dst)@ + src@,
{
    let n = src.len();
    let mut i: usize = 0;
    proof {
        assert(dst@ =~= dst@ + src@.subrange(0, 0));
    }
    while i < n
        invariant
            i <= n,
            n == src@.len(),
            dst@ == old(dst)@ + src@.subrange(0, i as int),
        decreases n - i,
    {
        dst.push(src[i]);
        proof {
            assert(old(dst)@ + src@.subrange(0, i + 1) =~= (old(dst)@ + src@.subrange(
                0,
                i as int,
            )).push(src@[i as int]));
        }
        i = i + 1;
    }
    proof {
        assert(src@.subrange(0, n as int) =~= src@);
    }
}

/// The suffix of `s` after the last occurrence of `sep`; `s` itself when
/// `sep` does not occur.
pub open spec fn after_last(s: Seq<char>, sep: char) -> Seq<char>
    decreases s.len(),
{
    if s.len() == 0 {
        s
    } else if s.last() == sep {
        Seq::empty()
    } else {
        after_last(s.drop_last(), sep).push(s.last())
    }
}

/// When `sep` occurs last at position `k`, `after_last` is the suffix
/// beyond `k`.
proof fn lemma_after_last_at(s: Seq<char>, sep: char, k: int)
    requires
        0 <= k < s.len(),
        s[k] == sep,
        forall|j: int| k < j < s.len() ==> s[j] != sep,
    ensures
        after_last(s, sep) == s.subrange(k + 1, s.len() as int),
    decreases s.len(),
{
    if k == s.len() - 1 {
        assert(after_last(s, sep) =~= s.subrange(k + 1, s.len() as int));
    } else {
        let head = s.drop_last();
        assert forall|j: int| k < j < head.len() implies head[j] != sep by {
            assert(head[j] == s[j]);
        }
        assert(head[k] == s[k]);
        lemma_after_last_at(head, sep, k);
        assert(after_last(s, sep) == head.subrange(k + 1, head.len() as int).push(s.last()));
        assert(head.subrange(k + 1, head.len() as int).push(s.last()) =~= s.subrange(
            k + 1,
            s.len() as int,
        ));
    }
}

/// When `sep` does not occur in `s`, `after_last` is `s` itself.
proof fn lemma_after_last_absent(s: Seq<char>, sep: char)
    requires
        forall|j: int| 0 <= j < s.len() ==> s[j] != sep,
    ensures
        after_last(s, sep) == s,
    decreases s.len(),
{
    if s.len() == 0 {
    } else {
        let head = s.drop_last();
        assert forall|j: int| 0 <= j < head.len() implies head[j] != sep by {
            assert(head[j] == s[j]);
        }
        lemma_after_last_absent(head, sep);
        assert(head.push(s.last()) =~= s);
    }
}

/// The suffix of `s` after its last occurrence of `sep`.
pub fn after_last_sep(s: &Vec<char>, sep: char) -> (r: Vec<char>)
    ensures
        r@ == after_last(s@, sep),
{
    let n = s.len();
    let mut i: usize = n;
    while i > 0
        invariant
            i <= n,
            n == s@.len(),
            forall|j: int| i <= j < n ==> s@[j] != sep,
        decreases i,
    {
        if s[i - 1] == sep {
            let r = subvec(s, i, n);
            proof {
                lemma_after_last_at(s@, sep, i - 1);
            }
            return r;
        }
        i = i - 1;
    }
    let r = subvec(s, 0, n);
    proof {
        lemma_after_last_absent(s@, sep);
        assert(s@.subrange(0, n as int) =~= s@);
    }
    r
}

/// The parts joined with a single space between consecutive parts.
pub open spec fn join_sp(parts: Seq<Seq<char>>) -> Seq<char>
    decreases parts.len(),
{
    if parts.len() == 0 {
        Seq::empty()
    } else if parts.len() == 1 {
        parts[0]
    } else {
        parts[0] + seq![' '] + join_sp(parts.drop_first())
    }
}

/// `join_sp` over a sequence extended on the right.
proof fn lemma_join_push(parts: Seq<Seq<char>>, x: Seq<char>)
    ensures
        join_sp(parts.push(x)) == if parts.len() == 0 {
            x
        } else {
            join_sp(parts) + seq![' '] + x
        },
    decreases parts.len(),
{
    if parts.len() == 0 {
        assert(parts.push(x)[0] == x);
    } else if parts.len() == 1 {
        assert(parts.push(x).drop_first() =~= parts.drop_first().push(x));
        lemma_join_push(parts.drop_first(), x);
        assert(parts.push(x)[0] == parts[0]);
    } else {
        assert(parts.push(x).drop_first() =~= parts.drop_first().push(x));
        lemma_join_push(parts.drop_first(), x);
        assert(parts.push(x)[0] == parts[0]);
        assert(parts[0] + seq![' '] + (join_sp(parts.drop_first()) + seq![' '] + x) =~= (parts[0]
            + seq![' '] + join_sp(parts.drop_first())) + seq![' '] + x);
    }
}

/// The tokens of `toks` from index `lo` on, joined with single spaces.
pub fn join_tokens_from(toks: &Vec<Vec<char>>, lo: usize) -> (r: Vec<char>)
    requires
        lo <= toks@.len(),
    ensures
        r@ == join_sp(views_of(toks@).skip(lo as int)),
{
    let n = toks.len();
    let mut r: Vec<char> = Vec::new();
    let mut i: usize = lo;
    proof {
        assert(views_of(toks@).skip(lo as int).subrange(0, 0) =~= Seq::<Seq<char>>::empty());
    }
    while i < n
        invariant
            lo <= i <= n,
            n == toks@.len(),
            r@ == join_sp(views_of(toks@).skip(lo as int).subrange(0, i - lo)),
        decreases n - i,
    {
        let ghost done = views_of(toks@).skip(lo as int).subrange(0, i - lo);
        if i > lo {
            r.push(' ');
        }
        extend_chars(&mut r, &toks[i]);
        proof {
            let all = views_of(toks@).skip(lo as int);
            assert(all.subrange(0, i - lo + 1) =~= done.push(all[i - lo]));
            assert(all[i - lo] == toks@[i as int]@);
            lemma_join_push(done, toks@[i as int]@);
            if i > lo {
                assert(done.len() > 0);
                assert(r@ =~= join_sp(done) + seq![' '] + toks@[i as int]@);
            } else {
                assert(done.len() == 0);
                assert(r@ =~= toks@[i as int]@);
            }
        }
        i = i + 1;
    }
    proof {
        let all = views_of(toks@).skip(lo as int);
        assert(all.subrange(0, n - lo) =~= all);
    }
    r
}

/// The nonempty newline-separated lines of `s`.
pub fn lines_of(s: &Vec<char>) -> (r: Vec<Vec<char>>)
    ensures
        views_of(r@) == nl_lines(s@),
{
    let n = s.len();
    let mut out: Vec<Vec<char>> = Vec::new();
    let mut cur: Vec<char> = Vec::new();
    let mut i: usize = 0;
    proof {
        assert(s@.skip(0) =~= s@);
        assert(views_of(out@) + split_nl_from(s@, cur@) =~= split_nl_from(s@, cur@));
    }
    while i < n
        invariant
            i <= n,
            n == s@.len(),
            nl_lines(s@) == views_of(out@) + split_nl_from(s@.skip(i as int), cur@),
        decreases n - i,
    {
        let ghost pre = s@.skip(i as int);
        let ghost out0 = views_of(out@);
        let ghost cur0 = cur@;
        let c = s[i];
        proof {
            assert(pre.drop_first() =~= s@.skip(i + 1));
            assert(pre[0] == s@[i as int]);
        }
        if c == '\n' {
            if cur.len() > 0 {
                out.push(cur);
                cur = Vec::new();
                proof {
                    assert(views_of(out@) =~= out0.push(cur0));
                    assert(out0 + (seq![cur0] + split_nl_from(pre.drop_first(), Seq::empty()))
                        =~= out0.push(cur0) + split_nl_from(pre.drop_first(), Seq::empty()));
                }
            } else {
                proof {
                    assert(cur@ =~= Seq::<char>::empty());
                    assert(wrap_chunk(cur0) + split_nl_from(pre.drop_first(), Seq::empty())
                        =~= split_nl_from(pre.drop_first(), Seq::empty()));
                }
            }
        } else {
            cur.push(c);
        }
        i = i + 1;
    }
    proof {
        assert(s@.skip(n as int) =~= Seq::<char>::empty());
    }
    if cur.len() > 0 {
        let ghost out0 = views_of(out@);
        let ghost cur0 = cur@;
        out.push(cur);
        proof {
            assert(views_of(out@) =~= out0.push(cur0));
            assert(out0 + wrap_chunk(cur0) =~= out0.push(cur0));
        }
    } else {
        proof {
            assert(views_of(out@) + wrap_chunk(cur@) =~= views_of(out@));
        }
    }
    out
}

} // verus!
