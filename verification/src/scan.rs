//! A scanner for brace patterns: a pattern is literal text interspersed with
//! `{}` placeholders, and scanning an input against it yields the text each
//! placeholder covered. A placeholder is lazy: it captures up to the first
//! occurrence of the literal text that follows it, and a trailing placeholder
//! captures the rest of the input. There is no backtracking.

use vstd::prelude::*;
use crate::text::{chars_to_string, contains_seq, find_sub, occurs_at, str_to_chars, subvec, views_of};

verus! {

/// The pattern remainder starts with a placeholder.
pub open spec fn is_hole(p: Seq<char>) -> bool {
    p.len() >= 2 && p[0] == '{' && p[1] == '}'
}

/// The maximal placeholder-free prefix of the pattern remainder.
pub open spec fn lit_chunk(p: Seq<char>) -> Seq<char>
    decreases p.len(),
{
    if p.len() == 0 || is_hole(p) {
        Seq::empty()
    } else {
        seq![p[0]] + lit_chunk(p.drop_first())
    }
}

/// The least position at which `sub` occurs in `s`, if any.
pub open spec fn find_at(s: Seq<char>, sub: Seq<char>) -> Option<int>
    decreases s.len(),
{
    if sub.len() > s.len() {
        None
    } else if s.subrange(0, sub.len() as int) == sub {
        Some(0int)
    } else if s.len() == 0 {
        None
    } else {
        match find_at(s.drop_first(), sub) {
            None => None,
            Some(j) => Some(j + 1),
        }
    }
}

/// `find_at` returns the least occurrence position, and `None` exactly when
/// there is no occurrence.
pub proof fn lemma_find_at(s: Seq<char>, sub: Seq<char>)
    ensures
        match find_at(s, sub) {
            Some(j) => occurs_at(s, sub, j) && forall|k: int| 0 <= k < j ==> !occurs_at(s, sub, k),
            None => !contains_seq(s, sub),
        },
    decreases s.len(),
{
    if sub.len() > s.len() {
        assert forall|k: int| !occurs_at(s, sub, k) by {}
    } else if s.subrange(0, sub.len() as int) == sub {
        assert(occurs_at(s, sub, 0));
    } else if s.len() == 0 {
        assert(s.subrange(0, 0) =~= Seq::<char>::empty());
        assert(sub.len() == 0 ==> s.subrange(0, sub.len() as int) =~= sub);
        assert(false);
    } else {
        let t = s.drop_first();
        lemma_find_at(t, sub);
        assert forall|k: int| 0 <= k && k + 1 + sub.len() <= s.len() implies (occurs_at(
            s,
            sub,
            k + 1,
        ) <==> occurs_at(t, sub, k)) by {
            assert(s.subrange(k + 1, k + 1 + sub.len() as int) =~= t.subrange(
                k,
                k + sub.len() as int,
            ));
        }
        match find_at(t, sub) {
            None => {
                assert forall|k: int| !occurs_at(s, sub, k) by {
                    if occurs_at(s, sub, k) {
                        if k == 0 {
                            assert(s.subrange(0, sub.len() as int) == sub);
                        } else {
                            assert(occurs_at(t, sub, k - 1));
                            assert(contains_seq(t, sub));
                        }
                    }
                }
            },
            Some(j) => {
                assert(occurs_at(s, sub, j + 1));
                assert forall|k: int| 0 <= k < j + 1 implies !occurs_at(s, sub, k) by {
                    if k == 0 {
                        if occurs_at(s, sub, 0) {
                            assert(s.subrange(0, sub.len() as int) == sub);
                        }
                    } else {
                        assert(!occurs_at(t, sub, k - 1));
                    }
                }
            },
        }
    }
}

/// The captures produced by scanning `input` against `pattern`, or `None`
/// when the input does not fit the pattern.
pub open spec fn scan_spec(input: Seq<char>, pattern: Seq<char>) -> Option<Seq<Seq<char>>>
    decreases pattern.len(),
{
    if pattern.len() == 0 {
        if input.len() == 0 {
            Some(Seq::empty())
        } else {
            None
        }
    } else if is_hole(pattern) {
        let rest = pattern.skip(2);
        if rest.len() == 0 {
            Some(seq![input])
        } else {
            match find_at(input, lit_chunk(rest)) {
                None => None,
                Some(j) => match scan_spec(input.skip(j), rest) {
                    None => None,
                    Some(caps) => Some(seq![input.take(j)] + caps),
                },
            }
        }
    } else {
        if input.len() > 0 && input[0] == pattern[0] {
            scan_spec(input.skip(1), pattern.skip(1))
        } else {
            None
        }
    }
}

/// When positions `0..k` of `p` do not start a placeholder and `k` is the
/// pattern's end or starts one, the literal chunk is exactly `p` up to `k`.
proof fn lemma_lit_chunk_upto(p: Seq<char>, k: int)
    requires
        0 <= k <= p.len(),
        forall|i: int| 0 <= i < k ==> !is_hole(#[trigger] p.skip(i)),
        k == p.len() || is_hole(p.skip(k)),
    ensures
        lit_chunk(p) == p.subrange(0, k),
    decreases k,
{
    assert(p.skip(0) =~= p);
    if k == 0 {
        if p.len() > 0 {
            assert(is_hole(p));
        }
        assert(lit_chunk(p) =~= p.subrange(0, 0));
    } else {
        assert(!is_hole(p));
        let t = p.drop_first();
        assert(t =~= p.skip(1));
        assert forall|i: int| 0 <= i < k - 1 implies !is_hole(#[trigger] t.skip(i)) by {
            assert(t.skip(i) =~= p.skip(i + 1));
        }
        if k < p.len() {
            assert(t.skip(k - 1) =~= p.skip(k));
        }
        lemma_lit_chunk_upto(t, k - 1);
        assert(seq![p[0]] + t.subrange(0, k - 1) =~= p.subrange(0, k));
    }
}

/// Prefixing already-taken captures to a pending scan result.
spec fn caps_then(done: Seq<Seq<char>>, o: Option<Seq<Seq<char>>>) -> Option<Seq<Seq<char>>> {
    match o {
        None => None,
        Some(r) => Some(done + r),
    }
}

/// Whether position `j` of `pattern` starts a `{}` placeholder.
fn hole_at(pattern: &Vec<char>, j: usize) -> (b: bool)
    requires
        j <= pattern@.len(),
    ensures
        b == is_hole(pattern@.skip(j as int)),
{
    let m = pattern.len();
    let r = j < m && j + 1 < m && pattern[j] == '{' && pattern[j + 1] == '}';
    proof {
        let rem = pattern@.skip(j as int);
        if j + 1 < m {
            assert(rem[0] == pattern@[j as int]);
            assert(rem[1] == pattern@[j + 1]);
        }
    }
    r
}

/// Scans `input` against `pattern`, yielding the placeholder captures.
pub fn scan_chars(input: &Vec<char>, pattern: &Vec<char>) -> (r: Option<Vec<Vec<char>>>)
    ensures
        match scan_spec(input@, pattern@) {
            Some(caps) => r matches Some(v) && views_of(v@) == caps,
            None => r is None,
        },
{
    let n = input.len();
    let m = pattern.len();
    let mut pos: usize = 0;
    let mut ppos: usize = 0;
    let mut caps: Vec<Vec<char>> = Vec::new();
    proof {
        assert(input@.skip(0) =~= input@);
        assert(pattern@.skip(0) =~= pattern@);
        match scan_spec(input@, pattern@) {
            Some(c) => {
                assert(views_of(caps@) + c =~= c);
            },
            None => {},
        }
    }
    while ppos < m
        invariant
            pos <= n,
            ppos <= m,
            n == input@.len(),
            m == pattern@.len(),
            scan_spec(input@, pattern@) == caps_then(
                views_of(caps@),
                scan_spec(input@.skip(pos as int), pattern@.skip(ppos as int)),
            ),
        decreases m - ppos,
    {
        let ghost inp_rem = input@.skip(pos as int);
        let ghost pat_rem = pattern@.skip(ppos as int);
        let ghost done = views_of(caps@);
        if hole_at(pattern, ppos) {
            proof {
                assert(pat_rem.skip(2) =~= pattern@.skip(ppos + 2));
            }
            if ppos + 2 == m {
                proof {
                    assert(pat_rem.skip(2).len() == 0);
                    assert(scan_spec(inp_rem, pat_rem) == Some(seq![inp_rem]));
                }
                let cap = subvec(input, pos, n);
                proof {
                    assert(input@.subrange(pos as int, n as int) =~= inp_rem);
                }
                caps.push(cap);
                pos = n;
                ppos = m;
                proof {
                    assert(views_of(caps@) =~= done.push(inp_rem));
                    assert(done + seq![inp_rem] =~= done.push(inp_rem));
                    assert(input@.skip(n as int) =~= Seq::<char>::empty());
                    assert(pattern@.skip(m as int) =~= Seq::<char>::empty());
                    assert(scan_spec(input@.skip(pos as int), pattern@.skip(ppos as int))
                        == Some(Seq::<Seq<char>>::empty()));
                    assert(views_of(caps@) + Seq::<Seq<char>>::empty() =~= views_of(caps@));
                }
            } else {
                let ghost rest = pattern@.skip(ppos + 2);
                // locate the end of the literal chunk that follows the hole
                let mut lit_end: usize = ppos + 2;
                while lit_end < m && !hole_at(pattern, lit_end)
                    invariant
                        ppos + 2 <= lit_end <= m,
                        m == pattern@.len(),
                        forall|i: int| ppos + 2 <= i < lit_end ==> !is_hole(
                            #[trigger] pattern@.skip(i),
                        ),
                    decreases m - lit_end,
                {
                    lit_end = lit_end + 1;
                }
                let lit = subvec(pattern, ppos + 2, lit_end);
                proof {
                    assert forall|i: int| 0 <= i < lit_end - (ppos + 2) implies !is_hole(
                        #[trigger] rest.skip(i),
                    ) by {
                        assert(rest.skip(i) =~= pattern@.skip(ppos + 2 + i));
                    }
                    if (lit_end as int) < m {
                        assert(rest.skip(lit_end - (ppos + 2)) =~= pattern@.skip(lit_end as int));
                    }
                    lemma_lit_chunk_upto(rest, lit_end - (ppos + 2));
                    assert(rest.subrange(0, lit_end - (ppos + 2)) =~= pattern@.subrange(
                        ppos + 2,
                        lit_end as int,
                    ));
                    assert(lit@ == lit_chunk(rest));
                }
                let rem = subvec(input, pos, n);
                proof {
                    assert(rem@ =~= inp_rem);
                }
                match find_sub(&rem, &lit) {
                    None => {
                        proof {
                            lemma_find_at(inp_rem, lit@);
                            match find_at(inp_rem, lit@) {
                                Some(k) => {
                                    assert(occurs_at(inp_rem, lit@, k));
                                    assert(contains_seq(inp_rem, lit@));
                                },
                                None => {},
                            }
                            assert(rest.len() > 0);
                            assert(scan_spec(inp_rem, pat_rem) is None);
                        }
                        return None;
                    },
                    Some(j) => {
                        proof {
                            lemma_find_at(inp_rem, lit@);
                            assert(occurs_at(inp_rem, lit@, j as int));
                            match find_at(inp_rem, lit@) {
                                None => {
                                    assert(contains_seq(inp_rem, lit@));
                                },
                                Some(j0) => {
                                    assert(occurs_at(inp_rem, lit@, j0));
                                    assert(j0 == j as int);
                                },
                            }
                        }
                        let cap = subvec(input, pos, pos + j);
                        proof {
                            assert(input@.subrange(pos as int, pos + j) =~= inp_rem.take(j as int));
                        }
                        caps.push(cap);
                        pos = pos + j;
                        ppos = ppos + 2;
                        proof {
                            assert(views_of(caps@) =~= done.push(inp_rem.take(j as int)));
                            assert(inp_rem.skip(j as int) =~= input@.skip(pos as int));
                            assert(pattern@.skip(ppos as int) == rest);
                            let inner = scan_spec(input@.skip(pos as int), rest);
                            match inner {
                                None => {
                                    assert(scan_spec(inp_rem, pat_rem) is None);
                                },
                                Some(c) => {
                                    assert(scan_spec(inp_rem, pat_rem) == Some(
                                        seq![inp_rem.take(j as int)] + c,
                                    ));
                                    assert(done + (seq![inp_rem.take(j as int)] + c) =~= done.push(
                                        inp_rem.take(j as int),
                                    ) + c);
                                },
                            }
                        }
                    },
                }
            }
        } else {
            // literal character in the pattern
            proof {
                assert(pat_rem[0] == pattern@[ppos as int]);
                assert(pat_rem.len() > 0);
            }
            if pos < n && input[pos] == pattern[ppos] {
                proof {
                    assert(inp_rem[0] == input@[pos as int]);
                    assert(inp_rem.skip(1) =~= input@.skip(pos + 1));
                    assert(pat_rem.skip(1) =~= pattern@.skip(ppos + 1));
                }
                pos = pos + 1;
                ppos = ppos + 1;
            } else {
                proof {
                    if pos < n {
                        assert(inp_rem[0] == input@[pos as int]);
                    }
                    assert(scan_spec(inp_rem, pat_rem) is None);
                }
                return None;
            }
        }
    }
    proof {
        assert(pattern@.skip(m as int) =~= Seq::<char>::empty());
    }
    if pos == n {
        proof {
            assert(input@.skip(n as int) =~= Seq::<char>::empty());
            assert(scan_spec(input@.skip(pos as int), pattern@.skip(ppos as int)) == Some(
                Seq::<Seq<char>>::empty(),
            ));
            assert(views_of(caps@) + Seq::<Seq<char>>::empty() =~= views_of(caps@));
        }
        Some(caps)
    } else {
        proof {
            assert(input@.skip(pos as int).len() > 0);
        }
        None
    }
}

/// Scans `input` against the brace pattern `pattern` and returns the text
/// each `{}` placeholder covered, in order; `None` when the input does not
/// fit the pattern.
pub fn parse(input: &str, pattern: &str) -> (r: Option<Vec<String>>)
    ensures
        match scan_spec(input@, pattern@) {
            Some(caps) => r matches Some(v) && v.deep_view() == caps,
            None => r is None,
        },
{
    let ichars = str_to_chars(input);
    let pchars = str_to_chars(pattern);
    match scan_chars(&ichars, &pchars) {
        None => None,
        Some(vs) => {
            let k = vs.len();
            let mut out: Vec<String> = Vec::new();
            let mut i: usize = 0;
            proof {
                assert(out.deep_view() =~= views_of(vs@).subrange(0, 0));
            }
            while i < k
                invariant
                    i <= k,
                    k == vs@.len(),
                    out.deep_view() == views_of(vs@).subrange(0, i as int),
                decreases k - i,
            {
                let ghost done = out.deep_view();
                let s = chars_to_string(&vs[i]);
                out.push(s);
                proof {
                    assert(out.deep_view() =~= done.push(vs@[i as int]@));
                    assert(views_of(vs@).subrange(0, i + 1) =~= done.push(vs@[i as int]@));
                }
                i = i + 1;
            }
            proof {
                assert(views_of(vs@).subrange(0, k as int) =~= views_of(vs@));
            }
            Some(out)
        },
    }
}

} // verus!
