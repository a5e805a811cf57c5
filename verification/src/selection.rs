//! The selection grammar: one line of comma-separated tokens, each a
//! single 1-based number or an inclusive `start-end` range. Invalid
//! tokens — unparseable, zero, or out of range — select nothing. The
//! parser resolves a line to the ascending, de-duplicated list of
//! 0-based indices it selects.

use vstd::prelude::*;
use vstd::string::StrSliceExecFns;
use crate::text::{
    dec_val, find_char, lemma_dec_val_nonneg, lemma_find_char_at, number_token, parse_usize,
    trim_blanks, trimmed,
};

verus! {

/// `input[a .. b]` is one comma-delimited part of `input`: it touches
/// a comma or an end of the line on both sides and contains no comma.
pub open spec fn is_part(input: Seq<char>, a: int, b: int) -> bool {
    &&& 0 <= a <= b <= input.len()
    &&& (a == 0 || input[a - 1] == ',')
    &&& (b == input.len() || input[b] == ',')
    &&& forall|k: int| a <= k < b ==> input[k] != ','
}

/// Whether one trimmed token selects the 1-based position `n` of a
/// list of length `len`. A token with a dash is an inclusive range
/// whose two trimmed endpoints must parse and be at least 1; any
/// other token must itself parse and equal `n`.
pub open spec fn token_selects(tok: Seq<char>, len: int, n: int) -> bool {
    let h = find_char(tok, '-');
    if h >= 0 {
        let lo = trimmed(tok.take(h));
        let hi = trimmed(tok.skip(h + 1));
        &&& number_token(lo)
        &&& number_token(hi)
        &&& dec_val(lo) >= 1
        &&& dec_val(hi) >= 1
        &&& dec_val(lo) <= n <= dec_val(hi)
        &&& 1 <= n <= len
    } else {
        &&& number_token(tok)
        &&& n == dec_val(tok)
        &&& 1 <= n <= len
    }
}

/// Whether the whole line selects the 1-based position `n`: some
/// comma-delimited part of it, once trimmed, selects `n`.
pub open spec fn selects(input: Seq<char>, len: int, n: int) -> bool {
    exists|a: int, b: int|
        is_part(input, a, b) && token_selects(trimmed(input.subrange(a, b)), len, n)
}

/// Two parts whose right ends are ordered `a0 <= b <= b0` coincide:
/// part boundaries are uniquely determined by the commas.
proof fn lemma_part_unique(input: Seq<char>, a0: int, b0: int, a: int, b: int)
    requires
        is_part(input, a0, b0),
        is_part(input, a, b),
        a0 <= b <= b0,
    ensures
        a == a0 && b == b0,
{
    if b < b0 {
        assert(input[b] == ',');
        assert(false);
    }
    if a < a0 {
        assert(input[a0 - 1] == ',');
        assert(false);
    }
    if a > a0 {
        assert(input[a - 1] == ',');
        assert(false);
    }
}

/// Parse one trimmed token and mark every 0-based index it selects.
fn apply_token(marked: &mut Vec<bool>, tok: &str, len: usize)
    requires
        old(marked)@.len() == len,
    ensures
        final(marked)@.len() == len,
        forall|k: int|
            0 <= k < len ==> (final(marked)@[k] <==> (old(marked)@[k] || token_selects(
                tok@,
                len as int,
                k + 1,
            ))),
{
    let m = tok.unicode_len();
    let mut h: usize = 0;
    while h < m && tok.get_char(h) != '-'
        invariant
            m == tok@.len(),
            h <= m,
            forall|k: int| 0 <= k < h ==> tok@[k] != '-',
        decreases m - h,
    {
        h = h + 1;
    }
    proof {
        lemma_find_char_at(tok@, '-', h as int);
    }
    if h < m {
        let lo_str = trim_blanks(tok.substring_char(0, h));
        let hi_str = trim_blanks(tok.substring_char(h + 1, m));
        proof {
            assert(tok@.subrange(0, h as int) =~= tok@.take(h as int));
            assert(tok@.subrange(h + 1, m as int) =~= tok@.skip(h + 1));
            assert(lo_str@ == trimmed(tok@.take(h as int)));
            assert(hi_str@ == trimmed(tok@.skip(h + 1)));
        }
        let pa = parse_usize(lo_str);
        let pb = parse_usize(hi_str);
        match (pa, pb) {
            (Some(a), Some(b)) => {
                proof {
                    lemma_dec_val_nonneg(lo_str@);
                    lemma_dec_val_nonneg(hi_str@);
                    assert(dec_val(lo_str@) == a as int);
                    assert(dec_val(hi_str@) == b as int);
                }
                if a >= 1 && b >= 1 {
                    let cap = if b < len {
                        b
                    } else {
                        len
                    };
                    let mut k: usize = a - 1;
                    while k < cap
                        invariant
                            marked@.len() == len,
                            cap <= len,
                            1 <= a,
                            a - 1 <= k,
                            k <= cap || k == a - 1,
                            forall|j: int|
                                0 <= j < len ==> (marked@[j] <==> (old(marked)@[j] || (a <= j + 1
                                    <= k))),
                        decreases cap - k,
                    {
                        marked[k] = true;
                        k = k + 1;
                    }
                    proof {
                        assert forall|j: int| 0 <= j < len implies (marked@[j] <==> (old(
                            marked,
                        )@[j] || token_selects(tok@, len as int, j + 1))) by {
                            assert(token_selects(tok@, len as int, j + 1) <==> (a <= j + 1 <= cap));
                        }
                    }
                } else {
                    proof {
                        assert forall|nn: int| 1 <= nn <= len implies !token_selects(
                            tok@,
                            len as int,
                            nn,
                        ) by {
                            assert(dec_val(lo_str@) < 1 || dec_val(hi_str@) < 1);
                        }
                    }
                }
            },
            _ => {
                proof {
                    assert forall|nn: int| 1 <= nn <= len implies !token_selects(
                        tok@,
                        len as int,
                        nn,
                    ) by {
                        assert(!number_token(lo_str@) || !number_token(hi_str@));
                    }
                }
            },
        }
    } else {
        let p = parse_usize(tok);
        match p {
            Some(v) => {
                proof {
                    lemma_dec_val_nonneg(tok@);
                    assert(dec_val(tok@) == v as int);
                }
                if v >= 1 && v <= len {
                    marked[v - 1] = true;
                    proof {
                        assert forall|j: int| 0 <= j < len implies (marked@[j] <==> (old(
                            marked,
                        )@[j] || token_selects(tok@, len as int, j + 1))) by {
                            assert(token_selects(tok@, len as int, j + 1) <==> j == v - 1);
                        }
                    }
                } else {
                    proof {
                        assert forall|nn: int| 1 <= nn <= len implies !token_selects(
                            tok@,
                            len as int,
                            nn,
                        ) by {
                            assert(nn == dec_val(tok@) ==> !(1 <= nn <= len));
                        }
                    }
                }
            },
            None => {
                proof {
                    assert forall|nn: int| 1 <= nn <= len implies !token_selects(
                        tok@,
                        len as int,
                        nn,
                    ) by {
                        assert(!number_token(tok@));
                    }
                }
            },
        }
    }
}

/// Resolve a selection line against a list of length `len` to the
/// ascending, de-duplicated 0-based indices it selects.
pub fn parse_selection(input: &str, len: usize) -> (r: Vec<usize>)
    ensures
        forall|i: int, j: int| 0 <= i < j < r@.len() ==> r@[i] < r@[j],
        forall|i: int|
            0 <= i < r@.len() ==> r@[i] < len && selects(input@, len as int, r@[i] + 1),
        forall|n: int|
            1 <= n <= len && #[trigger] selects(input@, len as int, n) ==> r@.contains(
                (n - 1) as usize,
            ),
{
    let n = input.unicode_len();
    let mut marked: Vec<bool> = Vec::new();
    let mut z: usize = 0;
    while z < len
        invariant
            z <= len,
            marked@.len() == z,
            forall|k: int| 0 <= k < z ==> !marked@[k],
        decreases len - z,
    {
        marked.push(false);
        z = z + 1;
    }
    let mut pos: usize = 0;
    loop
        invariant_except_break
            n == input@.len(),
            marked@.len() == len,
            pos <= n,
            pos == 0 || input@[pos - 1] == ',',
            forall|k: int|
                0 <= k < len ==> (marked@[k] <==> exists|a: int, b: int|
                    is_part(input@, a, b) && b < pos && token_selects(
                        trimmed(input@.subrange(a, b)),
                        len as int,
                        k + 1,
                    )),
        ensures
            marked@.len() == len,
            forall|k: int|
                0 <= k < len ==> (marked@[k] <==> selects(input@, len as int, k + 1)),
        decreases n - pos,
    {
        let mut end: usize = pos;
        while end < n && input.get_char(end) != ','
            invariant
                n == input@.len(),
                pos <= end <= n,
                forall|k: int| pos <= k < end ==> input@[k] != ',',
            decreases n - end,
        {
            end = end + 1;
        }
        proof {
            assert(is_part(input@, pos as int, end as int));
        }
        let tok = trim_blanks(input.substring_char(pos, end));
        let ghost pre = marked@;
        apply_token(&mut marked, tok, len);
        proof {
            assert forall|k: int| 0 <= k < len implies (marked@[k] <==> exists|a: int, b: int|
                is_part(input@, a, b) && b < end + 1 && token_selects(
                    trimmed(input@.subrange(a, b)),
                    len as int,
                    k + 1,
                )) by {
                if marked@[k] {
                    if pre[k] {
                        let (a, b) = choose|a: int, b: int|
                            is_part(input@, a, b) && b < pos && token_selects(
                                trimmed(input@.subrange(a, b)),
                                len as int,
                                k + 1,
                            );
                        assert(is_part(input@, a, b) && b < end + 1 && token_selects(
                            trimmed(input@.subrange(a, b)),
                            len as int,
                            k + 1,
                        ));
                    } else {
                        assert(tok@ == trimmed(input@.subrange(pos as int, end as int)));
                        assert(is_part(input@, pos as int, end as int) && end < end + 1
                            && token_selects(
                            trimmed(input@.subrange(pos as int, end as int)),
                            len as int,
                            k + 1,
                        ));
                    }
                } else {
                    if exists|a: int, b: int|
                        is_part(input@, a, b) && b < end + 1 && token_selects(
                            trimmed(input@.subrange(a, b)),
                            len as int,
                            k + 1,
                        ) {
                        let (a, b) = choose|a: int, b: int|
                            is_part(input@, a, b) && b < end + 1 && token_selects(
                                trimmed(input@.subrange(a, b)),
                                len as int,
                                k + 1,
                            );
                        if b < pos {
                            assert(pre[k]);
                        } else {
                            lemma_part_unique(input@, pos as int, end as int, a, b);
                            assert(token_selects(tok@, len as int, k + 1));
                        }
                        assert(false);
                    }
                }
            }
        }
        if end == n {
            proof {
                assert forall|k: int| 0 <= k < len implies (marked@[k] <==> selects(
                    input@,
                    len as int,
                    k + 1,
                )) by {
                    if marked@[k] {
                        let (a, b) = choose|a: int, b: int|
                            is_part(input@, a, b) && b < end + 1 && token_selects(
                                trimmed(input@.subrange(a, b)),
                                len as int,
                                k + 1,
                            );
                        assert(selects(input@, len as int, k + 1));
                    }
                    if selects(input@, len as int, k + 1) {
                        let (a, b) = choose|a: int, b: int|
                            is_part(input@, a, b) && token_selects(
                                trimmed(input@.subrange(a, b)),
                                len as int,
                                k + 1,
                            );
                        assert(b <= n < end + 1);
                    }
                }
            }
            break ;
        }
        pos = end + 1;
    }
    let mut r: Vec<usize> = Vec::new();
    let mut k: usize = 0;
    while k < len
        invariant
            marked@.len() == len,
            k <= len,
            forall|i: int, j: int| 0 <= i < j < r@.len() ==> r@[i] < r@[j],
            forall|i: int| 0 <= i < r@.len() ==> r@[i] < k,
            forall|i: int| 0 <= i < r@.len() ==> marked@[r@[i] as int],
            forall|j: int| 0 <= j < k && marked@[j] ==> r@.contains(j as usize),
            forall|j: int|
                0 <= j < len ==> (marked@[j] <==> selects(input@, len as int, j + 1)),
        decreases len - k,
    {
        if marked[k] {
            let ghost prev = r@;
            r.push(k);
            proof {
                assert forall|j: int| 0 <= j < k + 1 && marked@[j] implies r@.contains(j as usize) by {
                    if j < k {
                        let i = choose|i: int| 0 <= i < prev.len() && prev[i] == j as usize;
                        assert(r@[i] == j as usize);
                    } else {
                        assert(r@[r@.len() - 1] == j as usize);
                    }
                }
            }
        }
        k = k + 1;
    }
    proof {
        assert forall|n: int| 1 <= n <= len && #[trigger] selects(input@, len as int, n) implies r@
            .contains((n - 1) as usize) by {
            let j = n - 1;
            assert(selects(input@, len as int, j + 1));
            assert(marked@[j]);
            assert(r@.contains(j as usize));
        }
    }
    r
}

} // verus!
