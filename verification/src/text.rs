//! Character-sequence helpers shared by the task types and the predicate
//! language: ASCII case folding and substring containment.

use vstd::prelude::*;

verus! {

/// `c` with an ASCII upper-case letter folded to lower case; any other
/// character is unchanged.
pub open spec fn spec_lower_char(c: char) -> char {
    if 65 <= c as u32 && c as u32 <= 90 {
        ((c as u32 + 32) as u8) as char
    } else {
        c
    }
}

/// `s` with every ASCII upper-case letter folded to lower case.
pub open spec fn lower_seq(s: Seq<char>) -> Seq<char> {
    s.map_values(|c: char| spec_lower_char(c))
}

/// `n` occurs in `h` as a contiguous subsequence.
pub open spec fn seq_contains(h: Seq<char>, n: Seq<char>) -> bool {
    exists|i: int|
        0 <= i && i + n.len() <= h.len() && #[trigger] h.subrange(i, i + n.len() as int) == n
}

pub fn lower_char(c: char) -> (r: char)
    ensures
        r == spec_lower_char(c),
{
    let u = c as u32;
    if 65 <= u && u <= 90 {
        ((u + 32) as u8) as char
    } else {
        c
    }
}

/// Whether `s`, case-folded, is exactly `t` (which callers pass already in
/// lower case).
pub fn lower_matches(s: &str, t: &str) -> (r: bool)
    ensures
        r == (lower_seq(s@) == t@),
{
    let n = s.unicode_len();
    if n != t.unicode_len() {
        proof {
            assert(lower_seq(s@).len() == s@.len());
        }
        return false;
    }
    let mut i: usize = 0;
    while i < n
        invariant
            n == s@.len() && n == t@.len(),
            0 <= i <= n,
            forall|j: int| 0 <= j < i ==> lower_seq(s@)[j] == t@[j],
        decreases n - i,
    {
        if lower_char(s.get_char(i)) != t.get_char(i) {
            proof {
                assert(lower_seq(s@)[i as int] != t@[i as int]);
            }
            return false;
        }
        i += 1;
    }
    proof {
        assert(lower_seq(s@) =~= t@);
    }
    true
}

/// Whether `a` and `b` hold the same characters.
pub fn str_eq(a: &str, b: &str) -> (r: bool)
    ensures
        r == (a@ == b@),
{
    let n = a.unicode_len();
    if n != b.unicode_len() {
        return false;
    }
    let mut i: usize = 0;
    while i < n
        invariant
            n == a@.len() && n == b@.len(),
            0 <= i <= n,
            forall|j: int| 0 <= j < i ==> a@[j] == b@[j],
        decreases n - i,
    {
        if a.get_char(i) != b.get_char(i) {
            return false;
        }
        i += 1;
    }
    proof {
        assert(a@ =~= b@);
    }
    true
}

/// Whether the characters of `n` occur contiguously within `h`.
pub fn str_contains(h: &str, n: &str) -> (r: bool)
    ensures
        r == seq_contains(h@, n@),
{
    let hn = h.unicode_len();
    let nn = n.unicode_len();
    if nn > hn {
        proof {
            assert(forall|i: int|
                0 <= i && i + n@.len() <= h@.len() ==> #[trigger] h@.subrange(
                    i,
                    i + n@.len() as int,
                ).len() == n@.len());
        }
        return false;
    }
    let mut i: usize = 0;
    loop
        invariant
            nn == n@.len() && hn == h@.len(),
            nn <= hn,
            0 <= i <= hn - nn + 1,
            forall|k: int|
                0 <= k < i ==> #[trigger] h@.subrange(k, k + n@.len() as int) != n@,
        decreases hn - nn + 1 - i,
    {
        if i > hn - nn {
            proof {
                assert(forall|k: int|
                    0 <= k && k + n@.len() <= h@.len() ==> #[trigger] h@.subrange(
                        k,
                        k + n@.len() as int,
                    ) != n@);
            }
            return false;
        }
        let mut j: usize = 0;
        let mut here = true;
        while j < nn
            invariant
                nn == n@.len() && hn == h@.len(),
                i + nn <= hn,
                0 <= j <= nn,
                here <==> (forall|m: int| 0 <= m < j ==> h@[i + m] == n@[m]),
            decreases nn - j,
        {
            if h.get_char(i + j) != n.get_char(j) {
                here = false;
                proof {
                    assert(h@[i + j as int] != n@[j as int]);
                }
                j = nn;
            } else {
                j += 1;
            }
        }
        if here {
            proof {
                assert(h@.subrange(i as int, i + n@.len() as int) =~= n@);
            }
            return true;
        }
        proof {
            assert(h@.subrange(i as int, i + n@.len() as int) != n@) by {
                if h@.subrange(i as int, i + n@.len() as int) == n@ {
                    let m = choose|m: int|
                        0 <= m < n@.len() && h@[i + m] != n@[m];
                    assert(h@.subrange(i as int, i + n@.len() as int)[m] == h@[i + m]);
                }
            }
        }
        i += 1;
    }
}

} // verus!
