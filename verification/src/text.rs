//! Case-insensitive substring matching over character sequences.

use vstd::prelude::*;

verus! {

/// ASCII lower-casing of one character: `'A'..='Z'` map to their lower-case
/// form, every other character is unchanged.
pub open spec fn lower_char(c: char) -> char {
    if 'A' <= c && c <= 'Z' {
        ((c as u8) + 32) as char
    } else {
        c
    }
}

/// A character sequence lower-cased character by character.
pub open spec fn lower_seq(s: Seq<char>) -> Seq<char> {
    s.map_values(|c: char| lower_char(c))
}

/// Lower-case one character, ASCII letters only.
pub fn to_lower(c: char) -> (r: char)
    ensures
        r == lower_char(c),
{
    if 'A' <= c && c <= 'Z' {
        ((c as u8) + 32) as char
    } else {
        c
    }
}

/// `needle` occurs in `hay` starting at position `j`.
pub open spec fn match_at(hay: Seq<char>, needle: Seq<char>, j: int) -> bool {
    &&& 0 <= j
    &&& j + needle.len() <= hay.len()
    &&& hay.subrange(j, j + needle.len()) == needle
}

/// `needle` occurs somewhere in `hay`.
pub open spec fn contains_seq(hay: Seq<char>, needle: Seq<char>) -> bool {
    exists|j: int| match_at(hay, needle, j)
}

/// The filter's matching rule: the file name contains the query as a
/// substring, both compared lower-cased.
pub open spec fn matches_query(name: Seq<char>, q: Seq<char>) -> bool {
    contains_seq(lower_seq(name), lower_seq(q))
}

/// Decide whether `name` matches the query `q`, case-insensitively.
pub fn name_matches(name: &str, q: &str) -> (r: bool)
    ensures
        r == matches_query(name@, q@),
{
    let n = name.unicode_len();
    let m = q.unicode_len();
    if m > n {
        assert(!matches_query(name@, q@)) by {
            assert(forall|j: int| !match_at(lower_seq(name@), lower_seq(q@), j));
        }
        return false;
    }
    if m == 0 {
        assert(match_at(lower_seq(name@), lower_seq(q@), 0)) by {
            assert(lower_seq(name@).subrange(0, 0) =~= lower_seq(q@));
        }
        return true;
    }
    let mut j: usize = 0;
    while j <= n - m
        invariant
            1 <= m <= n,
            name@.len() == n,
            m == q@.len(),
            j <= n - m + 1,
            forall|jj: int| 0 <= jj < j ==> !match_at(lower_seq(name@), lower_seq(q@), jj),
        decreases n - m - j + 1,
    {
        let mut k: usize = 0;
        let mut hit = true;
        while k < m
            invariant
                m <= n == name@.len(),
                m == q@.len(),
                j <= n - m,
                k <= m,
                hit ==> forall|kk: int|
                    0 <= kk < k ==> lower_seq(name@)[j + kk] == lower_seq(q@)[kk],
                !hit ==> !match_at(lower_seq(name@), lower_seq(q@), j as int),
            decreases m - k,
        {
            if hit {
                let a = to_lower(name.get_char(j + k));
                let b = to_lower(q.get_char(k));
                if a != b {
                    assert(lower_seq(name@)[j + k] != lower_seq(q@)[k as int]);
                    assert(!match_at(lower_seq(name@), lower_seq(q@), j as int)) by {
                        if match_at(lower_seq(name@), lower_seq(q@), j as int) {
                            assert(lower_seq(name@).subrange(
                                j as int,
                                j + lower_seq(q@).len(),
                            )[k as int] == lower_seq(q@)[k as int]);
                        }
                    }
                    hit = false;
                }
            }
            k += 1;
        }
        if hit {
            assert(match_at(lower_seq(name@), lower_seq(q@), j as int)) by {
                assert(lower_seq(name@).subrange(j as int, j + lower_seq(q@).len())
                    =~= lower_seq(q@));
            }
            return true;
        }
        j += 1;
    }
    assert(!matches_query(name@, q@)) by {
        assert(forall|jj: int| !match_at(lower_seq(name@), lower_seq(q@), jj));
    }
    false
}

} // verus!
