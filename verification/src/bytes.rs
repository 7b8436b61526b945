//! Byte-sequence helpers shared by the header and multipart parsers:
//! substring search, ASCII lower-casing and whitespace trimming, each as a
//! spec-level definition with a verified executable counterpart.
use vstd::prelude::*;

verus! {

/// True of the ASCII bytes that may appear in a generated file name token:
/// digits, upper-case letters and lower-case letters.
pub open spec fn is_alnum_byte(b: u8) -> bool {
    (48 <= b && b <= 57) || (65 <= b && b <= 90) || (97 <= b && b <= 122)
}

/// ASCII lower-casing of one byte; bytes outside 'A'..='Z' are unchanged.
pub open spec fn lower_byte(b: u8) -> u8 {
    if 65 <= b && b <= 90 {
        (b + 32) as u8
    } else {
        b
    }
}

/// ASCII lower-casing of a byte sequence.
pub open spec fn lower(s: Seq<u8>) -> Seq<u8> {
    s.map_values(|b: u8| lower_byte(b))
}

/// `needle` occurs in `hay` starting exactly at position `at`.
pub open spec fn matches_at(hay: Seq<u8>, needle: Seq<u8>, at: int) -> bool {
    &&& 0 <= at
    &&& at + needle.len() <= hay.len()
    &&& hay.subrange(at, at + needle.len() as int) == needle
}

/// Position of the leftmost occurrence of `needle` in `hay` at or after
/// `from`, if any.
pub open spec fn first_match(hay: Seq<u8>, needle: Seq<u8>, from: int) -> Option<int>
    decreases hay.len() - from + 1,
    when 0 <= from
{
    if from + needle.len() > hay.len() {
        None
    } else if matches_at(hay, needle, from) {
        Some(from)
    } else {
        first_match(hay, needle, from + 1)
    }
}

/// If `needle` matches at `j` and nowhere earlier (from `from` on), then `j`
/// is the first match.
pub proof fn lemma_first_match_some(hay: Seq<u8>, needle: Seq<u8>, from: int, j: int)
    requires
        0 <= from <= j,
        matches_at(hay, needle, j),
        forall|k: int| from <= k < j ==> !matches_at(hay, needle, k),
    ensures
        first_match(hay, needle, from) == Some(j),
    decreases j - from,
{
    if from < j {
        lemma_first_match_some(hay, needle, from + 1, j);
    }
}

/// If `needle` matches nowhere at or after `from`, there is no first match.
pub proof fn lemma_first_match_none(hay: Seq<u8>, needle: Seq<u8>, from: int)
    requires
        0 <= from,
        forall|k: int| from <= k ==> !matches_at(hay, needle, k),
    ensures
        first_match(hay, needle, from) == None::<int>,
    decreases hay.len() - from + 1,
{
    if from + needle.len() <= hay.len() {
        lemma_first_match_none(hay, needle, from + 1);
    }
}

/// Leading spaces and horizontal tabs removed.
pub open spec fn trim_start(s: Seq<u8>) -> Seq<u8>
    decreases s.len(),
{
    if s.len() > 0 && (s[0] == 32 || s[0] == 9) {
        trim_start(s.drop_first())
    } else {
        s
    }
}

/// Trailing spaces and horizontal tabs removed.
pub open spec fn trim_end(s: Seq<u8>) -> Seq<u8>
    decreases s.len(),
{
    if s.len() > 0 && (s[s.len() - 1] == 32 || s[s.len() - 1] == 9) {
        trim_end(s.drop_last())
    } else {
        s
    }
}

/// Leading and trailing spaces and horizontal tabs removed.
pub open spec fn trim(s: Seq<u8>) -> Seq<u8> {
    trim_end(trim_start(s))
}

/// The view of an optional byte vector.
pub open spec fn opt_bytes(o: Option<Vec<u8>>) -> Option<Seq<u8>> {
    match o {
        None => None,
        Some(v) => Some(v@),
    }
}

/// Executable counterpart of `lower_byte`.
pub fn lower_byte_exec(b: u8) -> (r: u8)
    ensures
        r == lower_byte(b),
{
    if 65 <= b && b <= 90 {
        b + 32
    } else {
        b
    }
}

/// Whether `needle` occurs in `hay` starting exactly at `at`.
pub fn eq_at(hay: &[u8], at: usize, needle: &[u8]) -> (r: bool)
    requires
        at + needle@.len() <= hay@.len(),
    ensures
        r == matches_at(hay@, needle@, at as int),
{
    let hlen = hay.len();
    let n = needle.len();
    let mut i: usize = 0;
    while i < n
        invariant
            at + n <= hlen,
            hlen == hay@.len(),
            n == needle@.len(),
            0 <= i <= n,
            forall|k: int| 0 <= k < i ==> hay@[at + k] == needle@[k],
        decreases n - i,
    {
        if hay[at + i] != needle[i] {
            proof {
                assert(!matches_at(hay@, needle@, at as int)) by {
                    if matches_at(hay@, needle@, at as int) {
                        assert(hay@.subrange(at as int, at + needle@.len() as int)[i as int]
                            == needle@[i as int]);
                    }
                }
            }
            return false;
        }
        i += 1;
    }
    proof {
        assert(hay@.subrange(at as int, at + needle@.len() as int) =~= needle@);
    }
    true
}

/// Finds the leftmost occurrence of `needle` in `hay` at or after `from`.
pub fn find_from(hay: &[u8], needle: &[u8], from: usize) -> (r: Option<usize>)
    requires
        from <= hay@.len(),
        needle@.len() >= 1,
    ensures
        match r {
            Some(j) => {
                &&& from <= j
                &&& j + needle@.len() <= hay@.len()
                &&& matches_at(hay@, needle@, j as int)
                &&& first_match(hay@, needle@, from as int) == Some(j as int)
            },
            None => first_match(hay@, needle@, from as int) == None::<int>,
        },
{
    let hlen = hay.len();
    let nlen = needle.len();
    let mut i: usize = from;
    while i <= hlen && hlen - i >= nlen
        invariant
            hlen == hay@.len(),
            nlen == needle@.len(),
            1 <= nlen,
            from <= i <= hlen,
            forall|k: int| from <= k < i ==> !matches_at(hay@, needle@, k),
        decreases hlen - i,
    {
        if eq_at(hay, i, needle) {
            proof {
                lemma_first_match_some(hay@, needle@, from as int, i as int);
            }
            return Some(i);
        }
        i += 1;
    }
    proof {
        assert forall|k: int| from <= k implies !matches_at(hay@, needle@, k) by {
            if k >= i {
                assert(k + needle@.len() > hay@.len());
            }
        }
        lemma_first_match_none(hay@, needle@, from as int);
    }
    None
}

/// Finds the leftmost occurrence of the byte `b` within `hay[lo..hi)`,
/// reported both as an absolute position and against the subrange.
pub fn find_byte_bounded(hay: &[u8], lo: usize, hi: usize, b: u8) -> (r: Option<usize>)
    requires
        lo <= hi <= hay@.len(),
    ensures
        match r {
            Some(j) => {
                &&& lo <= j < hi
                &&& hay@[j as int] == b
                &&& forall|k: int| lo <= k < j ==> hay@[k] != b
                &&& first_match(hay@.subrange(lo as int, hi as int), seq![b], 0) == Some(
                    j - lo,
                )
            },
            None => {
                &&& forall|k: int| lo <= k < hi ==> hay@[k] != b
                &&& first_match(hay@.subrange(lo as int, hi as int), seq![b], 0)
                    == None::<int>
            },
        },
{
    let ghost sub = hay@.subrange(lo as int, hi as int);
    proof {
        assert forall|t: int| 0 <= t < sub.len() implies (matches_at(sub, seq![b], t)
            <==> sub[t] == b) by {
            if matches_at(sub, seq![b], t) {
                assert(sub.subrange(t, t + 1)[0] == sub[t]);
            }
            if sub[t] == b {
                assert(sub.subrange(t, t + 1) =~= seq![b]);
            }
        }
    }
    let mut i: usize = lo;
    while i < hi
        invariant
            lo <= i <= hi <= hay@.len(),
            sub == hay@.subrange(lo as int, hi as int),
            forall|k: int| lo <= k < i ==> hay@[k] != b,
            forall|t: int|
                0 <= t < sub.len() ==> (matches_at(sub, seq![b], t) <==> sub[t] == b),
        decreases hi - i,
    {
        if hay[i] == b {
            proof {
                assert forall|t: int| 0 <= t < i - lo implies !matches_at(
                    sub,
                    seq![b],
                    t,
                ) by {
                    assert(sub[t] == hay@[lo + t]);
                }
                assert(sub[i - lo] == hay@[i as int]);
                assert(matches_at(sub, seq![b], i - lo));
                lemma_first_match_some(sub, seq![b], 0, i - lo);
            }
            return Some(i);
        }
        i += 1;
    }
    proof {
        assert forall|t: int| 0 <= t implies !matches_at(sub, seq![b], t) by {
            if t < sub.len() {
                assert(sub[t] == hay@[lo + t]);
            } else {
                assert(t + seq![b].len() > sub.len());
            }
        }
        lemma_first_match_none(sub, seq![b], 0);
    }
    None
}

/// Whether `hay[lo..hi)`, lower-cased, equals the (already lower-case)
/// literal `lit`.
pub fn eq_lower_range(hay: &[u8], lo: usize, hi: usize, lit: &[u8]) -> (r: bool)
    requires
        lo <= hi <= hay@.len(),
    ensures
        r == (hi - lo == lit@.len() && lower(hay@.subrange(lo as int, hi as int))
            == lit@),
{
    let ghost sub = hay@.subrange(lo as int, hi as int);
    if hi - lo != lit.len() {
        return false;
    }
    let n = lit.len();
    let mut i: usize = 0;
    while i < n
        invariant
            lo <= hi <= hay@.len(),
            hi - lo == n == lit@.len(),
            0 <= i <= n,
            sub == hay@.subrange(lo as int, hi as int),
            forall|k: int| 0 <= k < i ==> lower_byte(sub[k]) == lit@[k],
        decreases n - i,
    {
        if lower_byte_exec(hay[lo + i]) != lit[i] {
            proof {
                assert(sub[i as int] == hay@[lo + i]);
                assert(lower(sub)[i as int] == lower_byte(sub[i as int]));
            }
            return false;
        }
        i += 1;
    }
    proof {
        assert(lower(sub) =~= lit@) by {
            assert(forall|k: int| 0 <= k < n ==> lower(sub)[k] == lower_byte(sub[k]));
        }
    }
    true
}

/// Trims spaces and horizontal tabs from both ends of `hay[lo..hi)`,
/// returning the bounds of the trimmed range.
pub fn trim_range(hay: &[u8], lo: usize, hi: usize) -> (r: (usize, usize))
    requires
        lo <= hi <= hay@.len(),
    ensures
        lo <= r.0 <= r.1 <= hi,
        hay@.subrange(r.0 as int, r.1 as int) == trim(
            hay@.subrange(lo as int, hi as int),
        ),
{
    let mut a: usize = lo;
    while a < hi && (hay[a] == 32 || hay[a] == 9)
        invariant
            lo <= a <= hi <= hay@.len(),
            trim_start(hay@.subrange(a as int, hi as int)) == trim_start(
                hay@.subrange(lo as int, hi as int),
            ),
        decreases hi - a,
    {
        proof {
            assert(hay@.subrange(a as int, hi as int).drop_first() =~= hay@.subrange(
                a + 1,
                hi as int,
            ));
        }
        a += 1;
    }
    proof {
        assert(trim_start(hay@.subrange(a as int, hi as int)) == hay@.subrange(
            a as int,
            hi as int,
        ));
    }
    let mut b: usize = hi;
    while b > a && (hay[b - 1] == 32 || hay[b - 1] == 9)
        invariant
            lo <= a <= b <= hi <= hay@.len(),
            trim_end(hay@.subrange(a as int, b as int)) == trim_end(
                hay@.subrange(a as int, hi as int),
            ),
        decreases b - a,
    {
        proof {
            assert(hay@.subrange(a as int, b as int).drop_last() =~= hay@.subrange(
                a as int,
                b - 1,
            ));
        }
        b -= 1;
    }
    proof {
        assert(trim_end(hay@.subrange(a as int, b as int)) == hay@.subrange(
            a as int,
            b as int,
        ));
    }
    (a, b)
}

} // verus!
