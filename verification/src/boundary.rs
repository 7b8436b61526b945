//! Extracts the boundary from a request's Content-Type header value.
//!
//! The accepted shape, stated by `spec_parse_boundary`: the value opens
//! with `multipart/` (case-insensitive); among the `;`-separated parameters
//! that follow the first `;`, the first whose name is `boundary`
//! (case-insensitive, blanks trimmed) supplies the boundary, its value
//! taken verbatim or unwrapped from one pair of double quotes; an empty
//! value counts as absent.
use vstd::prelude::*;

use crate::bytes::{find_byte_bounded, eq_lower_range, trim_range, trim, lower, first_match};

verus! {

/// The lower-case bytes of `multipart/`.
pub open spec fn multipart_label() -> Seq<u8> {
    seq![109u8, 117u8, 108u8, 116u8, 105u8, 112u8, 97u8, 114u8, 116u8, 47u8]
}

/// The lower-case bytes of `boundary`.
pub open spec fn boundary_label() -> Seq<u8> {
    seq![98u8, 111u8, 117u8, 110u8, 100u8, 97u8, 114u8, 121u8]
}

/// One pair of surrounding double quotes removed, if present.
pub open spec fn unquote(v: Seq<u8>) -> Seq<u8> {
    if v.len() >= 2 && v[0] == 34 && v[v.len() - 1] == 34 {
        v.subrange(1, v.len() - 1)
    } else {
        v
    }
}

/// The boundary a single `name=value` parameter segment supplies, if its
/// name is `boundary` and its unquoted value is non-empty.
pub open spec fn segment_boundary(seg0: Seq<u8>) -> Option<Seq<u8>> {
    let seg = trim(seg0);
    match first_match(seg, seq![61u8], 0) {
        None => None,
        Some(e) => {
            if 0 <= e <= seg.len() && lower(seg.subrange(0, e)) == boundary_label() {
                let v = unquote(seg.subrange(e + 1, seg.len() as int));
                if v.len() > 0 {
                    Some(v)
                } else {
                    None
                }
            } else {
                None
            }
        },
    }
}

/// The boundary supplied by the first matching parameter segment at or
/// after `pos`.
pub open spec fn boundary_param(h: Seq<u8>, pos: int) -> Option<Seq<u8>>
    decreases h.len() - pos + 1,
    when 0 <= pos <= h.len()
{
    let end = match first_match(h.subrange(pos, h.len() as int), seq![59u8], 0) {
        None => h.len() as int,
        Some(d) => pos + d,
    };
    if pos <= end <= h.len() {
        let r = segment_boundary(h.subrange(pos, end));
        if r is Some {
            r
        } else if end + 1 <= h.len() {
            boundary_param(h, end + 1)
        } else {
            None
        }
    } else {
        None
    }
}

/// The boundary a Content-Type header value declares, if any.
pub open spec fn spec_parse_boundary(h: Seq<u8>) -> Option<Seq<u8>> {
    if h.len() >= 10 && lower(h.subrange(0, 10)) == multipart_label() {
        match first_match(h, seq![59u8], 0) {
            None => None,
            Some(s) => {
                if 0 <= s && s + 1 <= h.len() {
                    boundary_param(h, s + 1)
                } else {
                    None
                }
            },
        }
    } else {
        None
    }
}

/// The lower-case bytes of `multipart/`.
fn multipart_label_vec() -> (v: Vec<u8>)
    ensures
        v@ == multipart_label(),
{
    let mut v: Vec<u8> = Vec::new();
    v.push(109);
    v.push(117);
    v.push(108);
    v.push(116);
    v.push(105);
    v.push(112);
    v.push(97);
    v.push(114);
    v.push(116);
    v.push(47);
    proof {
        assert(v@ =~= multipart_label());
    }
    v
}

/// The lower-case bytes of `boundary`.
fn boundary_label_vec() -> (v: Vec<u8>)
    ensures
        v@ == boundary_label(),
{
    let mut v: Vec<u8> = Vec::new();
    v.push(98);
    v.push(111);
    v.push(117);
    v.push(110);
    v.push(100);
    v.push(97);
    v.push(114);
    v.push(121);
    proof {
        assert(v@ =~= boundary_label());
    }
    v
}

/// Extracts the multipart boundary from a Content-Type header value, or
/// `None` when the value is not multipart or declares no usable boundary.
#[verifier::loop_isolation(false)]
#[verifier::rlimit(60)]
pub fn parse_boundary(header: &[u8]) -> (r: Option<Vec<u8>>)
    ensures
        match r {
            None => spec_parse_boundary(header@) == None::<Seq<u8>>,
            Some(v) => spec_parse_boundary(header@) == Some(v@) && v@.len() > 0,
        },
{
    let hlen = header.len();
    let ml = multipart_label_vec();
    if !(hlen >= 10 && eq_lower_range(header, 0, 10, ml.as_slice())) {
        return None;
    }
    proof {
        assert(header@.subrange(0, hlen as int) =~= header@);
    }
    let s = match find_byte_bounded(header, 0, hlen, 59) {
        None => {
            return None;
        },
        Some(s) => s,
    };
    let bl = boundary_label_vec();
    let mut pos: usize = s + 1;
    proof {
        assert(spec_parse_boundary(header@) == boundary_param(header@, pos as int));
    }
    loop
        invariant
            pos <= hlen,
            spec_parse_boundary(header@) == boundary_param(header@, pos as int),
        decreases hlen - pos,
    {
        let end = match find_byte_bounded(header, pos, hlen, 59) {
            None => hlen,
            Some(e) => e,
        };
        proof {
            assert(header@.subrange(pos as int, hlen as int) == header@.subrange(
                pos as int,
                header@.len() as int,
            ));
        }
        let ghost seg0 = header@.subrange(pos as int, end as int);
        let (lo, hi) = trim_range(header, pos, end);
        let ghost seg = trim(seg0);
        proof {
            assert(seg == header@.subrange(lo as int, hi as int));
        }
        match find_byte_bounded(header, lo, hi, 61) {
            None => {
                proof {
                    assert(segment_boundary(seg0) == None::<Seq<u8>>);
                }
            },
            Some(e) => {
                proof {
                    assert(seg.subrange(0, e - lo) =~= header@.subrange(
                        lo as int,
                        e as int,
                    ));
                    assert(seg.subrange(e - lo + 1, seg.len() as int) =~= header@.subrange(
                        e + 1,
                        hi as int,
                    ));
                }
                let is_b = eq_lower_range(header, lo, e, bl.as_slice());
                if is_b {
                    let ghost rawv = seg.subrange(e - lo + 1, seg.len() as int);
                    let quoted = hi - (e + 1) >= 2 && header[e + 1] == 34 && header[hi
                        - 1] == 34;
                    let (vlo, vhi) = if quoted {
                        (e + 2, hi - 1)
                    } else {
                        (e + 1, hi)
                    };
                    proof {
                        assert(rawv.len() >= 2 ==> rawv[0] == header@[e + 1]
                            && rawv[rawv.len() - 1] == header@[hi - 1]);
                        assert(unquote(rawv) =~= header@.subrange(vlo as int, vhi as int));
                    }
                    if vhi - vlo > 0 {
                        let v = vstd::slice::slice_to_vec(&header[vlo..vhi]);
                        proof {
                            assert(segment_boundary(seg0) == Some(v@));
                        }
                        return Some(v);
                    }
                    proof {
                        assert(segment_boundary(seg0) == None::<Seq<u8>>);
                    }
                } else {
                    proof {
                        assert(segment_boundary(seg0) == None::<Seq<u8>>);
                    }
                }
            },
        }
        if end >= hlen {
            proof {
                assert(boundary_param(header@, pos as int) == None::<Seq<u8>>);
            }
            return None;
        }
        pos = end + 1;
    }
}

} // verus!
