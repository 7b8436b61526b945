//! Decomposes a boundary-delimited multipart body into its parts.
//!
//! The accepted framing, stated by `parse_body`: the body opens with
//! `--boundary`; each part then consists of `\r\n`, header lines each ended
//! by `\r\n`, an empty line, and the part's bytes, which run to the next
//! `\r\n--boundary`; after the last part the boundary is followed by `--`.
//! A part's declared content type is the value of its first `Content-Type`
//! header (the name compared ASCII case-insensitively, the value trimmed of
//! blanks). A body that breaks this framing yields the parts delimited
//! before the break and is marked incomplete.
use vstd::prelude::*;

use crate::bytes::{find_from, eq_at, eq_lower_range, trim_range, trim, lower, matches_at,
    first_match, opt_bytes};

verus! {

/// One decoded part: its declared content type, if any, and its bytes.
pub struct Part {
    pub content_type: Option<Vec<u8>>,
    pub data: Vec<u8>,
}

/// The mathematical image of a `Part`.
#[verifier::ext_equal]
pub ghost struct PartView {
    pub content_type: Option<Seq<u8>>,
    pub data: Seq<u8>,
}

impl View for Part {
    type V = PartView;

    open spec fn view(&self) -> PartView {
        PartView { content_type: opt_bytes(self.content_type), data: self.data@ }
    }
}

/// The views of a sequence of parts.
pub open spec fn views_of(s: Seq<Part>) -> Seq<PartView> {
    s.map_values(|p: Part| p@)
}

/// What decoding a body yields: the parts delimited before the first
/// framing violation, and whether the closing delimiter was reached.
#[verifier::ext_equal]
pub ghost struct BodyView {
    pub parts: Seq<PartView>,
    pub complete: bool,
}

/// The carriage-return/line-feed pair that ends a header line.
pub open spec fn crlf() -> Seq<u8> {
    seq![13u8, 10u8]
}

/// The delimiter that opens the body: `--` followed by the boundary.
pub open spec fn open_delim(boundary: Seq<u8>) -> Seq<u8> {
    seq![45u8, 45u8] + boundary
}

/// The delimiter that ends a part's bytes: `\r\n--` followed by the
/// boundary.
pub open spec fn part_delim(boundary: Seq<u8>) -> Seq<u8> {
    seq![13u8, 10u8, 45u8, 45u8] + boundary
}

/// The lower-case name of the one part header that is read.
pub open spec fn content_type_label() -> Seq<u8> {
    seq![99u8, 111u8, 110u8, 116u8, 101u8, 110u8, 116u8, 45u8, 116u8, 121u8, 112u8, 101u8, 58u8]
}

/// Whether a header line declares the content type, compared
/// case-insensitively on the name.
pub open spec fn is_content_type_line(line: Seq<u8>) -> bool {
    line.len() >= 13 && lower(line.subrange(0, 13)) == content_type_label()
}

/// The declared value of a content-type header line, trimmed of blanks.
pub open spec fn header_value(line: Seq<u8>) -> Seq<u8> {
    trim(line.subrange(13, line.len() as int))
}

/// A parsed header block: the first declared content type, if any, and the
/// position just past the empty line that closes the block.
#[verifier::ext_equal]
pub ghost struct HeaderBlock {
    pub content_type: Option<Seq<u8>>,
    pub end: int,
}

/// Parses header lines from `pos` to the empty line; `None` when a line
/// never ends.
pub open spec fn parse_headers(body: Seq<u8>, pos: int) -> Option<HeaderBlock>
    decreases body.len() - pos + 1,
    when 0 <= pos
{
    match first_match(body, crlf(), pos) {
        None => None,
        Some(k) => {
            if k == pos {
                Some(HeaderBlock { content_type: None, end: pos + 2 })
            } else if pos < k && k + 2 <= body.len() {
                let line = body.subrange(pos, k);
                match parse_headers(body, k + 2) {
                    None => None,
                    Some(rest) => Some(
                        HeaderBlock {
                            content_type: if is_content_type_line(line) {
                                Some(header_value(line))
                            } else {
                                rest.content_type
                            },
                            end: rest.end,
                        },
                    ),
                }
            } else {
                None
            }
        },
    }
}

/// Parses the parts that follow a boundary occurrence ending at `pos`.
pub open spec fn parse_parts(body: Seq<u8>, boundary: Seq<u8>, pos: int) -> BodyView
    decreases body.len() - pos + 1,
    when 0 <= pos
{
    if pos + 2 <= body.len() && body[pos] == 45 && body[pos + 1] == 45 {
        BodyView { parts: seq![], complete: true }
    } else if pos + 2 <= body.len() && body[pos] == 13 && body[pos + 1] == 10 {
        match parse_headers(body, pos + 2) {
            None => BodyView { parts: seq![], complete: false },
            Some(h) => {
                if pos + 2 <= h.end <= body.len() {
                    match first_match(body, part_delim(boundary), h.end) {
                        None => BodyView { parts: seq![], complete: false },
                        Some(j) => {
                            if h.end <= j && pos < j + 4 + boundary.len() && j + 4
                                + boundary.len() <= body.len() {
                                let part = PartView {
                                    content_type: h.content_type,
                                    data: body.subrange(h.end, j),
                                };
                                let rest = parse_parts(
                                    body,
                                    boundary,
                                    j + 4 + boundary.len() as int,
                                );
                                BodyView {
                                    parts: seq![part] + rest.parts,
                                    complete: rest.complete,
                                }
                            } else {
                                BodyView { parts: seq![], complete: false }
                            }
                        },
                    }
                } else {
                    BodyView { parts: seq![], complete: false }
                }
            },
        }
    } else {
        BodyView { parts: seq![], complete: false }
    }
}

/// What decoding `body` against `boundary` yields.
pub open spec fn parse_body(body: Seq<u8>, boundary: Seq<u8>) -> BodyView {
    if matches_at(body, open_delim(boundary), 0) {
        parse_parts(body, boundary, 2 + boundary.len() as int)
    } else {
        BodyView { parts: seq![], complete: false }
    }
}

/// The outcome of decoding one body: the parts delimited before the first
/// framing violation, and whether the closing delimiter was reached.
pub struct ParseOutcome {
    pub parts: Vec<Part>,
    pub complete: bool,
}

/// Combines a content type already found with the block parsed after it:
/// the earlier declaration wins.
pub open spec fn merge_ct(acc: Option<Seq<u8>>, rest: Option<HeaderBlock>) -> Option<
    HeaderBlock,
> {
    match rest {
        None => None,
        Some(h) => Some(
            HeaderBlock {
                content_type: if acc is Some {
                    acc
                } else {
                    h.content_type
                },
                end: h.end,
            },
        ),
    }
}

/// The lower-case content-type header name as bytes.
fn content_type_label_vec() -> (v: Vec<u8>)
    ensures
        v@ == content_type_label(),
{
    let mut v: Vec<u8> = Vec::new();
    v.push(99);
    v.push(111);
    v.push(110);
    v.push(116);
    v.push(101);
    v.push(110);
    v.push(116);
    v.push(45);
    v.push(116);
    v.push(121);
    v.push(112);
    v.push(101);
    v.push(58);
    proof {
        assert(v@ =~= content_type_label());
    }
    v
}

/// Parses one part's header lines starting at `start`, returning the first
/// declared content type and the position just past the empty line.
#[verifier::loop_isolation(false)]
fn parse_headers_exec(body: &[u8], start: usize) -> (r: Option<(Option<Vec<u8>>, usize)>)
    requires
        start <= body@.len(),
    ensures
        match r {
            None => parse_headers(body@, start as int) == None::<HeaderBlock>,
            Some(p) => {
                &&& start <= p.1 <= body@.len()
                &&& parse_headers(body@, start as int) == Some(
                    HeaderBlock { content_type: opt_bytes(p.0), end: p.1 as int },
                )
            },
        },
{
    let bodylen = body.len();
    let mut crlf_v: Vec<u8> = Vec::new();
    crlf_v.push(13);
    crlf_v.push(10);
    proof {
        assert(crlf_v@ =~= crlf());
    }
    let label = content_type_label_vec();
    let mut pos = start;
    let mut ct: Option<Vec<u8>> = None;
    loop
        invariant
            start <= pos <= bodylen,
            parse_headers(body@, start as int) == merge_ct(
                opt_bytes(ct),
                parse_headers(body@, pos as int),
            ),
        decreases bodylen - pos,
    {
        let k = match find_from(body, crlf_v.as_slice(), pos) {
            None => {
                return None;
            },
            Some(k) => k,
        };
        if k == pos {
            return Some((ct, pos + 2));
        }
        let ghost line = body@.subrange(pos as int, k as int);
        let is_ct = k - pos >= 13 && eq_lower_range(body, pos, pos + 13, label.as_slice());
        proof {
            if k - pos >= 13 {
                assert(line.subrange(0, 13) =~= body@.subrange(pos as int, pos + 13));
            }
            assert(is_ct == is_content_type_line(line));
        }
        if is_ct {
            if ct.is_none() {
                let (lo, hi) = trim_range(body, pos + 13, k);
                let v = vstd::slice::slice_to_vec(&body[lo..hi]);
                proof {
                    assert(line.subrange(13, line.len() as int) =~= body@.subrange(
                        pos + 13,
                        k as int,
                    ));
                    assert(v@ == header_value(line));
                }
                ct = Some(v);
            }
        }
        pos = k + 2;
    }
}

/// Decodes `body` against `boundary`: yields every part delimited before
/// the first framing violation, in order, and whether the closing
/// `--boundary--` delimiter was reached.
#[verifier::loop_isolation(false)]
pub fn parse_multipart(body: &[u8], boundary: &[u8]) -> (out: ParseOutcome)
    ensures
        views_of(out.parts@) == parse_body(body@, boundary@).parts,
        out.complete == parse_body(body@, boundary@).complete,
{
    let blen = boundary.len();
    let bodylen = body.len();
    let mut od: Vec<u8> = Vec::new();
    od.push(45);
    od.push(45);
    let mut i: usize = 0;
    while i < blen
        invariant
            i <= blen,
            blen == boundary@.len(),
            od@ == seq![45u8, 45u8] + boundary@.subrange(0, i as int),
        decreases blen - i,
    {
        od.push(boundary[i]);
        proof {
            assert(od@ =~= seq![45u8, 45u8] + boundary@.subrange(0, i + 1));
        }
        i += 1;
    }
    proof {
        assert(boundary@.subrange(0, blen as int) =~= boundary@);
        assert(od@ == open_delim(boundary@));
    }
    if bodylen < 2 || bodylen - 2 < blen || !eq_at(body, 0, od.as_slice()) {
        proof {
            assert(!matches_at(body@, open_delim(boundary@), 0));
            assert(views_of(Seq::<Part>::empty()) =~= Seq::<PartView>::empty());
        }
        return ParseOutcome { parts: Vec::new(), complete: false };
    }
    let mut pd: Vec<u8> = Vec::new();
    pd.push(13);
    pd.push(10);
    pd.push(45);
    pd.push(45);
    let mut i2: usize = 0;
    while i2 < blen
        invariant
            i2 <= blen,
            blen == boundary@.len(),
            pd@ == seq![13u8, 10u8, 45u8, 45u8] + boundary@.subrange(0, i2 as int),
        decreases blen - i2,
    {
        pd.push(boundary[i2]);
        proof {
            assert(pd@ =~= seq![13u8, 10u8, 45u8, 45u8] + boundary@.subrange(0, i2 + 1));
        }
        i2 += 1;
    }
    proof {
        assert(boundary@.subrange(0, blen as int) =~= boundary@);
        assert(pd@ == part_delim(boundary@));
    }
    let ghost total = parse_body(body@, boundary@);
    let mut parts: Vec<Part> = Vec::new();
    let mut pos: usize = 2 + blen;
    proof {
        assert(matches_at(body@, open_delim(boundary@), 0));
        assert(views_of(parts@) =~= Seq::<PartView>::empty());
        assert(total.parts =~= views_of(parts@) + parse_parts(
            body@,
            boundary@,
            pos as int,
        ).parts);
    }
    loop
        invariant
            pos <= bodylen,
            total == parse_body(body@, boundary@),
            total.parts == views_of(parts@) + parse_parts(body@, boundary@, pos as int).parts,
            total.complete == parse_parts(body@, boundary@, pos as int).complete,
        decreases bodylen - pos,
    {
        let ghost rest = parse_parts(body@, boundary@, pos as int);
        if bodylen - pos >= 2 && body[pos] == 45 && body[pos + 1] == 45 {
            proof {
                assert(rest.parts =~= Seq::<PartView>::empty());
                assert(total.parts =~= views_of(parts@));
            }
            return ParseOutcome { parts, complete: true };
        }
        if !(bodylen - pos >= 2 && body[pos] == 13 && body[pos + 1] == 10) {
            proof {
                assert(rest.parts =~= Seq::<PartView>::empty());
                assert(total.parts =~= views_of(parts@));
            }
            return ParseOutcome { parts, complete: false };
        }
        let hdr = parse_headers_exec(body, pos + 2);
        let (ct, data_start) = match hdr {
            None => {
                proof {
                    assert(rest.parts =~= Seq::<PartView>::empty());
                    assert(total.parts =~= views_of(parts@));
                }
                return ParseOutcome { parts, complete: false };
            },
            Some(p) => p,
        };
        let j = match find_from(body, pd.as_slice(), data_start) {
            None => {
                proof {
                    assert(rest.parts =~= Seq::<PartView>::empty());
                    assert(total.parts =~= views_of(parts@));
                }
                return ParseOutcome { parts, complete: false };
            },
            Some(j) => j,
        };
        let data = vstd::slice::slice_to_vec(&body[data_start..j]);
        let part = Part { content_type: ct, data };
        let ghost pv = part@;
        proof {
            assert(rest.parts == seq![pv] + parse_parts(
                body@,
                boundary@,
                j + 4 + blen as int,
            ).parts);
        }
        parts.push(part);
        pos = j + 4 + blen;
        proof {
            assert(views_of(parts@) =~= views_of(parts@.drop_last()).push(pv));
            assert(total.parts =~= views_of(parts@) + parse_parts(
                body@,
                boundary@,
                pos as int,
            ).parts);
        }
    }
}

} // verus!
