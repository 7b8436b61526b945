//! Drives one request's parts to planned files: each part's bytes are
//! buffered whole, a fresh random token and the resolved extension name the
//! file, and processing stops at the first part whose content type is
//! missing or malformed. Files planned for earlier parts are kept, matching
//! the current no-rollback behaviour.
use vstd::prelude::*;

use crate::bytes::opt_bytes;
use crate::content_type::{resolve_extension, spec_resolve};
use crate::errors::UploadError;
use crate::multipart::{parse_body, parse_multipart, views_of, BodyView, Part, PartView};
use crate::token::{generate_token, is_token};

verus! {

/// A file ready to be persisted: its name under the upload directory and
/// its bytes.
pub struct PlannedFile {
    pub name: Vec<u8>,
    pub data: Vec<u8>,
}

/// The mathematical image of a `PlannedFile`.
#[verifier::ext_equal]
pub ghost struct PlannedFileView {
    pub name: Seq<u8>,
    pub data: Seq<u8>,
}

impl View for PlannedFile {
    type V = PlannedFileView;

    open spec fn view(&self) -> PlannedFileView {
        PlannedFileView { name: self.name@, data: self.data@ }
    }
}

/// The views of a sequence of planned files.
pub open spec fn file_views(s: Seq<PlannedFile>) -> Seq<PlannedFileView> {
    s.map_values(|f: PlannedFile| f@)
}

/// The name is some 30-byte alphanumeric token, a dot, and the extension.
pub open spec fn named_for(name: Seq<u8>, ext: Seq<u8>) -> bool {
    exists|tok: Seq<u8>| is_token(tok) && name == tok + seq![46u8] + ext
}

/// The file stands for the part: the part's content type resolves, the
/// file's bytes are the part's bytes, and the name joins a token with the
/// resolved extension.
pub open spec fn file_matches_part(f: PlannedFileView, p: PartView) -> bool {
    &&& spec_resolve(p.content_type) is Ok
    &&& f.data == p.data
    &&& named_for(f.name, spec_resolve(p.content_type)->Ok_0)
}

/// The planned files cover a prefix of the parts: one file per part, the
/// part's bytes unchanged, named by a token and the part's resolved
/// extension.
pub open spec fn files_match_parts(files: Seq<PlannedFileView>, parts: Seq<PartView>) -> bool {
    &&& files.len() <= parts.len()
    &&& forall|i: int|
        0 <= i < files.len() ==> file_matches_part(#[trigger] files[i], parts[i])
}

/// What processing a decoded body owes: a file for every part before the
/// first invalid content type; `error` names the first failure, a part's
/// content-type error before the body's own framing error.
pub open spec fn processed(
    bv: BodyView,
    files: Seq<PlannedFileView>,
    error: Option<UploadError>,
) -> bool {
    &&& files_match_parts(files, bv.parts)
    &&& match error {
        None => files.len() == bv.parts.len() && bv.complete,
        Some(e) => {
            if files.len() < bv.parts.len() {
                spec_resolve(bv.parts[files.len() as int].content_type) == Err::<
                    Seq<u8>,
                    UploadError,
                >(e)
            } else {
                &&& !bv.complete
                &&& e == UploadError::MalformedBody
                &&& files.len() == bv.parts.len()
            }
        },
    }
}

/// Appending a file that matches the next part keeps the match.
proof fn lemma_files_match_push(
    files: Seq<PlannedFileView>,
    parts: Seq<PartView>,
    fv: PlannedFileView,
)
    requires
        files_match_parts(files, parts),
        files.len() < parts.len(),
        file_matches_part(fv, parts[files.len() as int]),
    ensures
        files_match_parts(files.push(fv), parts),
{
    let files2 = files.push(fv);
    assert forall|i: int| 0 <= i < files2.len() implies file_matches_part(
        #[trigger] files2[i],
        parts[i],
    ) by {
        if i < files.len() {
            assert(files2[i] == files[i]);
            assert(file_matches_part(files[i], parts[i]));
        } else {
            assert(files2[i] == fv);
        }
    }
}

/// The outcome of processing one request's body.
pub struct ProcessOutcome {
    pub files: Vec<PlannedFile>,
    pub error: Option<UploadError>,
}

/// Plans a file for each part in order, stopping at the first part whose
/// declared content type is missing or malformed; that part's error is
/// reported and no later part is processed.
#[verifier::loop_isolation(false)]
pub fn process_parts(parts: Vec<Part>) -> (out: ProcessOutcome)
    ensures
        files_match_parts(file_views(out.files@), views_of(parts@)),
        (match out.error {
            None => out.files@.len() == parts@.len(),
            Some(e) => out.files@.len() < parts@.len() && spec_resolve(
                views_of(parts@)[out.files@.len() as int].content_type,
            ) == Err::<Seq<u8>, UploadError>(e),
        }),
{
    let ghost orig = parts@;
    let mut rest = parts;
    let mut files: Vec<PlannedFile> = Vec::new();
    loop
        invariant
            files@.len() + rest@.len() == orig.len(),
            rest@ == orig.subrange(files@.len() as int, orig.len() as int),
            files_match_parts(file_views(files@), views_of(orig)),
        decreases rest@.len(),
    {
        if rest.is_empty() {
            return ProcessOutcome { files, error: None };
        }
        let part = rest.remove(0);
        let ghost k = files@.len() as int;
        proof {
            assert(part == orig[k]);
            assert(views_of(orig)[k] == orig[k]@);
            assert(rest@ =~= orig.subrange(k + 1, orig.len() as int));
        }
        let ext = match resolve_extension(&part.content_type) {
            Err(e) => {
                return ProcessOutcome { files, error: Some(e) };
            },
            Ok(ext) => ext,
        };
        let mut name = generate_token();
        let ghost tok = name@;
        name.push(46);
        let elen = ext.len();
        let mut q: usize = 0;
        while q < elen
            invariant
                q <= elen,
                elen == ext@.len(),
                name@ == tok + seq![46u8] + ext@.subrange(0, q as int),
            decreases elen - q,
        {
            name.push(ext[q]);
            proof {
                assert(name@ =~= tok + seq![46u8] + ext@.subrange(0, q + 1));
            }
            q += 1;
        }
        proof {
            assert(ext@.subrange(0, elen as int) =~= ext@);
            assert(named_for(name@, ext@));
        }
        let planned = PlannedFile { name, data: part.data };
        let ghost fv = planned@;
        let ghost prev = files@;
        files.push(planned);
        proof {
            assert(files@ == prev.push(planned));
            assert(file_views(files@) =~= file_views(prev).push(fv));
            assert(views_of(orig)[k].content_type == part@.content_type);
            assert(spec_resolve(views_of(orig)[k].content_type) == Ok::<
                Seq<u8>,
                UploadError,
            >(ext@));
            assert(fv.data == views_of(orig)[k].data);
            assert(named_for(fv.name, ext@));
            assert(file_matches_part(fv, views_of(orig)[k]));
            lemma_files_match_push(file_views(prev), views_of(orig), fv);
        }
    }
}

/// Decodes `body` against `boundary` and plans a file for every part
/// delimited and validly typed before the first failure. The reported
/// error is the first one met in decode order: a part's content-type error
/// if any part has one, else the framing error of an incomplete body.
pub fn process_body(body: &[u8], boundary: &[u8]) -> (out: ProcessOutcome)
    ensures
        processed(parse_body(body@, boundary@), file_views(out.files@), out.error),
{
    let parsed = parse_multipart(body, boundary);
    let complete = parsed.complete;
    let out = process_parts(parsed.parts);
    match out.error {
        Some(_) => out,
        None => {
            if complete {
                out
            } else {
                ProcessOutcome { files: out.files, error: Some(UploadError::MalformedBody) }
            }
        },
    }
}

/// Law: a well-formed body whose every part declares a resolvable content
/// type is processed whole — no error, exactly one planned file per part,
/// and each file's bytes are its part's bytes in order.
pub proof fn lemma_valid_request_stores_all(
    bv: BodyView,
    files: Seq<PlannedFileView>,
    error: Option<UploadError>,
)
    requires
        processed(bv, files, error),
        bv.complete,
        forall|i: int|
            0 <= i < bv.parts.len() ==> spec_resolve(
                #[trigger] bv.parts[i].content_type,
            ) is Ok,
    ensures
        error is None,
        files.len() == bv.parts.len(),
        forall|i: int| 0 <= i < files.len() ==> (#[trigger] files[i]).data == bv.parts[i].data,
{
    if error is Some {
        if files.len() < bv.parts.len() {
            assert(spec_resolve(bv.parts[files.len() as int].content_type) is Ok);
        }
    }
    assert forall|i: int| 0 <= i < files.len() implies (#[trigger] files[i]).data
        == bv.parts[i].data by {
        assert(file_matches_part(files[i], bv.parts[i]));
    }
}

/// Law: when the first part with an unresolvable content type stands at
/// position `k`, processing fails with exactly that part's error, and the
/// files planned for the `k` earlier parts remain — current behaviour, not
/// a rollback.
pub proof fn lemma_first_invalid_part_stops(
    bv: BodyView,
    files: Seq<PlannedFileView>,
    error: Option<UploadError>,
    k: int,
)
    requires
        processed(bv, files, error),
        0 <= k < bv.parts.len(),
        spec_resolve(bv.parts[k].content_type) is Err,
        forall|i: int|
            0 <= i < k ==> spec_resolve(#[trigger] bv.parts[i].content_type) is Ok,
    ensures
        error == Some(spec_resolve(bv.parts[k].content_type)->Err_0),
        files.len() == k,
        forall|i: int| 0 <= i < k ==> (#[trigger] files[i]).data == bv.parts[i].data,
{
    if files.len() > k {
        assert(file_matches_part(files[k], bv.parts[k]));
        assert(spec_resolve(bv.parts[k].content_type) is Ok);
    }
    if files.len() < k {
        assert(spec_resolve(bv.parts[files.len() as int].content_type) is Ok);
    }
    assert forall|i: int| 0 <= i < k implies (#[trigger] files[i]).data
        == bv.parts[i].data by {
        assert(file_matches_part(files[i], bv.parts[i]));
    }
}

/// The bytes of `text/plain`.
pub open spec fn text_plain_type() -> Seq<u8> {
    seq![116u8, 101u8, 120u8, 116u8, 47u8, 112u8, 108u8, 97u8, 105u8, 110u8]
}

/// The bytes of `plain`.
pub open spec fn plain_extension() -> Seq<u8> {
    seq![112u8, 108u8, 97u8, 105u8, 110u8]
}

/// `text/plain` resolves to the extension `plain`.
proof fn lemma_text_plain_extension()
    ensures
        crate::content_type::spec_extension(text_plain_type()) == Some(plain_extension()),
{
    let ct = text_plain_type();
    let slash = seq![47u8];
    assert(!crate::bytes::matches_at(ct, slash, 0)) by {
        if crate::bytes::matches_at(ct, slash, 0) {
            assert(ct.subrange(0, 1)[0] == ct[0]);
        }
    }
    assert(!crate::bytes::matches_at(ct, slash, 1)) by {
        if crate::bytes::matches_at(ct, slash, 1) {
            assert(ct.subrange(1, 2)[0] == ct[1]);
        }
    }
    assert(!crate::bytes::matches_at(ct, slash, 2)) by {
        if crate::bytes::matches_at(ct, slash, 2) {
            assert(ct.subrange(2, 3)[0] == ct[2]);
        }
    }
    assert(!crate::bytes::matches_at(ct, slash, 3)) by {
        if crate::bytes::matches_at(ct, slash, 3) {
            assert(ct.subrange(3, 4)[0] == ct[3]);
        }
    }
    assert(ct.subrange(4, 5) =~= slash);
    assert(crate::bytes::matches_at(ct, slash, 4));
    crate::bytes::lemma_first_match_some(ct, slash, 0, 4);
    let sub = ct.subrange(5, 10);
    assert(sub =~= plain_extension());
    assert(crate::content_type::valid_extension(sub)) by {
        assert(sub[0] == 112 && sub[1] == 108 && sub[2] == 97 && sub[3] == 105 && sub[4]
            == 110);
    }
}

/// Law: a stored part that declared `text/plain` keeps its bytes exactly,
/// under a name that joins a fresh token, a dot and `plain`.
pub proof fn lemma_plain_round_trip(
    bv: BodyView,
    files: Seq<PlannedFileView>,
    error: Option<UploadError>,
    k: int,
)
    requires
        processed(bv, files, error),
        0 <= k < files.len(),
        bv.parts[k].content_type == Some(text_plain_type()),
    ensures
        files[k].data == bv.parts[k].data,
        named_for(files[k].name, plain_extension()),
{
    assert(file_matches_part(files[k], bv.parts[k]));
    lemma_text_plain_extension();
}

} // verus!
