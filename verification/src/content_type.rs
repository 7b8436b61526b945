//! Resolves a part's declared `type/subtype` content type to the extension
//! of the stored file: the subtype, taken after the first slash, rejected
//! when it is empty or could steer the resulting path (a separator or a
//! traversal sequence).
use vstd::prelude::*;

use crate::bytes::{find_byte_bounded, first_match, opt_bytes};
use crate::errors::UploadError;

verus! {

/// A subtype usable as a file extension: non-empty, no path separators and
/// no `..` traversal sequence.
pub open spec fn valid_extension(sub: Seq<u8>) -> bool {
    &&& sub.len() > 0
    &&& forall|i: int| 0 <= i < sub.len() ==> sub[i] != 47 && sub[i] != 92
    &&& forall|i: int| 0 <= i && i + 1 < sub.len() ==> !(#[trigger] sub[i] == 46 && sub[i + 1] == 46)
}

/// The extension derived from a declared content type: everything after the
/// first `/`, provided it is a valid extension.
pub open spec fn spec_extension(ct: Seq<u8>) -> Option<Seq<u8>> {
    match first_match(ct, seq![47u8], 0) {
        None => None,
        Some(i) => {
            let sub = ct.subrange(i + 1, ct.len() as int);
            if valid_extension(sub) {
                Some(sub)
            } else {
                None
            }
        },
    }
}

/// What resolving an optional declared content type yields: the extension,
/// or the error owed for a missing or malformed declaration.
pub open spec fn spec_resolve(ct: Option<Seq<u8>>) -> Result<Seq<u8>, UploadError> {
    match ct {
        None => Err(UploadError::MissingContentType),
        Some(s) => match spec_extension(s) {
            None => Err(UploadError::MalformedContentType),
            Some(e) => Ok(e),
        },
    }
}

/// Maps a part's declared content type to the extension of the stored file.
/// A missing declaration is `MissingContentType`; one without a `/`, or
/// whose subtype is empty or carries `/`, `\` or `..`, is
/// `MalformedContentType`.
#[verifier::loop_isolation(false)]
pub fn resolve_extension(ct: &Option<Vec<u8>>) -> (r: Result<Vec<u8>, UploadError>)
    ensures
        match r {
            Ok(ext) => spec_resolve(opt_bytes(*ct)) == Ok::<Seq<u8>, UploadError>(ext@),
            Err(e) => spec_resolve(opt_bytes(*ct)) == Err::<Seq<u8>, UploadError>(e),
        },
{
    let s = match ct {
        None => {
            return Err(UploadError::MissingContentType);
        },
        Some(s) => s,
    };
    let len = s.len();
    proof {
        assert(s@.subrange(0, s@.len() as int) =~= s@);
    }
    let slash = match find_byte_bounded(s.as_slice(), 0, len, 47) {
        None => {
            return Err(UploadError::MalformedContentType);
        },
        Some(i) => i,
    };
    let ghost sub = s@.subrange(slash + 1, s@.len() as int);
    if len - slash == 1 {
        return Err(UploadError::MalformedContentType);
    }
    let mut j: usize = slash + 1;
    while j < len
        invariant
            slash + 1 <= j <= len,
            len == s@.len(),
            slash < len,
            sub == s@.subrange(slash + 1, s@.len() as int),
            forall|k: int| slash + 1 <= k < j ==> s@[k] != 47 && s@[k] != 92,
            forall|k: int|
                slash + 1 <= k < j && k + 1 < len ==> !(#[trigger] s@[k] == 46 && s@[k
                    + 1] == 46),
        decreases len - j,
    {
        if s[j] == 47 || s[j] == 92 {
            proof {
                assert(sub[j - slash - 1] == s@[j as int]);
            }
            return Err(UploadError::MalformedContentType);
        }
        if j + 1 < len && s[j] == 46 && s[j + 1] == 46 {
            proof {
                assert(sub[j - slash - 1] == s@[j as int]);
                assert(sub[j - slash] == s@[j + 1]);
            }
            return Err(UploadError::MalformedContentType);
        }
        j += 1;
    }
    proof {
        assert(valid_extension(sub)) by {
            assert(forall|i: int|
                0 <= i < sub.len() ==> sub[i] == s@[slash + 1 + i] && sub[i] != 47
                    && sub[i] != 92);
            assert forall|i: int| 0 <= i && i + 1 < sub.len() implies !(#[trigger] sub[i]
                == 46 && sub[i + 1] == 46) by {
                assert(sub[i] == s@[slash + 1 + i]);
                assert(sub[i + 1] == s@[slash + 1 + i + 1]);
            }
        }
    }
    let ext = vstd::slice::slice_to_vec(&s.as_slice()[slash + 1..len]);
    Ok(ext)
}

} // verus!
