use multipart_upload::boundary::parse_boundary;
use multipart_upload::content_type::resolve_extension;
use multipart_upload::errors::UploadError;
use multipart_upload::handler::{
    bad_request_response, completion_response, failure_response, handle_request,
    success_response, HandleOutcome,
};
use multipart_upload::multipart::parse_multipart;
use multipart_upload::process::{process_body, ProcessOutcome};
use multipart_upload::token::generate_token;

fn is_alnum(b: u8) -> bool {
    (48..=57).contains(&b) || (65..=90).contains(&b) || (97..=122).contains(&b)
}

fn assert_planned_name(name: &[u8], ext: &[u8]) {
    assert_eq!(name.len(), 30 + 1 + ext.len());
    assert!(name[..30].iter().all(|&b| is_alnum(b)));
    assert_eq!(name[30], b'.');
    assert_eq!(&name[31..], ext);
}

#[test]
fn scenario_single_png_part() {
    let body: Vec<u8> = b"--X\r\nContent-Disposition: form-data; name=\"f\"\r\n\
Content-Type: image/png\r\n\r\n0123456789\r\n--X--"
        .to_vec();
    let header: Option<Vec<u8>> = Some(b"multipart/form-data; boundary=X".to_vec());
    match handle_request(&header, &body) {
        HandleOutcome::Rejected(_) => panic!("request with a boundary was rejected"),
        HandleOutcome::Process { files, error } => {
            assert!(error.is_none());
            assert_eq!(files.len(), 1);
            assert_planned_name(&files[0].name, b"png");
            assert_eq!(files[0].data, b"0123456789".to_vec());
            let resp = completion_response(false, &error);
            assert_eq!(resp.status, 200);
            assert_eq!(resp.body, "Success".to_string());
        }
    }
}

#[test]
fn missing_content_type_header_is_rejected() {
    let out = handle_request(&None, b"--X\r\n\r\nabc\r\n--X--");
    match out {
        HandleOutcome::Rejected(r) => {
            assert_eq!(r.status, 400);
            assert_eq!(r.body, "BAD REQUEST".to_string());
        }
        HandleOutcome::Process { .. } => panic!("request without headers was processed"),
    }
}

#[test]
fn header_without_boundary_is_rejected() {
    let header: Option<Vec<u8>> = Some(b"multipart/form-data".to_vec());
    match handle_request(&header, b"--X\r\n\r\nabc\r\n--X--") {
        HandleOutcome::Rejected(r) => assert_eq!(r.status, 400),
        HandleOutcome::Process { .. } => panic!("request without a boundary was processed"),
    }
}

#[test]
fn non_multipart_header_is_rejected() {
    let header: Option<Vec<u8>> = Some(b"text/plain; boundary=X".to_vec());
    match handle_request(&header, b"--X\r\n\r\nabc\r\n--X--") {
        HandleOutcome::Rejected(r) => assert_eq!(r.status, 400),
        HandleOutcome::Process { .. } => panic!("non-multipart request was processed"),
    }
}

#[test]
fn two_parts_yield_two_files_in_order() {
    let body: Vec<u8> = b"--bnd\r\nContent-Type: text/plain\r\n\r\nfirst part\r\n\
--bnd\r\nContent-Type: image/png\r\n\r\nsecond\r\n--bnd--"
        .to_vec();
    let out = process_body(&body, b"bnd");
    assert!(out.error.is_none());
    assert_eq!(out.files.len(), 2);
    assert_eq!(out.files[0].data, b"first part".to_vec());
    assert_planned_name(&out.files[0].name, b"plain");
    assert_eq!(out.files[1].data, b"second".to_vec());
    assert_planned_name(&out.files[1].name, b"png");
}

#[test]
fn missing_part_content_type_fails_and_keeps_earlier_files() {
    let body: Vec<u8> = b"--b\r\nContent-Type: text/plain\r\n\r\nok\r\n\
--b\r\nContent-Disposition: form-data; name=\"x\"\r\n\r\nuntyped\r\n--b--"
        .to_vec();
    let ProcessOutcome { files, error } = process_body(&body, b"b");
    assert_eq!(error, Some(UploadError::MissingContentType));
    assert_eq!(files.len(), 1);
    assert_eq!(files[0].data, b"ok".to_vec());
}

#[test]
fn malformed_part_content_type_fails_request() {
    let body: Vec<u8> = b"--b\r\nContent-Type: noslash\r\n\r\ndata\r\n--b--".to_vec();
    let ProcessOutcome { files, error } = process_body(&body, b"b");
    assert_eq!(error, Some(UploadError::MalformedContentType));
    assert_eq!(files.len(), 0);
}

#[test]
fn tokens_have_shape_and_differ() {
    let a = generate_token();
    let b = generate_token();
    assert_eq!(a.len(), 30);
    assert_eq!(b.len(), 30);
    assert!(a.iter().all(|&x| is_alnum(x)));
    assert!(b.iter().all(|&x| is_alnum(x)));
    assert_ne!(a, b);
}

#[test]
fn plain_text_round_trip_preserves_bytes() {
    let payload: Vec<u8> = vec![0u8, 1, 2, 3, 10, 13, 65, 255, 128, 7];
    let mut body: Vec<u8> = b"--rt\r\nContent-Type: text/plain\r\n\r\n".to_vec();
    body.extend_from_slice(&payload);
    body.extend_from_slice(b"\r\n--rt--");
    let out = process_body(&body, b"rt");
    assert!(out.error.is_none());
    assert_eq!(out.files.len(), 1);
    assert_planned_name(&out.files[0].name, b"plain");
    assert_eq!(out.files[0].data, payload);
}

#[test]
fn quoted_and_case_insensitive_boundary() {
    assert_eq!(
        parse_boundary(b"multipart/form-data; boundary=\"abc\""),
        Some(b"abc".to_vec())
    );
    assert_eq!(
        parse_boundary(b"MULTIPART/Form-Data; BOUNDARY=abc"),
        Some(b"abc".to_vec())
    );
    assert_eq!(
        parse_boundary(b"multipart/mixed; charset=utf-8; boundary=zz9"),
        Some(b"zz9".to_vec())
    );
    assert_eq!(parse_boundary(b"multipart/form-data; boundary="), None);
    assert_eq!(parse_boundary(b"multipart/form-data; boundary=\"\""), None);
    assert_eq!(parse_boundary(b"application/json"), None);
}

#[test]
fn body_without_opening_boundary_is_malformed() {
    let ProcessOutcome { files, error } = process_body(b"random bytes", b"b");
    assert_eq!(error, Some(UploadError::MalformedBody));
    assert_eq!(files.len(), 0);
}

#[test]
fn truncated_body_keeps_delimited_parts() {
    let body: Vec<u8> =
        b"--b\r\nContent-Type: text/plain\r\n\r\nwhole\r\n--b\r\nContent-Type: text/plain\r\n\r\ncut off"
            .to_vec();
    let ProcessOutcome { files, error } = process_body(&body, b"b");
    assert_eq!(error, Some(UploadError::MalformedBody));
    assert_eq!(files.len(), 1);
    assert_eq!(files[0].data, b"whole".to_vec());
}

#[test]
fn empty_multipart_body_succeeds_with_no_files() {
    let ProcessOutcome { files, error } = process_body(b"--b--", b"b");
    assert!(error.is_none());
    assert_eq!(files.len(), 0);
}

#[test]
fn part_header_name_is_case_insensitive_and_value_trimmed() {
    let body: Vec<u8> =
        b"--b\r\nCONTENT-TYPE:   text/plain  \r\n\r\nx\r\n--b--".to_vec();
    let out = process_body(&body, b"b");
    assert!(out.error.is_none());
    assert_eq!(out.files.len(), 1);
    assert_planned_name(&out.files[0].name, b"plain");
}

#[test]
fn extension_resolution_cases() {
    assert_eq!(
        resolve_extension(&Some(b"image/png".to_vec())),
        Ok(b"png".to_vec())
    );
    assert_eq!(resolve_extension(&None), Err(UploadError::MissingContentType));
    assert_eq!(
        resolve_extension(&Some(b"plain".to_vec())),
        Err(UploadError::MalformedContentType)
    );
    assert_eq!(
        resolve_extension(&Some(b"image/".to_vec())),
        Err(UploadError::MalformedContentType)
    );
    assert_eq!(
        resolve_extension(&Some(b"a/b/c".to_vec())),
        Err(UploadError::MalformedContentType)
    );
    assert_eq!(
        resolve_extension(&Some(b"image/p..g".to_vec())),
        Err(UploadError::MalformedContentType)
    );
    assert_eq!(
        resolve_extension(&Some(b"image/p\\g".to_vec())),
        Err(UploadError::MalformedContentType)
    );
}

#[test]
fn responses_carry_fixed_texts() {
    let r = bad_request_response();
    assert_eq!(r.status, 400);
    assert_eq!(r.body, "BAD REQUEST".to_string());
    let s = success_response();
    assert_eq!(s.status, 200);
    assert_eq!(s.body, "Success".to_string());
    let f = failure_response(&UploadError::MalformedBody);
    assert_eq!(f.status, 500);
    assert_eq!(
        f.body,
        "INTERNAL SERVER ERROR: malformed multipart body".to_string()
    );
    let w = completion_response(true, &None);
    assert_eq!(w.status, 500);
    assert_eq!(
        w.body,
        "INTERNAL SERVER ERROR: writing an uploaded file failed".to_string()
    );
    let e = completion_response(false, &Some(UploadError::MissingContentType));
    assert_eq!(e.status, 500);
    assert_eq!(
        e.body,
        "INTERNAL SERVER ERROR: a part declares no content type".to_string()
    );
}

#[test]
fn parser_reports_declared_content_types() {
    let body: Vec<u8> =
        b"--q\r\nContent-Type: application/json\r\nX-Other: 1\r\n\r\n{}\r\n--q--".to_vec();
    let out = parse_multipart(&body, b"q");
    assert!(out.complete);
    assert_eq!(out.parts.len(), 1);
    assert_eq!(out.parts[0].content_type, Some(b"application/json".to_vec()));
    assert_eq!(out.parts[0].data, b"{}".to_vec());
}
