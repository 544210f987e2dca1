use aws_smithy_types::primitive::Parse;
use smithy_server::any_rejections::{Eight, Three, Two};
use smithy_server::rejection::{CauseOrigin, ErrorCause, MissingContentTypeReason, RequestRejection, ResponseRejection};
use smithy_server::response::{IntoResponse, Response};

#[test]
fn int_parse_error_converts_to_int_parse() {
    let e = "x".parse::<i32>().unwrap_err();
    let r = RequestRejection::from(e);
    assert!(matches!(r, RequestRejection::IntParse(_)));
    assert_eq!(r.to_string(), "IntParse");
}

#[test]
fn float_and_bool_parse_errors_convert() {
    let r = RequestRejection::from("x".parse::<f64>().unwrap_err());
    assert_eq!(r.to_string(), "FloatParse");
    let r = RequestRejection::from("x".parse::<bool>().unwrap_err());
    assert_eq!(r.to_string(), "BoolParse");
}

#[test]
fn utf8_and_urlencoded_errors_convert_to_invalid_utf8() {
    let bytes = vec![0xffu8];
    let r = RequestRejection::from(std::str::from_utf8(&bytes).unwrap_err());
    assert_eq!(r.to_string(), "InvalidUtf8");
    let e = serde_urlencoded::from_str::<Vec<(String, u32)>>("a=b").unwrap_err();
    let r = RequestRejection::from(e);
    assert_eq!(r.to_string(), "InvalidUtf8");
}

#[test]
fn smithy_errors_convert() {
    let e = aws_smithy_json::deserialize::error::DeserializeError::custom("bad json");
    assert_eq!(RequestRejection::from(e).to_string(), "JsonDeserialize");
    let e = aws_smithy_xml::decode::XmlDecodeError::custom("bad xml");
    assert_eq!(RequestRejection::from(e).to_string(), "XmlDeserialize");
    let e = aws_smithy_types::DateTime::from_str("x", aws_smithy_types::date_time::Format::DateTime)
        .unwrap_err();
    assert_eq!(RequestRejection::from(e).to_string(), "DateTimeParse");
    let e = <i32 as Parse>::parse_smithy_primitive("x").unwrap_err();
    assert_eq!(RequestRejection::from(e).to_string(), "PrimitiveParse");
}

#[test]
fn nom_error_converts_to_uri_pattern_mismatch() {
    let input = String::from("abc");
    let e: nom::Err<nom::error::Error<&str>> =
        nom::Err::Error(nom::error::Error::new(input.as_str(), nom::error::ErrorKind::Tag));
    let r = RequestRejection::from(e);
    drop(input);
    match r {
        RequestRejection::UriPatternMismatch(cause) => assert!(!cause.description().is_empty()),
        other => panic!("unexpected {}", other.to_string()),
    }
}

#[test]
fn missing_content_type_reason_converts() {
    let r = RequestRejection::from(MissingContentTypeReason::NoContentTypeHeader);
    assert!(matches!(
        r,
        RequestRejection::MissingContentType(MissingContentTypeReason::NoContentTypeHeader)
    ));
    let mime_err = "not a mime".parse::<mime::Mime>().unwrap_err();
    let r = RequestRejection::from(MissingContentTypeReason::MimeParseError(mime_err));
    assert_eq!(r.to_string(), "MissingContentType");
    let r = RequestRejection::from(MissingContentTypeReason::UnexpectedMimeType {
        expected_mime: Some(mime::APPLICATION_JSON),
        found_mime: None,
    });
    assert_eq!(r.to_string(), "MissingContentType");
}

#[test]
fn http_error_converts_to_response_http() {
    let e = http::Response::builder().status(1000).body(()).unwrap_err();
    let r = ResponseRejection::from(e);
    assert!(matches!(r, ResponseRejection::Http(_)));
    assert_eq!(r.to_string(), "Http");
    assert_eq!(ResponseRejection::InvalidHttpStatusCode.to_string(), "InvalidHttpStatusCode");
}

#[test]
fn error_cause_keeps_its_description() {
    let cause = ErrorCause::new(String::from("body stream closed"));
    assert_eq!(cause.description(), "body stream closed");
    let r = RequestRejection::HttpBody(cause);
    assert_eq!(r.to_string(), "HttpBody");
    assert_eq!(
        RequestRejection::ConstraintViolation(String::from("too long")).to_string(),
        "ConstraintViolation"
    );
    assert_eq!(
        RequestRejection::UriPatternGreedyLabelPostfixNotFound.to_string(),
        "UriPatternGreedyLabelPostfixNotFound"
    );
}

#[test]
fn any_rejection_turns_whichever_member_it_holds() {
    let a: Two<Response, Response> = Two::A(Response::empty(400));
    assert_eq!(<Two<Response, Response> as IntoResponse<()>>::into_response(a).status, 400);
    let b: Two<Response, Response> = Two::B(Response::empty(418));
    assert_eq!(<Two<Response, Response> as IntoResponse<()>>::into_response(b).status, 418);
    let c: Three<Response, Response, Response> = Three::C(Response::empty(500));
    assert_eq!(
        <Three<Response, Response, Response> as IntoResponse<()>>::into_response(c).status,
        500
    );
    type E8 = Eight<Response, Response, Response, Response, Response, Response, Response, Response>;
    let h: E8 = Eight::H(Response { status: 503, body: b"busy".to_vec() });
    let resp = <E8 as IntoResponse<()>>::into_response(h);
    assert_eq!((resp.status, resp.body), (503, b"busy".to_vec()));
}

#[test]
fn conversions_keep_their_cause() {
    match RequestRejection::from("x".parse::<i32>().unwrap_err()) {
        RequestRejection::IntParse(cause) => {
            assert_eq!(cause.origin(), CauseOrigin::Int);
            assert_eq!(cause.description(), "invalid digit found in string");
        }
        other => panic!("unexpected {}", other.to_string()),
    }
    let input = String::from("abc");
    let e = nom::Err::Error(nom::error::Error::new(input.as_str(), nom::error::ErrorKind::Tag));
    match RequestRejection::from(e) {
        RequestRejection::UriPatternMismatch(cause) => assert_eq!(cause.origin(), CauseOrigin::Nom),
        other => panic!("unexpected {}", other.to_string()),
    }
    assert_eq!(ErrorCause::new(String::from("m")).origin(), CauseOrigin::Message);
}
