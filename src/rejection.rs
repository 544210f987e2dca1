//! Rejections: why a request could not be deserialized into an operation
//! input, or an operation output could not be serialized into a response.
//! They name the failure precisely and keep its underlying cause for
//! diagnostics; a protocol layer maps them to what goes on the wire.
use vstd::prelude::*;
use vstd::std_specs::convert::FromSpecImpl;
use std::num::{ParseFloatError, ParseIntError};
use std::str::{ParseBoolError, Utf8Error};

verus! {

#[verifier::external_type_specification]
#[verifier::external_body]
pub struct ExParseIntError(std::num::ParseIntError);

#[verifier::external_type_specification]
#[verifier::external_body]
pub struct ExParseFloatError(std::num::ParseFloatError);

#[verifier::external_type_specification]
#[verifier::external_body]
pub struct ExParseBoolError(std::str::ParseBoolError);

#[verifier::external_type_specification]
#[verifier::external_body]
pub struct ExUtf8Error(std::str::Utf8Error);

#[verifier::external_type_specification]
#[verifier::external_body]
pub struct ExHyperError(hyper::Error);

#[verifier::external_type_specification]
#[verifier::external_body]
pub struct ExHttpError(http::Error);

#[verifier::external_type_specification]
#[verifier::external_body]
pub struct ExToStrError(http::header::ToStrError);

#[verifier::external_type_specification]
#[verifier::external_body]
pub struct ExMime(mime::Mime);

#[verifier::external_type_specification]
#[verifier::external_body]
pub struct ExMimeFromStrError(mime::FromStrError);

#[verifier::external_type_specification]
#[verifier::external_body]
pub struct ExUrlEncodedError(serde_urlencoded::de::Error);

#[verifier::external_type_specification]
#[verifier::external_body]
pub struct ExJsonDeserializeError(aws_smithy_json::deserialize::error::DeserializeError);

#[verifier::external_type_specification]
#[verifier::external_body]
pub struct ExXmlDecodeError(aws_smithy_xml::decode::XmlDecodeError);

#[verifier::external_type_specification]
#[verifier::external_body]
pub struct ExDateTimeParseError(aws_smithy_types::date_time::DateTimeParseError);

#[verifier::external_type_specification]
#[verifier::external_body]
pub struct ExPrimitiveParseError(aws_smithy_types::primitive::PrimitiveParseError);

#[verifier::external_type_specification]
#[verifier::external_body]
#[verifier::reject_recursive_types(E)]
pub struct ExNomErr<E>(nom::Err<E>);

#[verifier::external_type_specification]
#[verifier::external_body]
#[verifier::reject_recursive_types(I)]
pub struct ExNomError<I>(nom::error::Error<I>);

/// Relies on nom's `Err::to_owned`, which copies the input that a parse
/// error points into, so that the error outlives that input.
#[verifier::external_body]
fn owned_nom_error(e: nom::Err<nom::error::Error<&str>>) -> nom::Err<nom::error::Error<String>> {
    e.to_owned()
}

/// Where a cause came from; each holds the error value it was made from.
#[derive(Debug)]
enum Source {
    Int(ParseIntError),
    Float(ParseFloatError),
    Bool(ParseBoolError),
    Utf8(Utf8Error),
    Hyper(hyper::Error),
    Http(http::Error),
    UrlEncoded(serde_urlencoded::de::Error),
    Json(aws_smithy_json::deserialize::error::DeserializeError),
    Xml(aws_smithy_xml::decode::XmlDecodeError),
    DateTime(aws_smithy_types::date_time::DateTimeParseError),
    Primitive(aws_smithy_types::primitive::PrimitiveParseError),
    Nom(nom::Err<nom::error::Error<String>>),
    Message(String),
}

/// Which kind of error a cause was made from.
#[derive(Clone, Copy, Debug, PartialEq, Eq, Structural)]
pub enum CauseOrigin {
    Int,
    Float,
    Bool,
    Utf8,
    Hyper,
    Http,
    UrlEncoded,
    Json,
    Xml,
    DateTime,
    Primitive,
    Nom,
    Message,
}

/// The underlying cause of a rejection, kept only to describe it: callers
/// cannot look into which error it was.
#[derive(Debug)]
pub struct ErrorCause {
    source: Source,
}

impl ErrorCause {
    /// A cause known only by its description.
    pub fn new(description: String) -> (r: ErrorCause)
        ensures
            r.described_as() == Some(description@),
            r.origin_of() == CauseOrigin::Message,
    {
        ErrorCause { source: Source::Message(description) }
    }

    /// Which kind of error the cause was made from.
    pub closed spec fn origin_of(&self) -> CauseOrigin {
        match self.source {
            Source::Int(_) => CauseOrigin::Int,
            Source::Float(_) => CauseOrigin::Float,
            Source::Bool(_) => CauseOrigin::Bool,
            Source::Utf8(_) => CauseOrigin::Utf8,
            Source::Hyper(_) => CauseOrigin::Hyper,
            Source::Http(_) => CauseOrigin::Http,
            Source::UrlEncoded(_) => CauseOrigin::UrlEncoded,
            Source::Json(_) => CauseOrigin::Json,
            Source::Xml(_) => CauseOrigin::Xml,
            Source::DateTime(_) => CauseOrigin::DateTime,
            Source::Primitive(_) => CauseOrigin::Primitive,
            Source::Nom(_) => CauseOrigin::Nom,
            Source::Message(_) => CauseOrigin::Message,
        }
    }

    /// Which kind of error the cause was made from.
    pub fn origin(&self) -> (r: CauseOrigin)
        ensures
            r == self.origin_of(),
    {
        match &self.source {
            Source::Int(_) => CauseOrigin::Int,
            Source::Float(_) => CauseOrigin::Float,
            Source::Bool(_) => CauseOrigin::Bool,
            Source::Utf8(_) => CauseOrigin::Utf8,
            Source::Hyper(_) => CauseOrigin::Hyper,
            Source::Http(_) => CauseOrigin::Http,
            Source::UrlEncoded(_) => CauseOrigin::UrlEncoded,
            Source::Json(_) => CauseOrigin::Json,
            Source::Xml(_) => CauseOrigin::Xml,
            Source::DateTime(_) => CauseOrigin::DateTime,
            Source::Primitive(_) => CauseOrigin::Primitive,
            Source::Nom(_) => CauseOrigin::Nom,
            Source::Message(_) => CauseOrigin::Message,
        }
    }

    /// The description given to `new`, for a cause made that way.
    pub closed spec fn described_as(&self) -> Option<Seq<char>> {
        match self.source {
            Source::Message(m) => Some(m@),
            _ => None,
        }
    }

    /// A description of the cause, for diagnostics.
    pub fn description(&self) -> (r: String)
        ensures
            self.described_as() matches Some(d) ==> r@ == d,
    {
        match &self.source {
            Source::Int(e) => e.to_string(),
            Source::Float(e) => e.to_string(),
            Source::Bool(e) => e.to_string(),
            Source::Utf8(e) => e.to_string(),
            Source::Hyper(e) => e.to_string(),
            Source::Http(e) => e.to_string(),
            Source::UrlEncoded(e) => e.to_string(),
            Source::Json(e) => e.to_string(),
            Source::Xml(e) => e.to_string(),
            Source::DateTime(e) => e.to_string(),
            Source::Primitive(e) => e.to_string(),
            Source::Nom(e) => e.to_string(),
            Source::Message(m) => m.clone(),
        }
    }
}

/// Why the content type of a request was refused.
#[derive(Debug)]
pub enum MissingContentTypeReason {
    HeadersTakenByAnotherExtractor,
    NoContentTypeHeader,
    ToStrError(http::header::ToStrError),
    MimeParseError(mime::FromStrError),
    UnexpectedMimeType { expected_mime: Option<mime::Mime>, found_mime: Option<mime::Mime> },
}

/// Errors that can occur when deserializing an HTTP request into an
/// operation input. The variants are roughly in the order in which a
/// request is processed.
#[derive(Debug)]
pub enum RequestRejection {
    /// Used when the request body cannot be read.
    HttpBody(ErrorCause),
    /// Used when checking the `Content-Type` header.
    MissingContentType(MissingContentTypeReason),
    /// Used when the body cannot be deserialized from JSON into the modeled input.
    JsonDeserialize(ErrorCause),
    /// Used when the body cannot be deserialized from XML into the modeled input.
    XmlDeserialize(ErrorCause),
    /// Used when a header bound to an input member cannot be parsed.
    HeaderParse(ErrorCause),
    /// Used when the literal after a greedy label is not found in the request's path.
    UriPatternGreedyLabelPostfixNotFound,
    /// Used when the request's path does not parse against the URI pattern.
    UriPatternMismatch(ErrorCause),
    /// Used when percent-decoding the query string or a path label does not give UTF-8.
    InvalidUtf8(ErrorCause),
    /// Used when a query value or path label is not a valid date-time.
    DateTimeParse(ErrorCause),
    /// Used when a query value or path label is not a valid primitive value.
    PrimitiveParse(ErrorCause),
    /// Used when a query value or path label is not a valid integer.
    IntParse(ErrorCause),
    /// Used when a query value or path label is not a valid floating-point number.
    FloatParse(ErrorCause),
    /// Used when a query value or path label is not a valid boolean.
    BoolParse(ErrorCause),
    /// Used when the collected input violates a constraint; holds a description.
    ConstraintViolation(String),
}

/// The kind of a request rejection: its variant, without what it holds.
#[derive(Clone, Copy, Debug, PartialEq, Eq, Structural)]
pub enum RequestRejectionKind {
    HttpBody,
    MissingContentType,
    JsonDeserialize,
    XmlDeserialize,
    HeaderParse,
    UriPatternGreedyLabelPostfixNotFound,
    UriPatternMismatch,
    InvalidUtf8,
    DateTimeParse,
    PrimitiveParse,
    IntParse,
    FloatParse,
    BoolParse,
    ConstraintViolation,
}

/// Errors that can occur when serializing an operation output into an HTTP
/// response.
#[derive(Debug)]
pub enum ResponseRejection {
    /// Used when the operation output gives a status code outside 100-999.
    InvalidHttpStatusCode,
    /// Used when a member bound to the body cannot be serialized.
    Build(ErrorCause),
    /// Used when the output cannot be serialized into the body.
    Serialization(ErrorCause),
    /// Used when the response cannot be assembled, for an invalid `Content-Type` or protocol header value.
    Http(ErrorCause),
}

/// The kind of a response rejection: its variant, without what it holds.
#[derive(Clone, Copy, Debug, PartialEq, Eq, Structural)]
pub enum ResponseRejectionKind {
    InvalidHttpStatusCode,
    Build,
    Serialization,
    Http,
}

impl RequestRejection {
    pub open spec fn kind(&self) -> RequestRejectionKind {
        match self {
            RequestRejection::HttpBody(_) => RequestRejectionKind::HttpBody,
            RequestRejection::MissingContentType(_) => RequestRejectionKind::MissingContentType,
            RequestRejection::JsonDeserialize(_) => RequestRejectionKind::JsonDeserialize,
            RequestRejection::XmlDeserialize(_) => RequestRejectionKind::XmlDeserialize,
            RequestRejection::HeaderParse(_) => RequestRejectionKind::HeaderParse,
            RequestRejection::UriPatternGreedyLabelPostfixNotFound => RequestRejectionKind::UriPatternGreedyLabelPostfixNotFound,
            RequestRejection::UriPatternMismatch(_) => RequestRejectionKind::UriPatternMismatch,
            RequestRejection::InvalidUtf8(_) => RequestRejectionKind::InvalidUtf8,
            RequestRejection::DateTimeParse(_) => RequestRejectionKind::DateTimeParse,
            RequestRejection::PrimitiveParse(_) => RequestRejectionKind::PrimitiveParse,
            RequestRejection::IntParse(_) => RequestRejectionKind::IntParse,
            RequestRejection::FloatParse(_) => RequestRejectionKind::FloatParse,
            RequestRejection::BoolParse(_) => RequestRejectionKind::BoolParse,
            RequestRejection::ConstraintViolation(_) => RequestRejectionKind::ConstraintViolation,
        }
    }

    /// The name of the rejection's kind.
    pub fn to_string(&self) -> (r: String)
        ensures
            r@ == request_kind_name(self.kind()),
    {
        let name = match self {
            RequestRejection::HttpBody(_) => "HttpBody",
            RequestRejection::MissingContentType(_) => "MissingContentType",
            RequestRejection::JsonDeserialize(_) => "JsonDeserialize",
            RequestRejection::XmlDeserialize(_) => "XmlDeserialize",
            RequestRejection::HeaderParse(_) => "HeaderParse",
            RequestRejection::UriPatternGreedyLabelPostfixNotFound => "UriPatternGreedyLabelPostfixNotFound",
            RequestRejection::UriPatternMismatch(_) => "UriPatternMismatch",
            RequestRejection::InvalidUtf8(_) => "InvalidUtf8",
            RequestRejection::DateTimeParse(_) => "DateTimeParse",
            RequestRejection::PrimitiveParse(_) => "PrimitiveParse",
            RequestRejection::IntParse(_) => "IntParse",
            RequestRejection::FloatParse(_) => "FloatParse",
            RequestRejection::BoolParse(_) => "BoolParse",
            RequestRejection::ConstraintViolation(_) => "ConstraintViolation",
        };
        String::from_str(name)
    }
}

/// The name of a request rejection kind.
pub open spec fn request_kind_name(k: RequestRejectionKind) -> Seq<char> {
    match k {
        RequestRejectionKind::HttpBody => "HttpBody"@,
        RequestRejectionKind::MissingContentType => "MissingContentType"@,
        RequestRejectionKind::JsonDeserialize => "JsonDeserialize"@,
        RequestRejectionKind::XmlDeserialize => "XmlDeserialize"@,
        RequestRejectionKind::HeaderParse => "HeaderParse"@,
        RequestRejectionKind::UriPatternGreedyLabelPostfixNotFound => "UriPatternGreedyLabelPostfixNotFound"@,
        RequestRejectionKind::UriPatternMismatch => "UriPatternMismatch"@,
        RequestRejectionKind::InvalidUtf8 => "InvalidUtf8"@,
        RequestRejectionKind::DateTimeParse => "DateTimeParse"@,
        RequestRejectionKind::PrimitiveParse => "PrimitiveParse"@,
        RequestRejectionKind::IntParse => "IntParse"@,
        RequestRejectionKind::FloatParse => "FloatParse"@,
        RequestRejectionKind::BoolParse => "BoolParse"@,
        RequestRejectionKind::ConstraintViolation => "ConstraintViolation"@,
    }
}

impl ResponseRejection {
    pub open spec fn kind(&self) -> ResponseRejectionKind {
        match self {
            ResponseRejection::InvalidHttpStatusCode => ResponseRejectionKind::InvalidHttpStatusCode,
            ResponseRejection::Build(_) => ResponseRejectionKind::Build,
            ResponseRejection::Serialization(_) => ResponseRejectionKind::Serialization,
            ResponseRejection::Http(_) => ResponseRejectionKind::Http,
        }
    }

    /// The name of the rejection's kind.
    pub fn to_string(&self) -> (r: String)
        ensures
            r@ == response_kind_name(self.kind()),
    {
        let name = match self {
            ResponseRejection::InvalidHttpStatusCode => "InvalidHttpStatusCode",
            ResponseRejection::Build(_) => "Build",
            ResponseRejection::Serialization(_) => "Serialization",
            ResponseRejection::Http(_) => "Http",
        };
        String::from_str(name)
    }
}

/// The name of a response rejection kind.
pub open spec fn response_kind_name(k: ResponseRejectionKind) -> Seq<char> {
    match k {
        ResponseRejectionKind::InvalidHttpStatusCode => "InvalidHttpStatusCode"@,
        ResponseRejectionKind::Build => "Build"@,
        ResponseRejectionKind::Serialization => "Serialization"@,
        ResponseRejectionKind::Http => "Http"@,
    }
}

impl From<MissingContentTypeReason> for RequestRejection {
    fn from(e: MissingContentTypeReason) -> (r: RequestRejection)
        ensures
            r == RequestRejection::MissingContentType(e),
    {
        RequestRejection::MissingContentType(e)
    }
}

impl FromSpecImpl<MissingContentTypeReason> for RequestRejection {
    open spec fn obeys_from_spec() -> bool {
        true
    }

    open spec fn from_spec(e: MissingContentTypeReason) -> RequestRejection {
        RequestRejection::MissingContentType(e)
    }
}

impl From<aws_smithy_json::deserialize::error::DeserializeError> for RequestRejection {
    fn from(e: aws_smithy_json::deserialize::error::DeserializeError) -> (r: RequestRejection)
        ensures
            r.kind() == RequestRejectionKind::JsonDeserialize,
            r matches RequestRejection::JsonDeserialize(c) && c.origin_of() == CauseOrigin::Json,
    {
        RequestRejection::JsonDeserialize(ErrorCause { source: Source::Json(e) })
    }
}

impl FromSpecImpl<aws_smithy_json::deserialize::error::DeserializeError> for RequestRejection {
    open spec fn obeys_from_spec() -> bool {
        true
    }

    closed spec fn from_spec(e: aws_smithy_json::deserialize::error::DeserializeError) -> RequestRejection {
        RequestRejection::JsonDeserialize(ErrorCause { source: Source::Json(e) })
    }
}

impl From<aws_smithy_xml::decode::XmlDecodeError> for RequestRejection {
    fn from(e: aws_smithy_xml::decode::XmlDecodeError) -> (r: RequestRejection)
        ensures
            r.kind() == RequestRejectionKind::XmlDeserialize,
            r matches RequestRejection::XmlDeserialize(c) && c.origin_of() == CauseOrigin::Xml,
    {
        RequestRejection::XmlDeserialize(ErrorCause { source: Source::Xml(e) })
    }
}

impl FromSpecImpl<aws_smithy_xml::decode::XmlDecodeError> for RequestRejection {
    open spec fn obeys_from_spec() -> bool {
        true
    }

    closed spec fn from_spec(e: aws_smithy_xml::decode::XmlDecodeError) -> RequestRejection {
        RequestRejection::XmlDeserialize(ErrorCause { source: Source::Xml(e) })
    }
}

impl From<aws_smithy_types::date_time::DateTimeParseError> for RequestRejection {
    fn from(e: aws_smithy_types::date_time::DateTimeParseError) -> (r: RequestRejection)
        ensures
            r.kind() == RequestRejectionKind::DateTimeParse,
            r matches RequestRejection::DateTimeParse(c) && c.origin_of() == CauseOrigin::DateTime,
    {
        RequestRejection::DateTimeParse(ErrorCause { source: Source::DateTime(e) })
    }
}

impl FromSpecImpl<aws_smithy_types::date_time::DateTimeParseError> for RequestRejection {
    open spec fn obeys_from_spec() -> bool {
        true
    }

    closed spec fn from_spec(e: aws_smithy_types::date_time::DateTimeParseError) -> RequestRejection {
        RequestRejection::DateTimeParse(ErrorCause { source: Source::DateTime(e) })
    }
}

impl From<aws_smithy_types::primitive::PrimitiveParseError> for RequestRejection {
    fn from(e: aws_smithy_types::primitive::PrimitiveParseError) -> (r: RequestRejection)
        ensures
            r.kind() == RequestRejectionKind::PrimitiveParse,
            r matches RequestRejection::PrimitiveParse(c) && c.origin_of() == CauseOrigin::Primitive,
    {
        RequestRejection::PrimitiveParse(ErrorCause { source: Source::Primitive(e) })
    }
}

impl FromSpecImpl<aws_smithy_types::primitive::PrimitiveParseError> for RequestRejection {
    open spec fn obeys_from_spec() -> bool {
        true
    }

    closed spec fn from_spec(e: aws_smithy_types::primitive::PrimitiveParseError) -> RequestRejection {
        RequestRejection::PrimitiveParse(ErrorCause { source: Source::Primitive(e) })
    }
}

impl From<ParseBoolError> for RequestRejection {
    fn from(e: ParseBoolError) -> (r: RequestRejection)
        ensures
            r.kind() == RequestRejectionKind::BoolParse,
            r matches RequestRejection::BoolParse(c) && c.origin_of() == CauseOrigin::Bool,
    {
        RequestRejection::BoolParse(ErrorCause { source: Source::Bool(e) })
    }
}

impl FromSpecImpl<ParseBoolError> for RequestRejection {
    open spec fn obeys_from_spec() -> bool {
        true
    }

    closed spec fn from_spec(e: ParseBoolError) -> RequestRejection {
        RequestRejection::BoolParse(ErrorCause { source: Source::Bool(e) })
    }
}

impl From<ParseFloatError> for RequestRejection {
    fn from(e: ParseFloatError) -> (r: RequestRejection)
        ensures
            r.kind() == RequestRejectionKind::FloatParse,
            r matches RequestRejection::FloatParse(c) && c.origin_of() == CauseOrigin::Float,
    {
        RequestRejection::FloatParse(ErrorCause { source: Source::Float(e) })
    }
}

impl FromSpecImpl<ParseFloatError> for RequestRejection {
    open spec fn obeys_from_spec() -> bool {
        true
    }

    closed spec fn from_spec(e: ParseFloatError) -> RequestRejection {
        RequestRejection::FloatParse(ErrorCause { source: Source::Float(e) })
    }
}

impl From<ParseIntError> for RequestRejection {
    fn from(e: ParseIntError) -> (r: RequestRejection)
        ensures
            r.kind() == RequestRejectionKind::IntParse,
            r matches RequestRejection::IntParse(c) && c.origin_of() == CauseOrigin::Int,
    {
        RequestRejection::IntParse(ErrorCause { source: Source::Int(e) })
    }
}

impl FromSpecImpl<ParseIntError> for RequestRejection {
    open spec fn obeys_from_spec() -> bool {
        true
    }

    closed spec fn from_spec(e: ParseIntError) -> RequestRejection {
        RequestRejection::IntParse(ErrorCause { source: Source::Int(e) })
    }
}

impl From<serde_urlencoded::de::Error> for RequestRejection {
    fn from(e: serde_urlencoded::de::Error) -> (r: RequestRejection)
        ensures
            r.kind() == RequestRejectionKind::InvalidUtf8,
            r matches RequestRejection::InvalidUtf8(c) && c.origin_of() == CauseOrigin::UrlEncoded,
    {
        RequestRejection::InvalidUtf8(ErrorCause { source: Source::UrlEncoded(e) })
    }
}

impl FromSpecImpl<serde_urlencoded::de::Error> for RequestRejection {
    open spec fn obeys_from_spec() -> bool {
        true
    }

    closed spec fn from_spec(e: serde_urlencoded::de::Error) -> RequestRejection {
        RequestRejection::InvalidUtf8(ErrorCause { source: Source::UrlEncoded(e) })
    }
}

impl From<Utf8Error> for RequestRejection {
    fn from(e: Utf8Error) -> (r: RequestRejection)
        ensures
            r.kind() == RequestRejectionKind::InvalidUtf8,
            r matches RequestRejection::InvalidUtf8(c) && c.origin_of() == CauseOrigin::Utf8,
    {
        RequestRejection::InvalidUtf8(ErrorCause { source: Source::Utf8(e) })
    }
}

impl FromSpecImpl<Utf8Error> for RequestRejection {
    open spec fn obeys_from_spec() -> bool {
        true
    }

    closed spec fn from_spec(e: Utf8Error) -> RequestRejection {
        RequestRejection::InvalidUtf8(ErrorCause { source: Source::Utf8(e) })
    }
}

impl From<hyper::Error> for RequestRejection {
    fn from(e: hyper::Error) -> (r: RequestRejection)
        ensures
            r.kind() == RequestRejectionKind::HttpBody,
            r matches RequestRejection::HttpBody(c) && c.origin_of() == CauseOrigin::Hyper,
    {
        RequestRejection::HttpBody(ErrorCause { source: Source::Hyper(e) })
    }
}

impl FromSpecImpl<hyper::Error> for RequestRejection {
    open spec fn obeys_from_spec() -> bool {
        true
    }

    closed spec fn from_spec(e: hyper::Error) -> RequestRejection {
        RequestRejection::HttpBody(ErrorCause { source: Source::Hyper(e) })
    }
}

impl From<http::Error> for ResponseRejection {
    fn from(e: http::Error) -> (r: ResponseRejection)
        ensures
            r.kind() == ResponseRejectionKind::Http,
            r matches ResponseRejection::Http(c) && c.origin_of() == CauseOrigin::Http,
    {
        ResponseRejection::Http(ErrorCause { source: Source::Http(e) })
    }
}

impl FromSpecImpl<http::Error> for ResponseRejection {
    open spec fn obeys_from_spec() -> bool {
        true
    }

    closed spec fn from_spec(e: http::Error) -> ResponseRejection {
        ResponseRejection::Http(ErrorCause { source: Source::Http(e) })
    }
}

impl<'a> From<nom::Err<nom::error::Error<&'a str>>> for RequestRejection {
    fn from(e: nom::Err<nom::error::Error<&'a str>>) -> (r: RequestRejection)
        ensures
            r.kind() == RequestRejectionKind::UriPatternMismatch,
            r matches RequestRejection::UriPatternMismatch(c) && c.origin_of() == CauseOrigin::Nom,
    {
        RequestRejection::UriPatternMismatch(ErrorCause { source: Source::Nom(owned_nom_error(e)) })
    }
}

// What the conversion keeps of a nom error is not described: only its kind
// is (see `from` above).
impl<'a> FromSpecImpl<nom::Err<nom::error::Error<&'a str>>> for RequestRejection {
    open spec fn obeys_from_spec() -> bool {
        false
    }

    closed spec fn from_spec(e: nom::Err<nom::error::Error<&'a str>>) -> RequestRejection {
        RequestRejection::UriPatternMismatch(arbitrary())
    }
}

/// Each error type that converts into a rejection converts into one fixed
/// kind of rejection, whatever the error value: the kind that a conversion
/// gives is stable and determined by the error's type.
pub proof fn lemma_conversion_kinds<'a>()
    ensures
        forall|e: MissingContentTypeReason, r: RequestRejection|
            #[trigger] call_ensures(<RequestRejection as From<MissingContentTypeReason>>::from, (e,), r) ==> r.kind()
                == RequestRejectionKind::MissingContentType,
        forall|e: aws_smithy_json::deserialize::error::DeserializeError, r: RequestRejection|
            #[trigger] call_ensures(<RequestRejection as From<aws_smithy_json::deserialize::error::DeserializeError>>::from, (e,), r) ==> r.kind()
                == RequestRejectionKind::JsonDeserialize,
        forall|e: aws_smithy_xml::decode::XmlDecodeError, r: RequestRejection|
            #[trigger] call_ensures(<RequestRejection as From<aws_smithy_xml::decode::XmlDecodeError>>::from, (e,), r) ==> r.kind()
                == RequestRejectionKind::XmlDeserialize,
        forall|e: aws_smithy_types::date_time::DateTimeParseError, r: RequestRejection|
            #[trigger] call_ensures(<RequestRejection as From<aws_smithy_types::date_time::DateTimeParseError>>::from, (e,), r) ==> r.kind()
                == RequestRejectionKind::DateTimeParse,
        forall|e: aws_smithy_types::primitive::PrimitiveParseError, r: RequestRejection|
            #[trigger] call_ensures(<RequestRejection as From<aws_smithy_types::primitive::PrimitiveParseError>>::from, (e,), r) ==> r.kind()
                == RequestRejectionKind::PrimitiveParse,
        forall|e: ParseBoolError, r: RequestRejection|
            #[trigger] call_ensures(<RequestRejection as From<ParseBoolError>>::from, (e,), r) ==> r.kind()
                == RequestRejectionKind::BoolParse,
        forall|e: ParseFloatError, r: RequestRejection|
            #[trigger] call_ensures(<RequestRejection as From<ParseFloatError>>::from, (e,), r) ==> r.kind()
                == RequestRejectionKind::FloatParse,
        forall|e: ParseIntError, r: RequestRejection|
            #[trigger] call_ensures(<RequestRejection as From<ParseIntError>>::from, (e,), r) ==> r.kind()
                == RequestRejectionKind::IntParse,
        forall|e: serde_urlencoded::de::Error, r: RequestRejection|
            #[trigger] call_ensures(<RequestRejection as From<serde_urlencoded::de::Error>>::from, (e,), r) ==> r.kind()
                == RequestRejectionKind::InvalidUtf8,
        forall|e: Utf8Error, r: RequestRejection|
            #[trigger] call_ensures(<RequestRejection as From<Utf8Error>>::from, (e,), r) ==> r.kind()
                == RequestRejectionKind::InvalidUtf8,
        forall|e: hyper::Error, r: RequestRejection|
            #[trigger] call_ensures(<RequestRejection as From<hyper::Error>>::from, (e,), r) ==> r.kind()
                == RequestRejectionKind::HttpBody,
        forall|e: nom::Err<nom::error::Error<&'a str>>, r: RequestRejection|
            #[trigger] call_ensures(<RequestRejection as From<nom::Err<nom::error::Error<&'a str>>>>::from, (e,), r) ==> r.kind()
                == RequestRejectionKind::UriPatternMismatch,
        forall|e: http::Error, r: ResponseRejection|
            #[trigger] call_ensures(<ResponseRejection as From<http::Error>>::from, (e,), r) ==> r.kind()
                == ResponseRejectionKind::Http,
{
}

} // verus!
