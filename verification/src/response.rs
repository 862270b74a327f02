use vstd::prelude::*;

verus! {

/// The body of a response: the raw bytes of a stored file for a download,
/// or HTML text for the index page and the not-found page.
pub enum ResponseBody {
    Bytes(Vec<u8>),
    Text(String),
}

/// Mathematical model of a response body.
pub enum BodyModel {
    Bytes(Seq<u8>),
    Text(Seq<char>),
}

impl View for ResponseBody {
    type V = BodyModel;

    open spec fn view(&self) -> BodyModel {
        match self {
            ResponseBody::Bytes(b) => BodyModel::Bytes(b@),
            ResponseBody::Text(t) => BodyModel::Text(t@),
        }
    }
}

/// Everything the server says in reply to one request: the status code,
/// the `Content-Type` header value, the `Content-Disposition` header value
/// where one is sent, and the body. Framing (the content length) follows
/// from the body's size.
pub struct HttpResponse {
    pub status: u16,
    pub content_type: String,
    pub content_disposition: Option<String>,
    pub body: ResponseBody,
}

/// Mathematical model of a response.
pub struct ResponseModel {
    pub status: u16,
    pub content_type: Seq<char>,
    pub content_disposition: Option<Seq<char>>,
    pub body: BodyModel,
}

impl View for HttpResponse {
    type V = ResponseModel;

    open spec fn view(&self) -> ResponseModel {
        ResponseModel {
            status: self.status,
            content_type: self.content_type@,
            content_disposition: match self.content_disposition {
                Some(d) => Some(d@),
                None => None,
            },
            body: self.body@,
        }
    }
}

/// A character acceptable in an HTTP header value: horizontal tab, any
/// visible ASCII character or space, or any character beyond ASCII (whose
/// UTF-8 encoding uses bytes 128..=255 only, all of which are acceptable
/// header bytes).
pub open spec fn is_valid_header_char(c: char) -> bool {
    c == '\t' || (c as u32 >= 32 && c as u32 != 127)
}

/// A string usable as an HTTP header value: every character acceptable.
pub open spec fn is_valid_header_value(s: Seq<char>) -> bool {
    forall|i: int| 0 <= i < s.len() ==> is_valid_header_char(s[i])
}

/// Relies on http::HeaderValue::from_str: it succeeds exactly when every
/// byte of the string is in 32..=255 but not DEL (127), or is a horizontal
/// tab; on a UTF-8 string that holds exactly when every character satisfies
/// `is_valid_header_char`.
#[verifier::external_body]
pub(crate) fn header_value_ok(s: &str) -> (r: bool)
    ensures
        r == is_valid_header_value(s@),
{
    http::HeaderValue::from_str(s).is_ok()
}

} // verus!
