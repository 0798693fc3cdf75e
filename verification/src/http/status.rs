//! HTTP response status codes.

use crate::text::{ascii_bytes, decimal, digit_char, lemma_digit_char_byte};
use vstd::prelude::*;
use vstd::std_specs::convert::{FromSpecImpl, TryFromSpecImpl};

verus! {

/// An HTTP response status. Each variant stands for one registered code;
/// [`Status::code`] gives the number. The default is `500 Internal Server Error`.
#[derive(Clone, Copy, Debug, PartialEq, Eq, Structural, Hash, Ord)]
pub enum Status {
    // ---------- Informational Responses ----------
    /// 100: This interim response indicates that the client should continue the request or ignore the response if the request is already finished.
    Continue,
    /// 101: This code is sent in response to an Upgrade request header from the client and indicates the protocol the server is switching to.
    SwitchingProtocols,
    /// 102: This code was used in WebDAV contexts to indicate that a request has been received by the server, but no status was available at the time of the response.
    Processing,
    /// 103: This status code is primarily intended to be used with the Link header, letting the user agent start preloading resources while the server prepares a response or preconnect to an origin from which the page will need resources.
    EarlyHints,
    // ---------- Successful Responses ----------
    /// 200: The request succeeded.
    OK,
    /// 201: The request succeeded, and a new resource was created as a result.
    Created,
    /// 202: The request has been received but not yet acted upon.
    Accepted,
    /// 203: This response code means the returned metadata is not exactly the same as is available from the origin server, but is collected from a local or a third-party copy.
    NonAuthoritativeInformation,
    /// 204: There is no content to send for this request, but the headers are useful.
    NoContent,
    /// 205: Tells the user agent to reset the document which sent this request.
    ResetContent,
    /// 206: This response code is used in response to a range request when the client has requested a part or parts of a resource.
    PartialContent,
    /// 207: Conveys information about multiple resources, for situations where multiple status codes might be appropriate.
    MultiStatus,
    /// 208: Used inside a `<dav:propstat>` response element to avoid repeatedly enumerating the internal members of multiple bindings to the same collection.
    AlreadyReported,
    /// 226: The server has fulfilled a GET request for the resource, and the response is a representation of the result of one or more instance-manipulations applied to the current instance.
    IMUsed,
    // ---------- Redirection Messages ----------
    /// 300: In agent-driven content negotiation, the request has more than one possible response and the user agent or user should choose one of them.
    MultipleChoices,
    /// 301: The URL of the requested resource has been changed permanently.
    MovedPermanently,
    /// 302: This response code means that the URI of requested resource has been changed temporarily.
    Found,
    /// 303: The server sent this response to direct the client to get the requested resource at another URI with a GET request.
    SeeOther,
    /// 304: This is used for caching purposes.
    NotModified,
    /// 305: Defined in a previous version of the HTTP specification to indicate that a requested response must be accessed by a proxy.
    UseProxy,
    /// 306: This response code is no longer used; but is reserved.
    Unused,
    /// 307: The server sends this response to direct the client to get the requested resource at another URI with the same method that was used in the prior request.
    TemporaryRedirect,
    /// 308: This means that the resource is now permanently located at another URI, specified by the Location response header.
    PermanentRedirect,
    // ---------- Client error responses ----------
    /// 400: The server cannot or will not process the request due to something that is perceived to be a client error (e.g., malformed request syntax, invalid request message framing, or deceptive request routing).
    BadRequest,
    /// 401: Although the HTTP standard specifies "unauthorized", semantically this response means "unauthenticated".
    Unauthorized,
    /// 402: The initial purpose of this code was for digital payment systems, however this status code is rarely used and no standard convention exists.
    PaymentRequired,
    /// 403: The client does not have access rights to the content; that is, it is unauthorized, so the server is refusing to give the requested resource.
    Forbidden,
    /// 404: The server cannot find the requested resource.
    NotFound,
    /// 405: The request method is known by the server but is not supported by the target resource.
    MethodNotAllowed,
    /// 406: This response is sent when the web server, after performing server-driven content negotiation, doesn't find any content that conforms to the criteria given by the user agent.
    NotAcceptable,
    /// 407: This is similar to 401 Unauthorized but authentication is needed to be done by a proxy.
    ProxyAuthenticationRequired,
    /// 408: This response is sent on an idle connection by some servers, even without any previous request by the client.
    RequestTimeout,
    /// 409: This response is sent when a request conflicts with the current state of the server.
    Conflict,
    /// 410: This response is sent when the requested content has been permanently deleted from server, with no forwarding address.
    Gone,
    /// 411: Server rejected the request because the Content-Length header field is not defined and the server requires it.
    LengthRequired,
    /// 412: In conditional requests, the client has indicated preconditions in its headers which the server does not meet.
    PreconditionFailed,
    /// 413: The request body is larger than limits defined by server.
    ContentTooLarge,
    /// 414: The URI requested by the client is longer than the server is willing to interpret.
    URITooLong,
    /// 415: The media format of the requested data is not supported by the server, so the server is rejecting the request.
    UnsupportedMediaType,
    /// 416: The ranges specified by the Range header field in the request cannot be fulfilled.
    RangeNotSatisfiable,
    /// 417: This response code means the expectation indicated by the Expect request header field cannot be met by the server.
    ExpectationFailed,
    /// 418: The server refuses the attempt to brew coffee with a teapot.
    ImATeapot,
    /// 421: The request was directed at a server that is not able to produce a response.
    MisdirectedRequest,
    /// 422: The request was well-formed but was unable to be followed due to semantic errors.
    UnprocessableContent,
    /// 423: The resource that is being accessed is locked.
    Locked,
    /// 424: The request failed due to failure of a previous request.
    FailedDependency,
    /// 425: Indicates that the server is unwilling to risk processing a request that might be replayed.
    TooEarly,
    /// 426: The server refuses to perform the request using the current protocol but might be willing to do so after the client upgrades to a different protocol.
    UpgradeRequired,
    /// 428: The origin server requires the request to be conditional.
    PreconditionRequired,
    /// 429: The user has sent too many requests in a given amount of time (rate limiting).
    TooManyRequests,
    /// 431: The server is unwilling to process the request because its header fields are too large.
    RequestHeaderFieldsTooLarge,
    /// 451: The user agent requested a resource that cannot legally be provided, such as a web page censored by a government.
    UnavailableForLegalReasons,
    // ---------- Server error responses ----------
    /// 500: The server has encountered a situation it does not know how to handle.
    InternalServerError,
    /// 501: The request method is not supported by the server and cannot be handled.
    NotImplemented,
    /// 502: This error response means that the server, while working as a gateway to get a response needed to handle the request, got an invalid response.
    BadGateway,
    /// 503: The server is not ready to handle the request.
    ServiceUnavailable,
    /// 504: This error response is given when the server is acting as a gateway and cannot get a response in time.
    GatewayTimeout,
    /// 505: The HTTP version used in the request is not supported by the server.
    HTTPVersionNotSupported,
    /// 506: The server has an internal configuration error: during content negotiation, the chosen variant is configured to engage in content negotiation itself, which results in circular references when creating responses.
    VariantAlsoNegotiates,
    /// 507: The method could not be performed on the resource because the server is unable to store the representation needed to successfully complete the request.
    InsufficientStorage,
    /// 508: The server detected an infinite loop while processing the request.
    LoopDetected,
    /// 510: The client request declares an HTTP Extension (RFC 2774) that should be used to process the request, but the extension is not supported.
    NotExtended,
    /// 511: Indicates that the client needs to authenticate to gain network access.
    NetworkAuthenticationRequired,
}

/// The status for a number, if one is registered.
pub open spec fn status_for_code(n: int) -> Option<Status> {
    if n == 100 {
        Some(Status::Continue)
    } else if n == 101 {
        Some(Status::SwitchingProtocols)
    } else if n == 102 {
        Some(Status::Processing)
    } else if n == 103 {
        Some(Status::EarlyHints)
    } else if n == 200 {
        Some(Status::OK)
    } else if n == 201 {
        Some(Status::Created)
    } else if n == 202 {
        Some(Status::Accepted)
    } else if n == 203 {
        Some(Status::NonAuthoritativeInformation)
    } else if n == 204 {
        Some(Status::NoContent)
    } else if n == 205 {
        Some(Status::ResetContent)
    } else if n == 206 {
        Some(Status::PartialContent)
    } else if n == 207 {
        Some(Status::MultiStatus)
    } else if n == 208 {
        Some(Status::AlreadyReported)
    } else if n == 226 {
        Some(Status::IMUsed)
    } else if n == 300 {
        Some(Status::MultipleChoices)
    } else if n == 301 {
        Some(Status::MovedPermanently)
    } else if n == 302 {
        Some(Status::Found)
    } else if n == 303 {
        Some(Status::SeeOther)
    } else if n == 304 {
        Some(Status::NotModified)
    } else if n == 305 {
        Some(Status::UseProxy)
    } else if n == 306 {
        Some(Status::Unused)
    } else if n == 307 {
        Some(Status::TemporaryRedirect)
    } else if n == 308 {
        Some(Status::PermanentRedirect)
    } else if n == 400 {
        Some(Status::BadRequest)
    } else if n == 401 {
        Some(Status::Unauthorized)
    } else if n == 402 {
        Some(Status::PaymentRequired)
    } else if n == 403 {
        Some(Status::Forbidden)
    } else if n == 404 {
        Some(Status::NotFound)
    } else if n == 405 {
        Some(Status::MethodNotAllowed)
    } else if n == 406 {
        Some(Status::NotAcceptable)
    } else if n == 407 {
        Some(Status::ProxyAuthenticationRequired)
    } else if n == 408 {
        Some(Status::RequestTimeout)
    } else if n == 409 {
        Some(Status::Conflict)
    } else if n == 410 {
        Some(Status::Gone)
    } else if n == 411 {
        Some(Status::LengthRequired)
    } else if n == 412 {
        Some(Status::PreconditionFailed)
    } else if n == 413 {
        Some(Status::ContentTooLarge)
    } else if n == 414 {
        Some(Status::URITooLong)
    } else if n == 415 {
        Some(Status::UnsupportedMediaType)
    } else if n == 416 {
        Some(Status::RangeNotSatisfiable)
    } else if n == 417 {
        Some(Status::ExpectationFailed)
    } else if n == 418 {
        Some(Status::ImATeapot)
    } else if n == 421 {
        Some(Status::MisdirectedRequest)
    } else if n == 422 {
        Some(Status::UnprocessableContent)
    } else if n == 423 {
        Some(Status::Locked)
    } else if n == 424 {
        Some(Status::FailedDependency)
    } else if n == 425 {
        Some(Status::TooEarly)
    } else if n == 426 {
        Some(Status::UpgradeRequired)
    } else if n == 428 {
        Some(Status::PreconditionRequired)
    } else if n == 429 {
        Some(Status::TooManyRequests)
    } else if n == 431 {
        Some(Status::RequestHeaderFieldsTooLarge)
    } else if n == 451 {
        Some(Status::UnavailableForLegalReasons)
    } else if n == 500 {
        Some(Status::InternalServerError)
    } else if n == 501 {
        Some(Status::NotImplemented)
    } else if n == 502 {
        Some(Status::BadGateway)
    } else if n == 503 {
        Some(Status::ServiceUnavailable)
    } else if n == 504 {
        Some(Status::GatewayTimeout)
    } else if n == 505 {
        Some(Status::HTTPVersionNotSupported)
    } else if n == 506 {
        Some(Status::VariantAlsoNegotiates)
    } else if n == 507 {
        Some(Status::InsufficientStorage)
    } else if n == 508 {
        Some(Status::LoopDetected)
    } else if n == 510 {
        Some(Status::NotExtended)
    } else if n == 511 {
        Some(Status::NetworkAuthenticationRequired)
    } else {
        None
    }
}

impl Status {
    /// The lowest registered code.
    pub const MIN: u16 = 100;

    /// The highest registered code.
    pub const MAX: u16 = 511;

    /// The number of this status.
    pub open spec fn spec_code(self) -> u16 {
        match self {
            Status::Continue => 100,
            Status::SwitchingProtocols => 101,
            Status::Processing => 102,
            Status::EarlyHints => 103,
            Status::OK => 200,
            Status::Created => 201,
            Status::Accepted => 202,
            Status::NonAuthoritativeInformation => 203,
            Status::NoContent => 204,
            Status::ResetContent => 205,
            Status::PartialContent => 206,
            Status::MultiStatus => 207,
            Status::AlreadyReported => 208,
            Status::IMUsed => 226,
            Status::MultipleChoices => 300,
            Status::MovedPermanently => 301,
            Status::Found => 302,
            Status::SeeOther => 303,
            Status::NotModified => 304,
            Status::UseProxy => 305,
            Status::Unused => 306,
            Status::TemporaryRedirect => 307,
            Status::PermanentRedirect => 308,
            Status::BadRequest => 400,
            Status::Unauthorized => 401,
            Status::PaymentRequired => 402,
            Status::Forbidden => 403,
            Status::NotFound => 404,
            Status::MethodNotAllowed => 405,
            Status::NotAcceptable => 406,
            Status::ProxyAuthenticationRequired => 407,
            Status::RequestTimeout => 408,
            Status::Conflict => 409,
            Status::Gone => 410,
            Status::LengthRequired => 411,
            Status::PreconditionFailed => 412,
            Status::ContentTooLarge => 413,
            Status::URITooLong => 414,
            Status::UnsupportedMediaType => 415,
            Status::RangeNotSatisfiable => 416,
            Status::ExpectationFailed => 417,
            Status::ImATeapot => 418,
            Status::MisdirectedRequest => 421,
            Status::UnprocessableContent => 422,
            Status::Locked => 423,
            Status::FailedDependency => 424,
            Status::TooEarly => 425,
            Status::UpgradeRequired => 426,
            Status::PreconditionRequired => 428,
            Status::TooManyRequests => 429,
            Status::RequestHeaderFieldsTooLarge => 431,
            Status::UnavailableForLegalReasons => 451,
            Status::InternalServerError => 500,
            Status::NotImplemented => 501,
            Status::BadGateway => 502,
            Status::ServiceUnavailable => 503,
            Status::GatewayTimeout => 504,
            Status::HTTPVersionNotSupported => 505,
            Status::VariantAlsoNegotiates => 506,
            Status::InsufficientStorage => 507,
            Status::LoopDetected => 508,
            Status::NotExtended => 510,
            Status::NetworkAuthenticationRequired => 511,
        }
    }

    /// The name of this status as written in the code (`OK`, `NotFound`, ...).
    pub open spec fn spec_name(self) -> Seq<char> {
        match self {
            Status::Continue => "Continue"@,
            Status::SwitchingProtocols => "SwitchingProtocols"@,
            Status::Processing => "Processing"@,
            Status::EarlyHints => "EarlyHints"@,
            Status::OK => "OK"@,
            Status::Created => "Created"@,
            Status::Accepted => "Accepted"@,
            Status::NonAuthoritativeInformation => "NonAuthoritativeInformation"@,
            Status::NoContent => "NoContent"@,
            Status::ResetContent => "ResetContent"@,
            Status::PartialContent => "PartialContent"@,
            Status::MultiStatus => "MultiStatus"@,
            Status::AlreadyReported => "AlreadyReported"@,
            Status::IMUsed => "IMUsed"@,
            Status::MultipleChoices => "MultipleChoices"@,
            Status::MovedPermanently => "MovedPermanently"@,
            Status::Found => "Found"@,
            Status::SeeOther => "SeeOther"@,
            Status::NotModified => "NotModified"@,
            Status::UseProxy => "UseProxy"@,
            Status::Unused => "Unused"@,
            Status::TemporaryRedirect => "TemporaryRedirect"@,
            Status::PermanentRedirect => "PermanentRedirect"@,
            Status::BadRequest => "BadRequest"@,
            Status::Unauthorized => "Unauthorized"@,
            Status::PaymentRequired => "PaymentRequired"@,
            Status::Forbidden => "Forbidden"@,
            Status::NotFound => "NotFound"@,
            Status::MethodNotAllowed => "MethodNotAllowed"@,
            Status::NotAcceptable => "NotAcceptable"@,
            Status::ProxyAuthenticationRequired => "ProxyAuthenticationRequired"@,
            Status::RequestTimeout => "RequestTimeout"@,
            Status::Conflict => "Conflict"@,
            Status::Gone => "Gone"@,
            Status::LengthRequired => "LengthRequired"@,
            Status::PreconditionFailed => "PreconditionFailed"@,
            Status::ContentTooLarge => "ContentTooLarge"@,
            Status::URITooLong => "URITooLong"@,
            Status::UnsupportedMediaType => "UnsupportedMediaType"@,
            Status::RangeNotSatisfiable => "RangeNotSatisfiable"@,
            Status::ExpectationFailed => "ExpectationFailed"@,
            Status::ImATeapot => "ImATeapot"@,
            Status::MisdirectedRequest => "MisdirectedRequest"@,
            Status::UnprocessableContent => "UnprocessableContent"@,
            Status::Locked => "Locked"@,
            Status::FailedDependency => "FailedDependency"@,
            Status::TooEarly => "TooEarly"@,
            Status::UpgradeRequired => "UpgradeRequired"@,
            Status::PreconditionRequired => "PreconditionRequired"@,
            Status::TooManyRequests => "TooManyRequests"@,
            Status::RequestHeaderFieldsTooLarge => "RequestHeaderFieldsTooLarge"@,
            Status::UnavailableForLegalReasons => "UnavailableForLegalReasons"@,
            Status::InternalServerError => "InternalServerError"@,
            Status::NotImplemented => "NotImplemented"@,
            Status::BadGateway => "BadGateway"@,
            Status::ServiceUnavailable => "ServiceUnavailable"@,
            Status::GatewayTimeout => "GatewayTimeout"@,
            Status::HTTPVersionNotSupported => "HTTPVersionNotSupported"@,
            Status::VariantAlsoNegotiates => "VariantAlsoNegotiates"@,
            Status::InsufficientStorage => "InsufficientStorage"@,
            Status::LoopDetected => "LoopDetected"@,
            Status::NotExtended => "NotExtended"@,
            Status::NetworkAuthenticationRequired => "NetworkAuthenticationRequired"@,
        }
    }

    /// The number of this status.
    pub fn code(&self) -> (c: u16)
        ensures
            c == self.spec_code(),
    {
        match self {
            Status::Continue => 100,
            Status::SwitchingProtocols => 101,
            Status::Processing => 102,
            Status::EarlyHints => 103,
            Status::OK => 200,
            Status::Created => 201,
            Status::Accepted => 202,
            Status::NonAuthoritativeInformation => 203,
            Status::NoContent => 204,
            Status::ResetContent => 205,
            Status::PartialContent => 206,
            Status::MultiStatus => 207,
            Status::AlreadyReported => 208,
            Status::IMUsed => 226,
            Status::MultipleChoices => 300,
            Status::MovedPermanently => 301,
            Status::Found => 302,
            Status::SeeOther => 303,
            Status::NotModified => 304,
            Status::UseProxy => 305,
            Status::Unused => 306,
            Status::TemporaryRedirect => 307,
            Status::PermanentRedirect => 308,
            Status::BadRequest => 400,
            Status::Unauthorized => 401,
            Status::PaymentRequired => 402,
            Status::Forbidden => 403,
            Status::NotFound => 404,
            Status::MethodNotAllowed => 405,
            Status::NotAcceptable => 406,
            Status::ProxyAuthenticationRequired => 407,
            Status::RequestTimeout => 408,
            Status::Conflict => 409,
            Status::Gone => 410,
            Status::LengthRequired => 411,
            Status::PreconditionFailed => 412,
            Status::ContentTooLarge => 413,
            Status::URITooLong => 414,
            Status::UnsupportedMediaType => 415,
            Status::RangeNotSatisfiable => 416,
            Status::ExpectationFailed => 417,
            Status::ImATeapot => 418,
            Status::MisdirectedRequest => 421,
            Status::UnprocessableContent => 422,
            Status::Locked => 423,
            Status::FailedDependency => 424,
            Status::TooEarly => 425,
            Status::UpgradeRequired => 426,
            Status::PreconditionRequired => 428,
            Status::TooManyRequests => 429,
            Status::RequestHeaderFieldsTooLarge => 431,
            Status::UnavailableForLegalReasons => 451,
            Status::InternalServerError => 500,
            Status::NotImplemented => 501,
            Status::BadGateway => 502,
            Status::ServiceUnavailable => 503,
            Status::GatewayTimeout => 504,
            Status::HTTPVersionNotSupported => 505,
            Status::VariantAlsoNegotiates => 506,
            Status::InsufficientStorage => 507,
            Status::LoopDetected => 508,
            Status::NotExtended => 510,
            Status::NetworkAuthenticationRequired => 511,
        }
    }

    /// The name of this status (`"OK"`, `"NotFound"`, ...).
    pub fn as_str(&self) -> (s: &'static str)
        ensures
            s@ == self.spec_name(),
    {
        match self {
            Status::Continue => "Continue",
            Status::SwitchingProtocols => "SwitchingProtocols",
            Status::Processing => "Processing",
            Status::EarlyHints => "EarlyHints",
            Status::OK => "OK",
            Status::Created => "Created",
            Status::Accepted => "Accepted",
            Status::NonAuthoritativeInformation => "NonAuthoritativeInformation",
            Status::NoContent => "NoContent",
            Status::ResetContent => "ResetContent",
            Status::PartialContent => "PartialContent",
            Status::MultiStatus => "MultiStatus",
            Status::AlreadyReported => "AlreadyReported",
            Status::IMUsed => "IMUsed",
            Status::MultipleChoices => "MultipleChoices",
            Status::MovedPermanently => "MovedPermanently",
            Status::Found => "Found",
            Status::SeeOther => "SeeOther",
            Status::NotModified => "NotModified",
            Status::UseProxy => "UseProxy",
            Status::Unused => "Unused",
            Status::TemporaryRedirect => "TemporaryRedirect",
            Status::PermanentRedirect => "PermanentRedirect",
            Status::BadRequest => "BadRequest",
            Status::Unauthorized => "Unauthorized",
            Status::PaymentRequired => "PaymentRequired",
            Status::Forbidden => "Forbidden",
            Status::NotFound => "NotFound",
            Status::MethodNotAllowed => "MethodNotAllowed",
            Status::NotAcceptable => "NotAcceptable",
            Status::ProxyAuthenticationRequired => "ProxyAuthenticationRequired",
            Status::RequestTimeout => "RequestTimeout",
            Status::Conflict => "Conflict",
            Status::Gone => "Gone",
            Status::LengthRequired => "LengthRequired",
            Status::PreconditionFailed => "PreconditionFailed",
            Status::ContentTooLarge => "ContentTooLarge",
            Status::URITooLong => "URITooLong",
            Status::UnsupportedMediaType => "UnsupportedMediaType",
            Status::RangeNotSatisfiable => "RangeNotSatisfiable",
            Status::ExpectationFailed => "ExpectationFailed",
            Status::ImATeapot => "ImATeapot",
            Status::MisdirectedRequest => "MisdirectedRequest",
            Status::UnprocessableContent => "UnprocessableContent",
            Status::Locked => "Locked",
            Status::FailedDependency => "FailedDependency",
            Status::TooEarly => "TooEarly",
            Status::UpgradeRequired => "UpgradeRequired",
            Status::PreconditionRequired => "PreconditionRequired",
            Status::TooManyRequests => "TooManyRequests",
            Status::RequestHeaderFieldsTooLarge => "RequestHeaderFieldsTooLarge",
            Status::UnavailableForLegalReasons => "UnavailableForLegalReasons",
            Status::InternalServerError => "InternalServerError",
            Status::NotImplemented => "NotImplemented",
            Status::BadGateway => "BadGateway",
            Status::ServiceUnavailable => "ServiceUnavailable",
            Status::GatewayTimeout => "GatewayTimeout",
            Status::HTTPVersionNotSupported => "HTTPVersionNotSupported",
            Status::VariantAlsoNegotiates => "VariantAlsoNegotiates",
            Status::InsufficientStorage => "InsufficientStorage",
            Status::LoopDetected => "LoopDetected",
            Status::NotExtended => "NotExtended",
            Status::NetworkAuthenticationRequired => "NetworkAuthenticationRequired",
        }
    }

    /// The name of this status, as the status is displayed.
    pub fn to_string(&self) -> (s: String)
        ensures
            s@ == self.spec_name(),
    {
        self.as_str().to_owned()
    }

    /// The ASCII decimal digits of the code, e.g. `b"200"`.
    pub fn bytes(&self) -> (b: Vec<u8>)
        ensures
            b@ == ascii_bytes(decimal(self.spec_code() as nat)),
    {
        let c = self.code();
        let mut b: Vec<u8> = Vec::new();
        b.push(48u8 + (c / 100) as u8);
        b.push(48u8 + ((c / 10) % 10) as u8);
        b.push(48u8 + (c % 10) as u8);
        proof {
            let n = c as nat;
            assert(100 <= n < 1000);
            assert(decimal(n) =~= seq![digit_char(n / 100), digit_char((n / 10) % 10), digit_char(n % 10)]) by {
                assert(decimal(n / 100) == seq![digit_char(n / 100)]);
                assert(decimal(n / 10) =~= decimal((n / 10) / 10).push(digit_char((n / 10) % 10)));
            }
            lemma_digit_char_byte(n / 100);
            lemma_digit_char_byte((n / 10) % 10);
            lemma_digit_char_byte(n % 10);
            assert(b@ =~= ascii_bytes(decimal(n)));
        }
        b
    }

    /// The status for a number, or `Err(())` for a number that no status has.
    pub fn try_from_code(value: u16) -> (r: Result<Status, ()>)
        ensures
            r == match status_for_code(value as int) {
                Some(s) => Ok(s),
                None => Err::<Status, ()>(()),
            },
    {
        match value {
            100 => Ok(Status::Continue),
            101 => Ok(Status::SwitchingProtocols),
            102 => Ok(Status::Processing),
            103 => Ok(Status::EarlyHints),
            200 => Ok(Status::OK),
            201 => Ok(Status::Created),
            202 => Ok(Status::Accepted),
            203 => Ok(Status::NonAuthoritativeInformation),
            204 => Ok(Status::NoContent),
            205 => Ok(Status::ResetContent),
            206 => Ok(Status::PartialContent),
            207 => Ok(Status::MultiStatus),
            208 => Ok(Status::AlreadyReported),
            226 => Ok(Status::IMUsed),
            300 => Ok(Status::MultipleChoices),
            301 => Ok(Status::MovedPermanently),
            302 => Ok(Status::Found),
            303 => Ok(Status::SeeOther),
            304 => Ok(Status::NotModified),
            305 => Ok(Status::UseProxy),
            306 => Ok(Status::Unused),
            307 => Ok(Status::TemporaryRedirect),
            308 => Ok(Status::PermanentRedirect),
            400 => Ok(Status::BadRequest),
            401 => Ok(Status::Unauthorized),
            402 => Ok(Status::PaymentRequired),
            403 => Ok(Status::Forbidden),
            404 => Ok(Status::NotFound),
            405 => Ok(Status::MethodNotAllowed),
            406 => Ok(Status::NotAcceptable),
            407 => Ok(Status::ProxyAuthenticationRequired),
            408 => Ok(Status::RequestTimeout),
            409 => Ok(Status::Conflict),
            410 => Ok(Status::Gone),
            411 => Ok(Status::LengthRequired),
            412 => Ok(Status::PreconditionFailed),
            413 => Ok(Status::ContentTooLarge),
            414 => Ok(Status::URITooLong),
            415 => Ok(Status::UnsupportedMediaType),
            416 => Ok(Status::RangeNotSatisfiable),
            417 => Ok(Status::ExpectationFailed),
            418 => Ok(Status::ImATeapot),
            421 => Ok(Status::MisdirectedRequest),
            422 => Ok(Status::UnprocessableContent),
            423 => Ok(Status::Locked),
            424 => Ok(Status::FailedDependency),
            425 => Ok(Status::TooEarly),
            426 => Ok(Status::UpgradeRequired),
            428 => Ok(Status::PreconditionRequired),
            429 => Ok(Status::TooManyRequests),
            431 => Ok(Status::RequestHeaderFieldsTooLarge),
            451 => Ok(Status::UnavailableForLegalReasons),
            500 => Ok(Status::InternalServerError),
            501 => Ok(Status::NotImplemented),
            502 => Ok(Status::BadGateway),
            503 => Ok(Status::ServiceUnavailable),
            504 => Ok(Status::GatewayTimeout),
            505 => Ok(Status::HTTPVersionNotSupported),
            506 => Ok(Status::VariantAlsoNegotiates),
            507 => Ok(Status::InsufficientStorage),
            508 => Ok(Status::LoopDetected),
            510 => Ok(Status::NotExtended),
            511 => Ok(Status::NetworkAuthenticationRequired),
            _ => Err(()),
        }
    }
}

/// `Ok` with the status for a number, `Err(())` where no status has it.
pub open spec fn status_result(n: int) -> Result<Status, ()> {
    match status_for_code(n) {
        Some(s) => Ok(s),
        None => Err(()),
    }
}

/// Every status has a registered code between [`Status::MIN`] and
/// [`Status::MAX`], and that code converts back to the same status.
pub proof fn lemma_status_code_roundtrip(s: Status)
    ensures
        Status::MIN <= s.spec_code() <= Status::MAX,
        status_for_code(s.spec_code() as int) == Some(s),
{
}

/// Each status has its registered code (RFC 9110 and the IANA status code
/// registry), and each registered code reads as its status.
pub proof fn lemma_registered_codes()
    ensures
        Status::Continue.spec_code() == 100,
        Status::SwitchingProtocols.spec_code() == 101,
        Status::Processing.spec_code() == 102,
        Status::EarlyHints.spec_code() == 103,
        Status::OK.spec_code() == 200,
        Status::Created.spec_code() == 201,
        Status::Accepted.spec_code() == 202,
        Status::NonAuthoritativeInformation.spec_code() == 203,
        Status::NoContent.spec_code() == 204,
        Status::ResetContent.spec_code() == 205,
        Status::PartialContent.spec_code() == 206,
        Status::MultiStatus.spec_code() == 207,
        Status::AlreadyReported.spec_code() == 208,
        Status::IMUsed.spec_code() == 226,
        Status::MultipleChoices.spec_code() == 300,
        Status::MovedPermanently.spec_code() == 301,
        Status::Found.spec_code() == 302,
        Status::SeeOther.spec_code() == 303,
        Status::NotModified.spec_code() == 304,
        Status::UseProxy.spec_code() == 305,
        Status::Unused.spec_code() == 306,
        Status::TemporaryRedirect.spec_code() == 307,
        Status::PermanentRedirect.spec_code() == 308,
        Status::BadRequest.spec_code() == 400,
        Status::Unauthorized.spec_code() == 401,
        Status::PaymentRequired.spec_code() == 402,
        Status::Forbidden.spec_code() == 403,
        Status::NotFound.spec_code() == 404,
        Status::MethodNotAllowed.spec_code() == 405,
        Status::NotAcceptable.spec_code() == 406,
        Status::ProxyAuthenticationRequired.spec_code() == 407,
        Status::RequestTimeout.spec_code() == 408,
        Status::Conflict.spec_code() == 409,
        Status::Gone.spec_code() == 410,
        Status::LengthRequired.spec_code() == 411,
        Status::PreconditionFailed.spec_code() == 412,
        Status::ContentTooLarge.spec_code() == 413,
        Status::URITooLong.spec_code() == 414,
        Status::UnsupportedMediaType.spec_code() == 415,
        Status::RangeNotSatisfiable.spec_code() == 416,
        Status::ExpectationFailed.spec_code() == 417,
        Status::ImATeapot.spec_code() == 418,
        Status::MisdirectedRequest.spec_code() == 421,
        Status::UnprocessableContent.spec_code() == 422,
        Status::Locked.spec_code() == 423,
        Status::FailedDependency.spec_code() == 424,
        Status::TooEarly.spec_code() == 425,
        Status::UpgradeRequired.spec_code() == 426,
        Status::PreconditionRequired.spec_code() == 428,
        Status::TooManyRequests.spec_code() == 429,
        Status::RequestHeaderFieldsTooLarge.spec_code() == 431,
        Status::UnavailableForLegalReasons.spec_code() == 451,
        Status::InternalServerError.spec_code() == 500,
        Status::NotImplemented.spec_code() == 501,
        Status::BadGateway.spec_code() == 502,
        Status::ServiceUnavailable.spec_code() == 503,
        Status::GatewayTimeout.spec_code() == 504,
        Status::HTTPVersionNotSupported.spec_code() == 505,
        Status::VariantAlsoNegotiates.spec_code() == 506,
        Status::InsufficientStorage.spec_code() == 507,
        Status::LoopDetected.spec_code() == 508,
        Status::NotExtended.spec_code() == 510,
        Status::NetworkAuthenticationRequired.spec_code() == 511,
        status_for_code(100) == Some(Status::Continue),
        status_for_code(101) == Some(Status::SwitchingProtocols),
        status_for_code(102) == Some(Status::Processing),
        status_for_code(103) == Some(Status::EarlyHints),
        status_for_code(200) == Some(Status::OK),
        status_for_code(201) == Some(Status::Created),
        status_for_code(202) == Some(Status::Accepted),
        status_for_code(203) == Some(Status::NonAuthoritativeInformation),
        status_for_code(204) == Some(Status::NoContent),
        status_for_code(205) == Some(Status::ResetContent),
        status_for_code(206) == Some(Status::PartialContent),
        status_for_code(207) == Some(Status::MultiStatus),
        status_for_code(208) == Some(Status::AlreadyReported),
        status_for_code(226) == Some(Status::IMUsed),
        status_for_code(300) == Some(Status::MultipleChoices),
        status_for_code(301) == Some(Status::MovedPermanently),
        status_for_code(302) == Some(Status::Found),
        status_for_code(303) == Some(Status::SeeOther),
        status_for_code(304) == Some(Status::NotModified),
        status_for_code(305) == Some(Status::UseProxy),
        status_for_code(306) == Some(Status::Unused),
        status_for_code(307) == Some(Status::TemporaryRedirect),
        status_for_code(308) == Some(Status::PermanentRedirect),
        status_for_code(400) == Some(Status::BadRequest),
        status_for_code(401) == Some(Status::Unauthorized),
        status_for_code(402) == Some(Status::PaymentRequired),
        status_for_code(403) == Some(Status::Forbidden),
        status_for_code(404) == Some(Status::NotFound),
        status_for_code(405) == Some(Status::MethodNotAllowed),
        status_for_code(406) == Some(Status::NotAcceptable),
        status_for_code(407) == Some(Status::ProxyAuthenticationRequired),
        status_for_code(408) == Some(Status::RequestTimeout),
        status_for_code(409) == Some(Status::Conflict),
        status_for_code(410) == Some(Status::Gone),
        status_for_code(411) == Some(Status::LengthRequired),
        status_for_code(412) == Some(Status::PreconditionFailed),
        status_for_code(413) == Some(Status::ContentTooLarge),
        status_for_code(414) == Some(Status::URITooLong),
        status_for_code(415) == Some(Status::UnsupportedMediaType),
        status_for_code(416) == Some(Status::RangeNotSatisfiable),
        status_for_code(417) == Some(Status::ExpectationFailed),
        status_for_code(418) == Some(Status::ImATeapot),
        status_for_code(421) == Some(Status::MisdirectedRequest),
        status_for_code(422) == Some(Status::UnprocessableContent),
        status_for_code(423) == Some(Status::Locked),
        status_for_code(424) == Some(Status::FailedDependency),
        status_for_code(425) == Some(Status::TooEarly),
        status_for_code(426) == Some(Status::UpgradeRequired),
        status_for_code(428) == Some(Status::PreconditionRequired),
        status_for_code(429) == Some(Status::TooManyRequests),
        status_for_code(431) == Some(Status::RequestHeaderFieldsTooLarge),
        status_for_code(451) == Some(Status::UnavailableForLegalReasons),
        status_for_code(500) == Some(Status::InternalServerError),
        status_for_code(501) == Some(Status::NotImplemented),
        status_for_code(502) == Some(Status::BadGateway),
        status_for_code(503) == Some(Status::ServiceUnavailable),
        status_for_code(504) == Some(Status::GatewayTimeout),
        status_for_code(505) == Some(Status::HTTPVersionNotSupported),
        status_for_code(506) == Some(Status::VariantAlsoNegotiates),
        status_for_code(507) == Some(Status::InsufficientStorage),
        status_for_code(508) == Some(Status::LoopDetected),
        status_for_code(510) == Some(Status::NotExtended),
        status_for_code(511) == Some(Status::NetworkAuthenticationRequired),
{
}

/// A number converts to a status only if that status has exactly this number
/// as its code: no two statuses share a code.
pub proof fn lemma_status_for_code_inverse(n: int)
    ensures
        status_for_code(n) matches Some(s) ==> s.spec_code() == n,
        status_for_code(n) is None ==> forall|s: Status| s.spec_code() != n,
{
    assert forall|s: Status| status_for_code(n) is None implies s.spec_code() != n by {
        lemma_status_code_roundtrip(s);
    }
}

impl Default for Status {
    /// `500 Internal Server Error`.
    fn default() -> (s: Status)
        ensures
            s == Status::InternalServerError,
    {
        Status::InternalServerError
    }
}

impl TryFrom<u16> for Status {
    type Error = ();

    fn try_from(value: u16) -> (r: Result<Status, ()>)
        ensures
            r == status_result(value as int),
    {
        Status::try_from_code(value)
    }
}

impl TryFromSpecImpl<u16> for Status {
    open spec fn obeys_try_from_spec() -> bool {
        true
    }

    open spec fn try_from_spec(v: u16) -> Result<Status, ()> {
        status_result(v as int)
    }
}

impl From<Status> for u16 {
    fn from(value: Status) -> (n: u16)
        ensures
            n == value.spec_code(),
    {
        value.code()
    }
}

impl FromSpecImpl<Status> for u16 {
    open spec fn obeys_from_spec() -> bool {
        true
    }

    open spec fn from_spec(v: Status) -> u16 {
        v.spec_code() as u16
    }
}

impl TryFrom<u32> for Status {
    type Error = ();

    fn try_from(value: u32) -> (r: Result<Status, ()>)
        ensures
            r == status_result(value as int),
    {
        if value > Status::MAX as u32 || value < Status::MIN as u32 {
            return Err(());
        }
        Status::try_from_code(value as u16)
    }
}

impl TryFromSpecImpl<u32> for Status {
    open spec fn obeys_try_from_spec() -> bool {
        true
    }

    open spec fn try_from_spec(v: u32) -> Result<Status, ()> {
        status_result(v as int)
    }
}

impl From<Status> for u32 {
    fn from(value: Status) -> (n: u32)
        ensures
            n == value.spec_code(),
    {
        value.code() as u32
    }
}

impl FromSpecImpl<Status> for u32 {
    open spec fn obeys_from_spec() -> bool {
        true
    }

    open spec fn from_spec(v: Status) -> u32 {
        v.spec_code() as u32
    }
}

impl TryFrom<u64> for Status {
    type Error = ();

    fn try_from(value: u64) -> (r: Result<Status, ()>)
        ensures
            r == status_result(value as int),
    {
        if value > Status::MAX as u64 || value < Status::MIN as u64 {
            return Err(());
        }
        Status::try_from_code(value as u16)
    }
}

impl TryFromSpecImpl<u64> for Status {
    open spec fn obeys_try_from_spec() -> bool {
        true
    }

    open spec fn try_from_spec(v: u64) -> Result<Status, ()> {
        status_result(v as int)
    }
}

impl From<Status> for u64 {
    fn from(value: Status) -> (n: u64)
        ensures
            n == value.spec_code(),
    {
        value.code() as u64
    }
}

impl FromSpecImpl<Status> for u64 {
    open spec fn obeys_from_spec() -> bool {
        true
    }

    open spec fn from_spec(v: Status) -> u64 {
        v.spec_code() as u64
    }
}

impl TryFrom<u128> for Status {
    type Error = ();

    fn try_from(value: u128) -> (r: Result<Status, ()>)
        ensures
            r == status_result(value as int),
    {
        if value > Status::MAX as u128 || value < Status::MIN as u128 {
            return Err(());
        }
        Status::try_from_code(value as u16)
    }
}

impl TryFromSpecImpl<u128> for Status {
    open spec fn obeys_try_from_spec() -> bool {
        true
    }

    open spec fn try_from_spec(v: u128) -> Result<Status, ()> {
        status_result(v as int)
    }
}

impl From<Status> for u128 {
    fn from(value: Status) -> (n: u128)
        ensures
            n == value.spec_code(),
    {
        value.code() as u128
    }
}

impl FromSpecImpl<Status> for u128 {
    open spec fn obeys_from_spec() -> bool {
        true
    }

    open spec fn from_spec(v: Status) -> u128 {
        v.spec_code() as u128
    }
}

impl TryFrom<usize> for Status {
    type Error = ();

    fn try_from(value: usize) -> (r: Result<Status, ()>)
        ensures
            r == status_result(value as int),
    {
        if value > Status::MAX as usize || value < Status::MIN as usize {
            return Err(());
        }
        Status::try_from_code(value as u16)
    }
}

impl TryFromSpecImpl<usize> for Status {
    open spec fn obeys_try_from_spec() -> bool {
        true
    }

    open spec fn try_from_spec(v: usize) -> Result<Status, ()> {
        status_result(v as int)
    }
}

impl From<Status> for usize {
    fn from(value: Status) -> (n: usize)
        ensures
            n == value.spec_code(),
    {
        value.code() as usize
    }
}

impl FromSpecImpl<Status> for usize {
    open spec fn obeys_from_spec() -> bool {
        true
    }

    open spec fn from_spec(v: Status) -> usize {
        v.spec_code() as usize
    }
}

impl TryFrom<i16> for Status {
    type Error = ();

    fn try_from(value: i16) -> (r: Result<Status, ()>)
        ensures
            r == status_result(value as int),
    {
        if value > Status::MAX as i16 || value < Status::MIN as i16 {
            return Err(());
        }
        Status::try_from_code(value as u16)
    }
}

impl TryFromSpecImpl<i16> for Status {
    open spec fn obeys_try_from_spec() -> bool {
        true
    }

    open spec fn try_from_spec(v: i16) -> Result<Status, ()> {
        status_result(v as int)
    }
}

impl From<Status> for i16 {
    fn from(value: Status) -> (n: i16)
        ensures
            n == value.spec_code(),
    {
        value.code() as i16
    }
}

impl FromSpecImpl<Status> for i16 {
    open spec fn obeys_from_spec() -> bool {
        true
    }

    open spec fn from_spec(v: Status) -> i16 {
        v.spec_code() as i16
    }
}

impl TryFrom<i32> for Status {
    type Error = ();

    fn try_from(value: i32) -> (r: Result<Status, ()>)
        ensures
            r == status_result(value as int),
    {
        if value > Status::MAX as i32 || value < Status::MIN as i32 {
            return Err(());
        }
        Status::try_from_code(value as u16)
    }
}

impl TryFromSpecImpl<i32> for Status {
    open spec fn obeys_try_from_spec() -> bool {
        true
    }

    open spec fn try_from_spec(v: i32) -> Result<Status, ()> {
        status_result(v as int)
    }
}

impl From<Status> for i32 {
    fn from(value: Status) -> (n: i32)
        ensures
            n == value.spec_code(),
    {
        value.code() as i32
    }
}

impl FromSpecImpl<Status> for i32 {
    open spec fn obeys_from_spec() -> bool {
        true
    }

    open spec fn from_spec(v: Status) -> i32 {
        v.spec_code() as i32
    }
}

impl TryFrom<i64> for Status {
    type Error = ();

    fn try_from(value: i64) -> (r: Result<Status, ()>)
        ensures
            r == status_result(value as int),
    {
        if value > Status::MAX as i64 || value < Status::MIN as i64 {
            return Err(());
        }
        Status::try_from_code(value as u16)
    }
}

impl TryFromSpecImpl<i64> for Status {
    open spec fn obeys_try_from_spec() -> bool {
        true
    }

    open spec fn try_from_spec(v: i64) -> Result<Status, ()> {
        status_result(v as int)
    }
}

impl From<Status> for i64 {
    fn from(value: Status) -> (n: i64)
        ensures
            n == value.spec_code(),
    {
        value.code() as i64
    }
}

impl FromSpecImpl<Status> for i64 {
    open spec fn obeys_from_spec() -> bool {
        true
    }

    open spec fn from_spec(v: Status) -> i64 {
        v.spec_code() as i64
    }
}

impl TryFrom<i128> for Status {
    type Error = ();

    fn try_from(value: i128) -> (r: Result<Status, ()>)
        ensures
            r == status_result(value as int),
    {
        if value > Status::MAX as i128 || value < Status::MIN as i128 {
            return Err(());
        }
        Status::try_from_code(value as u16)
    }
}

impl TryFromSpecImpl<i128> for Status {
    open spec fn obeys_try_from_spec() -> bool {
        true
    }

    open spec fn try_from_spec(v: i128) -> Result<Status, ()> {
        status_result(v as int)
    }
}

impl From<Status> for i128 {
    fn from(value: Status) -> (n: i128)
        ensures
            n == value.spec_code(),
    {
        value.code() as i128
    }
}

impl FromSpecImpl<Status> for i128 {
    open spec fn obeys_from_spec() -> bool {
        true
    }

    open spec fn from_spec(v: Status) -> i128 {
        v.spec_code() as i128
    }
}

impl TryFrom<isize> for Status {
    type Error = ();

    fn try_from(value: isize) -> (r: Result<Status, ()>)
        ensures
            r == status_result(value as int),
    {
        if value > Status::MAX as isize || value < Status::MIN as isize {
            return Err(());
        }
        Status::try_from_code(value as u16)
    }
}

impl TryFromSpecImpl<isize> for Status {
    open spec fn obeys_try_from_spec() -> bool {
        true
    }

    open spec fn try_from_spec(v: isize) -> Result<Status, ()> {
        status_result(v as int)
    }
}

impl From<Status> for isize {
    fn from(value: Status) -> (n: isize)
        ensures
            n == value.spec_code(),
    {
        value.code() as isize
    }
}

impl FromSpecImpl<Status> for isize {
    open spec fn obeys_from_spec() -> bool {
        true
    }

    open spec fn from_spec(v: Status) -> isize {
        v.spec_code() as isize
    }
}

} // verus!
