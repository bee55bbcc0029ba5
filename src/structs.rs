//! The request as the parser hands it to the router.
use vstd::prelude::*;

verus! {

/// Request method. Every method other than POST is treated as GET.
#[derive(Clone, Copy, Debug, PartialEq, Eq, Structural)]
pub enum HTTPMethod {
    Get,
    Post,
}

/// The request headers that the routes read, each absent if not sent.
#[derive(Clone, Debug)]
pub struct HTTPHeaders {
    pub host: Option<Vec<u8>>,
    pub user_agent: Option<Vec<u8>>,
    pub content_type: Option<Vec<u8>>,
}

/// One parsed request.
#[derive(Clone, Debug)]
pub struct HTTPRequest {
    pub method: HTTPMethod,
    /// First segment of the target, prefixed with `/` (`/` alone if none).
    pub target: Vec<u8>,
    /// Version token of the request line, echoed in every response.
    pub version: Vec<u8>,
    /// Content type of the response to send; `None` means `text/plain`.
    pub content_type: Option<Vec<u8>>,
    pub headers: HTTPHeaders,
    /// Second segment of the target: the echo text or the file name.
    pub body: Vec<u8>,
    /// The message body: every byte after the blank line that ends the headers.
    pub content: Vec<u8>,
    /// Value of `Accept-Encoding`.
    pub encoding: Option<Vec<u8>>,
    /// Value of `Connection`.
    pub connection: Option<Vec<u8>>,
}

/// Mathematical model of [`HTTPHeaders`].
pub struct HeadersView {
    pub host: Option<Seq<u8>>,
    pub user_agent: Option<Seq<u8>>,
    pub content_type: Option<Seq<u8>>,
}

/// Mathematical model of [`HTTPRequest`].
pub struct RequestView {
    pub method: HTTPMethod,
    pub target: Seq<u8>,
    pub version: Seq<u8>,
    pub content_type: Option<Seq<u8>>,
    pub headers: HeadersView,
    pub body: Seq<u8>,
    pub content: Seq<u8>,
    pub encoding: Option<Seq<u8>>,
    pub connection: Option<Seq<u8>>,
}

impl View for HTTPHeaders {
    type V = HeadersView;

    open spec fn view(&self) -> HeadersView {
        HeadersView {
            host: self.host.deep_view(),
            user_agent: self.user_agent.deep_view(),
            content_type: self.content_type.deep_view(),
        }
    }
}

impl View for HTTPRequest {
    type V = RequestView;

    open spec fn view(&self) -> RequestView {
        RequestView {
            method: self.method,
            target: self.target@,
            version: self.version@,
            content_type: self.content_type.deep_view(),
            headers: self.headers@,
            body: self.body@,
            content: self.content@,
            encoding: self.encoding.deep_view(),
            connection: self.connection.deep_view(),
        }
    }
}

} // verus!
