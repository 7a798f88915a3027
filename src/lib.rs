//! A gateway that turns one HTTP/1.0 request read from a stream into a CGI/1.1
//! invocation, and the CGI program's reply back into an HTTP/1.0 response.
use vstd::prelude::*;

pub mod cgi_env;
pub mod header;
pub mod relay;
pub mod request;
pub mod response;
pub mod text;

pub use cgi_env::set_header;
pub use header::parse_header;
pub use relay::copy_exact;

verus! {

/// The two ways an exchange can fail: the client sent a malformed header, or the
/// gateway or the program failed.
#[allow(non_camel_case_types)]
#[derive(Clone, Copy, Debug, PartialEq, Eq, Structural)]
pub enum HTTP {
    _400,
    _500,
}

impl HTTP {
    /// The status line that reports this failure.
    pub fn status_line(&self) -> (r: String)
        ensures
            r@ == match self {
                HTTP::_400 => "HTTP/1.0 400 Invalid Header\r\n"@,
                HTTP::_500 => "HTTP/1.0 500 Internal Server Error\r\n"@,
            },
    {
        match self {
            HTTP::_400 => String::from_str("HTTP/1.0 400 Invalid Header\r\n"),
            HTTP::_500 => String::from_str("HTTP/1.0 500 Internal Server Error\r\n"),
        }
    }
}

} // verus!
