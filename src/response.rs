//! Handling of the CGI program's reply: its `Status` pseudo-header becomes the
//! HTTP/1.0 status line, and the other headers before it are dropped.
use vstd::prelude::*;
use vstd::string::StringExecFns;
use crate::HTTP;
use crate::header::{has_colon, header_name, header_value, parse_header};

verus! {

/// The HTTP/1.0 status line with reason `reason`.
pub open spec fn status_line_of(reason: Seq<char>) -> Seq<char> {
    "HTTP/1.0 "@ + reason + "\r\n"@
}

/// Builds the HTTP/1.0 status line `HTTP/1.0 <reason>\r\n`.
pub fn status_line(reason: &str) -> (r: String)
    ensures
        r@ == status_line_of(reason@),
{
    String::from_str("HTTP/1.0 ").concat(reason).concat("\r\n")
}

/// The status line for a header of normalised name `name`, when it is `STATUS`;
/// `None` for any other header.
pub fn status_from_field(name: &String, value: &String) -> (r: Option<String>)
    ensures
        r is Some <==> name@ == "STATUS"@,
        r matches Some(l) ==> l@ == status_line_of(value@),
{
    if *name == String::from_str("STATUS") {
        Some(status_line(value.as_str()))
    } else {
        None
    }
}

/// Reads one line of the program's reply. A line that is no header is a server error;
/// a `Status` header gives the status line to send; any other header gives `None` and
/// is dropped.
pub fn scan_response_line(line: &String) -> (r: Result<Option<String>, HTTP>)
    ensures
        r is Err <==> !has_colon(line@),
        r matches Err(e) ==> e == HTTP::_500,
        r matches Ok(s) ==> (s is Some <==> header_name(line@) == "STATUS"@),
        r matches Ok(Some(l)) ==> l@ == status_line_of(header_value(line@)),
{
    match parse_header(line) {
        Ok((name, value)) => Ok(status_from_field(&name, &value)),
        Err(_) => Err(HTTP::_500),
    }
}

} // verus!
