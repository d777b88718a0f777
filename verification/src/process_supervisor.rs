//! Reading the address of `dsh web` from the line it prints once it
//! listens: `dsh web: http://127.0.0.1:<port>` (interface contract C2).

use vstd::prelude::*;
use crate::text;

verus! {

/// The pattern of the URL line: group 1 is the URL, group 2 the port.
pub const URL_LINE_PATTERN: &'static str = "dsh web:\\s+(http://127\\.0\\.0\\.1:(\\d+))";

/// The text of capture group `group` of the first (leftmost) match of the
/// regular expression `pattern` in `text`, as the `regex` crate finds it;
/// `None` where the pattern does not compile, nothing matches, or the group
/// takes no part in the match.
pub uninterp spec fn regex_group(pattern: Seq<char>, text: Seq<char>, group: nat) -> Option<Seq<char>>;

/// `Regex::new(pattern)?.captures(text)?.get(group)`. Trusted: the result is
/// the capture that `regex_group` names, a function of its arguments alone.
#[verifier::external_body]
fn capture_group(pattern: &str, text: &str, group: usize) -> (r: Option<String>)
    ensures
        match r {
            Some(s) => regex_group(pattern@, text@, group as nat) == Some(s@),
            None => regex_group(pattern@, text@, group as nat) is None,
        },
{
    regex::Regex::new(pattern).ok()?.captures(text)?.get(group).map(|m| m.as_str().to_owned())
}

/// Why the URL line did not give a port.
#[derive(Clone, Copy, Debug, PartialEq, Eq, Structural)]
pub enum PortError {
    /// The port in the URL line is not a `u16`.
    BadPort,
}

/// What a captured port text gives: nothing where there was no match, else
/// the port, or `BadPort` where it is not a `u16`.
pub open spec fn port_of_capture(digits: Option<Seq<char>>) -> Option<Result<u16, PortError>> {
    match digits {
        None => None,
        Some(d) => match text::parse_u16(d) {
            Some(p) => Some(Ok(p)),
            None => Some(Err(PortError::BadPort)),
        },
    }
}

/// Reads the port from the captured port text of a URL line.
pub fn port_from_capture(digits: Option<&str>) -> (r: Option<Result<u16, PortError>>)
    ensures
        r == port_of_capture(match digits {
            Some(d) => Some(d@),
            None => None,
        }),
{
    match digits {
        None => None,
        Some(d) => {
            let cs = text::chars_of(d);
            match text::parse_u16_chars(&cs) {
                Some(p) => Some(Ok(p)),
                None => Some(Err(PortError::BadPort)),
            }
        },
    }
}

/// Reads one stdout line of `dsh web`: `None` where it is not the URL line
/// (keep reading), else its port or `BadPort`.
pub fn port_from_line(line: &str) -> (r: Option<Result<u16, PortError>>)
    ensures
        r == port_of_capture(regex_group(URL_LINE_PATTERN@, line@, 2)),
{
    match capture_group(URL_LINE_PATTERN, line, 2) {
        Some(d) => port_from_capture(Some(d.as_str())),
        None => port_from_capture(None),
    }
}

/// `http://127.0.0.1:<port>`, the address the window loads.
pub open spec fn server_url_text(port: u16) -> Seq<char> {
    "http://127.0.0.1:"@ + text::decimal(port as nat)
}

/// The address of the server listening on `port`.
pub fn server_url(port: u16) -> (r: String)
    ensures
        r@ == server_url_text(port),
{
    let mut r = "http://127.0.0.1:".to_owned();
    let d = text::decimal_string(port as u64);
    r.append(d.as_str());
    r
}

} // verus!
