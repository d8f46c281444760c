//! How an HTTP answer from a local endpoint is handed on: its status, then
//! its body bounded in size.
use vstd::prelude::*;
use vstd::string::*;
use vstd::utf8::{decode_utf8, encode_utf8_decode_utf8, is_char_boundary};

use crate::text::{decimal, decimal_string};

verus! {

/// The longest body handed on, in bytes.
pub const MAX_BODY_BYTES: usize = 32768;

/// The body as handed on: cut to `MAX_BODY_BYTES` bytes and marked when longer.
pub open spec fn bounded_body(body: &str) -> Seq<char> {
    if body.spec_bytes().len() > MAX_BODY_BYTES {
        decode_utf8(body.spec_bytes().subrange(0, MAX_BODY_BYTES as int)) + "\n[body truncated]"@
    } else {
        body@
    }
}

/// How an HTTP answer is handed on: `HTTP <status>` on the first line, then the body.
pub open spec fn http_text(status: u16, body: &str) -> Seq<char> {
    "HTTP "@ + decimal(status as nat) + "\n"@ + bounded_body(body)
}

/// Renders an HTTP answer. The cut of a long body must fall on a character
/// boundary (`String::truncate` otherwise panics).
pub fn format_http_response(status: u16, body: &str) -> (r: String)
    requires
        body.spec_bytes().len() <= usize::MAX,
        body.spec_bytes().len() <= MAX_BODY_BYTES || is_char_boundary(
            body.spec_bytes(),
            MAX_BODY_BYTES as int,
        ),
    ensures
        r@ == http_text(status, body),
{
    let mut r = String::from_str("HTTP ");
    r.append(decimal_string(status as u128).as_str());
    r.append("\n");
    if body.len() > MAX_BODY_BYTES {
        let (head, _rest) = body.split_at(MAX_BODY_BYTES);
        proof {
            encode_utf8_decode_utf8(head@);
        }
        let ghost before = r@;
        r.append(head);
        r.append("\n[body truncated]");
        assert(r@ =~= before + (head@ + "\n[body truncated]"@));
    } else {
        r.append(body);
    }
    r
}

/// Whether a body can be cut where `format_http_response` cuts it.
pub fn body_cut_ok(body: &str) -> (r: bool)
    requires
        body.spec_bytes().len() <= usize::MAX,
    ensures
        r == (body.spec_bytes().len() <= MAX_BODY_BYTES || is_char_boundary(
            body.spec_bytes(),
            MAX_BODY_BYTES as int,
        )),
{
    body.len() <= MAX_BODY_BYTES || body.is_char_boundary(MAX_BODY_BYTES)
}

} // verus!
