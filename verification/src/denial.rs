//! Denials that the guest is told of.

use vstd::prelude::*;
use vstd::utf8::encode_utf8;

use crate::text::{decimal_text, push_decimal, push_text};

verus! {

/// An HTTP status and the stable reason code behind it.
#[derive(Clone, Copy, Debug, PartialEq, Eq)]
pub struct Denial {
    pub status: u16,
    pub reason: &'static str,
}

/// What a denial says.
#[verifier::ext_equal]
pub struct DenialView {
    pub status: u16,
    pub reason: Seq<char>,
}

impl View for Denial {
    type V = DenialView;

    open spec fn view(&self) -> DenialView {
        DenialView { status: self.status, reason: self.reason@ }
    }
}

/// The denial with this status and this reason code.
pub open spec fn denied_with(status: u16, reason: &'static str) -> DenialView {
    DenialView { status, reason: reason@ }
}

impl Denial {
    pub fn new(status: u16, reason: &'static str) -> (denial: Self)
        ensures
            denial.status == status,
            denial.reason == reason,
            denial@ == denied_with(status, reason),
    {
        Denial { status, reason }
    }
}

/// The body of the response to a denied request.
pub open spec fn denial_body(reason: Seq<char>) -> Seq<char> {
    "sandbox-egress denied: "@ + reason + "\n"@
}

/// The whole response to a denied request. The length of the body counts its
/// bytes.
pub open spec fn denial_text(denial: DenialView) -> Seq<char> {
    "HTTP/1.1 "@ + decimal_text(denial.status as nat)
        + " Denied\r\ncontent-type: text/plain\r\ncontent-length: "@ + decimal_text(
        encode_utf8(denial_body(denial.reason)).len(),
    ) + "\r\nconnection: close\r\n\r\n"@ + denial_body(denial.reason)
}

/// The response to a denied request: nothing once the handshake deadline has
/// come.
pub fn denial_response(denial: Denial, now: u128, handshake_deadline: u128) -> (response: Option<
    String,
>)
    ensures
        match response {
            Some(text) => now < handshake_deadline && text@ == denial_text(denial@),
            None => now >= handshake_deadline,
        },
{
    if now >= handshake_deadline {
        return None;
    }
    let mut body = "sandbox-egress denied: ".to_owned();
    push_text(&mut body, denial.reason);
    push_text(&mut body, "\n");
    let length: usize = body.as_str().as_bytes().len();
    let mut response = "HTTP/1.1 ".to_owned();
    push_decimal(&mut response, denial.status as u64);
    push_text(&mut response, " Denied\r\ncontent-type: text/plain\r\ncontent-length: ");
    push_decimal(&mut response, length as u64);
    push_text(&mut response, "\r\nconnection: close\r\n\r\n");
    push_text(&mut response, body.as_str());
    Some(response)
}

/// The response to a denial begins with its status, states the length of its
/// body in bytes, and ends with the body behind an empty line; the body names
/// the reason.
pub proof fn law_denials_are_well_formed_responses(denial: DenialView)
    ensures
        ({
            let text = denial_text(denial);
            let body = denial_body(denial.reason);
            let status = decimal_text(denial.status as nat);
            let length = decimal_text(encode_utf8(body).len());
            let start = (9 + status.len() + 51) as int;
            let end = start + length.len();
            &&& text.subrange(0, 9) == "HTTP/1.1 "@
            &&& text.subrange(9, 9 + status.len() as int) == status
            &&& text.subrange(start, end) == length
            &&& text.subrange(end, end + 23) == "\r\nconnection: close\r\n\r\n"@
            &&& text.skip(end + 23) == body
            &&& body.len() == denial.reason.len() + 24
            &&& body.subrange(23, 23 + denial.reason.len() as int) == denial.reason
        }),
{
    reveal_strlit("HTTP/1.1 ");
    reveal_strlit(" Denied\r\ncontent-type: text/plain\r\ncontent-length: ");
    reveal_strlit("\r\nconnection: close\r\n\r\n");
    reveal_strlit("sandbox-egress denied: ");
    reveal_strlit("\n");
    let text = denial_text(denial);
    let body = denial_body(denial.reason);
    let status = decimal_text(denial.status as nat);
    let length = decimal_text(encode_utf8(body).len());
    let start = (9 + status.len() + 51) as int;
    let end = start + length.len();
    assert(text.subrange(0, 9) =~= "HTTP/1.1 "@);
    assert(text.subrange(9, 9 + status.len() as int) =~= status);
    assert(text.subrange(start, end) =~= length);
    assert(text.subrange(end, end + 23) =~= "\r\nconnection: close\r\n\r\n"@);
    assert(text.skip(end + 23) =~= body);
    assert(body.subrange(23, 23 + denial.reason.len() as int) =~= denial.reason);
}

} // verus!
