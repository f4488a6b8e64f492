//! Rendering one event as a server-sent-event frame.
//!
//! The frame is `data: <json>\n\n`, where the JSON object carries exactly
//! the fields `signature`, `mint_address`, `creator_address` and `slot`
//! (the slot as a decimal number).  The field texts are embedded verbatim,
//! so rendering first checks that they need no JSON escaping — base-58 text
//! never does; a frame is refused rather than rendered wrongly.

use vstd::prelude::*;
use vstd::utf8::encode_utf8;
use vstd::utf8::is_ascii_chars;
use vstd::utf8::is_ascii_chars_encode_utf8;

use crate::classify::is_base58_char;
use crate::event::CreateEvent;

verus! {

/// A byte that may sit inside a JSON string without escaping: not a quote,
/// not a backslash, not a control byte.
pub open spec fn json_clean_byte(b: u8) -> bool {
    b != 0x22 && b != 0x5c && b >= 0x20
}

/// A text whose UTF-8 bytes all embed in a JSON string unescaped.
pub open spec fn json_clean(s: Seq<char>) -> bool {
    forall|i: int|
        0 <= i < encode_utf8(s).len() ==> json_clean_byte(#[trigger] encode_utf8(s)[i])
}

/// All three text fields of the event embed unescaped.
pub open spec fn event_clean(e: CreateEvent) -> bool {
    &&& json_clean(e.signature@)
    &&& json_clean(e.mint_address@)
    &&& json_clean(e.creator_address@)
}

/// The decimal digits of `n`, most significant first.
pub open spec fn dec_bytes(n: nat) -> Seq<u8>
    decreases n,
{
    if n < 10 {
        seq![(0x30 + n) as u8]
    } else {
        dec_bytes(n / 10).push((0x30 + n % 10) as u8)
    }
}

/// The full frame for an event: `data: {..}\n\n` with the four fields in
/// order and the slot in decimal.
pub open spec fn frame_bytes(e: CreateEvent) -> Seq<u8> {
    encode_utf8("data: {\"signature\":\""@) + encode_utf8(e.signature@) + encode_utf8(
        "\",\"mint_address\":\""@,
    ) + encode_utf8(e.mint_address@) + encode_utf8("\",\"creator_address\":\""@) + encode_utf8(
        e.creator_address@,
    ) + encode_utf8("\",\"slot\":"@) + dec_bytes(e.slot as nat) + encode_utf8("}\n\n"@)
}

/// Base-58 text always embeds in a JSON string without escaping, so a
/// frame is never refused on account of a classified event's signature or
/// creator field: the classifier promises both are base-58 text.
pub proof fn lemma_base58_text_is_clean(s: Seq<char>)
    requires
        forall|i: int| 0 <= i < s.len() ==> is_base58_char(#[trigger] s[i]),
    ensures
        json_clean(s),
{
    assert(is_ascii_chars(s));
    is_ascii_chars_encode_utf8(s);
    assert forall|i: int|
        0 <= i < encode_utf8(s).len() implies json_clean_byte(#[trigger] encode_utf8(s)[i]) by {
        assert(encode_utf8(s)[i] == s[i] as u8);
        assert(is_base58_char(s[i]));
    }
}

/// Whether every byte of `b` embeds in a JSON string unescaped.
fn bytes_are_clean(b: &[u8]) -> (r: bool)
    ensures
        r == (forall|i: int| 0 <= i < b@.len() ==> json_clean_byte(#[trigger] b@[i])),
{
    let n = b.len();
    let mut i: usize = 0;
    while i < n
        invariant
            n == b@.len(),
            0 <= i <= n,
            forall|k: int| 0 <= k < i ==> json_clean_byte(#[trigger] b@[k]),
        decreases n - i,
    {
        let c = b[i];
        if c == 0x22 || c == 0x5c || c < 0x20 {
            return false;
        }
        i += 1;
    }
    true
}

/// Whether the event's text fields all embed unescaped.
pub fn event_is_clean(e: &CreateEvent) -> (r: bool)
    ensures
        r == event_clean(*e),
{
    bytes_are_clean(e.signature.as_str().as_bytes()) && bytes_are_clean(
        e.mint_address.as_str().as_bytes(),
    ) && bytes_are_clean(e.creator_address.as_str().as_bytes())
}

/// The decimal digits of `n`, most significant first.
fn u64_dec_bytes(n: u64) -> (r: Vec<u8>)
    ensures
        r@ == dec_bytes(n as nat),
{
    let mut digits: Vec<u8> = Vec::new();
    let mut x: u64 = n;
    proof {
        assert(dec_bytes(n as nat) =~= dec_bytes(n as nat) + digits@);
    }
    while x >= 10
        invariant
            dec_bytes(n as nat) == dec_bytes(x as nat) + digits@,
        decreases x,
    {
        let ghost x0 = x as nat;
        let d: u8 = 0x30 + (x % 10) as u8;
        digits.insert(0, d);
        x = x / 10;
        proof {
            assert(dec_bytes(x0) == dec_bytes(x0 / 10).push(d));
            assert(dec_bytes(x0 / 10).push(d) =~= dec_bytes(x0 / 10) + seq![d]);
            assert(x as nat == x0 / 10);
            assert(dec_bytes(n as nat) =~= dec_bytes(x as nat) + digits@);
        }
    }
    let ghost x1 = x as nat;
    let d: u8 = 0x30 + (x % 10) as u8;
    digits.insert(0, d);
    proof {
        assert(dec_bytes(x1) =~= seq![d]);
        assert(dec_bytes(n as nat) =~= digits@);
    }
    digits
}

/// Render the frame for an event whose fields embed unescaped; refuse any
/// other event rather than emit a malformed frame.
pub fn render_frame(e: &CreateEvent) -> (r: Option<Vec<u8>>)
    ensures
        event_clean(*e) ==> (r matches Some(f) && f@ == frame_bytes(*e)),
        !event_clean(*e) ==> r is None,
{
    if !event_is_clean(e) {
        return None;
    }
    let mut out: Vec<u8> = Vec::new();
    out.extend_from_slice("data: {\"signature\":\"".as_bytes());
    out.extend_from_slice(e.signature.as_str().as_bytes());
    out.extend_from_slice("\",\"mint_address\":\"".as_bytes());
    out.extend_from_slice(e.mint_address.as_str().as_bytes());
    out.extend_from_slice("\",\"creator_address\":\"".as_bytes());
    out.extend_from_slice(e.creator_address.as_str().as_bytes());
    out.extend_from_slice("\",\"slot\":".as_bytes());
    let slot_digits = u64_dec_bytes(e.slot);
    out.extend_from_slice(slot_digits.as_slice());
    out.extend_from_slice("}\n\n".as_bytes());
    proof {
        assert(out@ =~= frame_bytes(*e));
    }
    Some(out)
}

} // verus!
