use vstd::prelude::*;
use vstd::utf8::{decode_utf8, valid_utf8};

verus! {

/// The byte sent in place of a zero byte.
pub const PLACEHOLDER: u8 = 63;

/// `b` with every zero byte replaced by the placeholder.
pub open spec fn sanitized(b: Seq<u8>) -> Seq<u8> {
    b.map_values(|x: u8| if x == 0 { PLACEHOLDER } else { x })
}

/// The text that a lossy UTF-8 decoding of `b` gives.
pub uninterp spec fn utf8_lossy(b: Seq<u8>) -> Seq<char>;

/// Relies on `String::from_utf8_lossy`: valid UTF-8 is decoded as it
/// stands, and an empty buffer gives an empty text.
#[verifier::external_body]
fn decode_lossy(b: &[u8]) -> (r: String)
    ensures
        r@ == utf8_lossy(b@),
        valid_utf8(b@) ==> r@ == decode_utf8(b@),
{
    String::from_utf8_lossy(b).into_owned()
}

/// Replaces each zero byte of `msg` by the placeholder, keeping every other
/// byte and the length.
pub fn sanitize(msg: &[u8]) -> (r: Vec<u8>)
    ensures
        r@ == sanitized(msg@),
{
    let mut out: Vec<u8> = Vec::with_capacity(msg.len());
    let mut i: usize = 0;
    while i < msg.len()
        invariant
            i <= msg@.len(),
            out@ == sanitized(msg@.subrange(0, i as int)),
        decreases msg@.len() - i,
    {
        let b = msg[i];
        out.push(if b == 0 { PLACEHOLDER } else { b });
        assert(msg@.subrange(0, i + 1) =~= msg@.subrange(0, i as int).push(b));
        assert(out@ =~= sanitized(msg@.subrange(0, i + 1)));
        i = i + 1;
    }
    assert(msg@.subrange(0, msg@.len() as int) =~= msg@);
    out
}

/// The text that the error channel carries for the raw message `msg`: zero
/// bytes become the placeholder, then what is not valid UTF-8 is replaced.
pub open spec fn bridged(msg: Seq<u8>) -> Seq<char> {
    utf8_lossy(sanitized(msg))
}

/// Turns a raw engine message into the text handed to the diagnostic sink.
pub fn bridge_message(msg: &[u8]) -> (r: String)
    ensures
        r@ == bridged(msg@),
        valid_utf8(sanitized(msg@)) ==> r@ == decode_utf8(sanitized(msg@)),
{
    let clean = sanitize(msg);
    decode_lossy(clean.as_slice())
}

} // verus!

verus! {

/// Sanitizing keeps the length and every byte but the zero bytes, which
/// become the placeholder; no zero byte is left.
pub proof fn lemma_sanitized_bytes(msg: Seq<u8>)
    ensures
        sanitized(msg).len() == msg.len(),
        forall|i: int|
            0 <= i < msg.len() ==> #[trigger] sanitized(msg)[i] == if msg[i] == 0 {
                PLACEHOLDER
            } else {
                msg[i]
            },
        forall|i: int| 0 <= i < msg.len() ==> #[trigger] sanitized(msg)[i] != 0,
{
}

} // verus!
