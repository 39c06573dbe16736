//! The byte-level conventions between the bridge and MoonBit: the contents of
//! byte buffers handed to MoonBit, the length field of MoonBit array headers,
//! the response envelope of MoonBit host callbacks, and error message text.
use vstd::prelude::*;
use crate::text::{chars_of, string_from_chars};

verus! {

// ---------------------------------------------------------------------------
// Buffers handed to MoonBit
// ---------------------------------------------------------------------------

/// The contents of a MoonBit byte buffer holding a copy of `bytes`.
pub fn copy_bytes_to_moonbit(bytes: &[u8]) -> (out: Vec<u8>)
    ensures
        out@ == bytes@,
{
    let mut out: Vec<u8> = Vec::new();
    let n = bytes.len();
    for i in 0..n
        invariant
            n == bytes@.len(),
            out@ == bytes@.take(i as int),
    {
        out.push(bytes[i]);
        assert(bytes@.take(i as int).push(bytes@[i as int]) =~= bytes@.take(i + 1));
    }
    assert(bytes@.take(n as int) =~= bytes@);
    out
}

/// The contents of a MoonBit byte buffer holding `value` encoded as UTF-8.
pub fn copy_string_to_moonbit(value: &str) -> (out: Vec<u8>)
    ensures
        out@ == vstd::utf8::encode_utf8(value@),
{
    copy_bytes_to_moonbit(value.as_bytes())
}

/// Mask selecting the length bits of a MoonBit object header's `meta` word.
pub const ARRAY_LENGTH_MASK: u32 = 0x0fff_ffff;

/// The element count that the `meta` word of a MoonBit array header records:
/// its low 28 bits.
pub fn moonbit_array_length_from_meta(meta: u32) -> (len: usize)
    ensures
        len == meta % 0x1000_0000,
{
    let bits: u32 = meta & ARRAY_LENGTH_MASK;
    assert(meta & 0x0fff_ffffu32 == meta % 0x1000_0000) by (bit_vector);
    bits as usize
}

// ---------------------------------------------------------------------------
// Error text
// ---------------------------------------------------------------------------

/// `message` with every NUL character replaced by a space, so that it can be
/// handed over as a C string.
pub open spec fn spec_sanitize_message(message: Seq<char>) -> Seq<char> {
    message.map_values(|c: char| if c == '\0' { ' ' } else { c })
}

/// Replaces every NUL character of `message` by a space.
pub fn sanitize_error_message(message: &str) -> (out: String)
    ensures
        out@ == spec_sanitize_message(message@),
        !out@.contains('\0'),
{
    let cs = chars_of(message);
    let mut clean: Vec<char> = Vec::new();
    let n = cs.len();
    for i in 0..n
        invariant
            n == cs@.len(),
            cs@ == message@,
            clean@ == spec_sanitize_message(cs@.take(i as int)),
    {
        let c = cs[i];
        clean.push(if c == '\0' { ' ' } else { c });
        assert(spec_sanitize_message(cs@.take(i + 1)) =~= spec_sanitize_message(
            cs@.take(i as int),
        ).push(if c == '\0' { ' ' } else { c }));
    }
    assert(cs@.take(n as int) =~= cs@);
    let out = string_from_chars(clean.as_slice());
    proof {
        if out@.contains('\0') {
            let k = choose|k: int| 0 <= k < out@.len() && out@[k] == '\0';
            assert(out@[k] == (if cs@[k] == '\0' { ' ' } else { cs@[k] }));
        }
    }
    out
}

/// What a panic carried.
pub enum PanicPayload {
    /// A `&'static str` message.
    StaticStr(&'static str),
    /// A `String` message.
    Owned(String),
    /// Anything else.
    Opaque,
}

/// The message reported for a panic inside the bridge.
pub open spec fn spec_panic_message(payload: PanicPayload) -> Seq<char> {
    match payload {
        PanicPayload::StaticStr(s) => s@,
        PanicPayload::Owned(s) => s@,
        PanicPayload::Opaque => "panic in rusty_v8 bridge"@,
    }
}

/// The message reported for a panic: its text when it carried one.
pub fn panic_message(payload: PanicPayload) -> (message: String)
    ensures
        message@ == spec_panic_message(payload),
{
    match payload {
        PanicPayload::StaticStr(s) => s.to_owned(),
        PanicPayload::Owned(s) => s,
        PanicPayload::Opaque => String::from_str("panic in rusty_v8 bridge"),
    }
}

// ---------------------------------------------------------------------------
// Host callback responses
// ---------------------------------------------------------------------------

/// `String::from_utf8`: a string exactly when `bytes` is valid UTF-8, and then
/// the string's characters are the decoded bytes.
#[verifier::external_body]
fn string_from_utf8(bytes: Vec<u8>) -> (r: Option<String>)
    ensures
        r is Some <==> vstd::utf8::valid_utf8(bytes@),
        r matches Some(s) ==> s@ == vstd::utf8::decode_utf8(bytes@),
{
    String::from_utf8(bytes).ok()
}

/// Why a MoonBit host callback refused a call.
#[derive(Debug)]
pub enum MoonBitCallbackError {
    /// A message, thrown or rejected as a string.
    Message(String),
    /// JSON text of a value to throw or reject with.
    Json(String),
}

/// What a MoonBit host callback answered.
#[derive(Debug)]
pub enum MoonBitCallbackEnvelope {
    /// The response payload.
    Payload(Vec<u8>),
    /// A refusal.
    Refused(MoonBitCallbackError),
}

/// The decoded form of a callback's response envelope, with strings and bytes
/// taken by their views.
pub enum EnvelopeView {
    Payload(Seq<u8>),
    Message(Seq<char>),
    Json(Seq<char>),
}

/// The envelope as a view.
pub open spec fn envelope_view(e: MoonBitCallbackEnvelope) -> EnvelopeView {
    match e {
        MoonBitCallbackEnvelope::Payload(b) => EnvelopeView::Payload(b@),
        MoonBitCallbackEnvelope::Refused(MoonBitCallbackError::Message(m)) => EnvelopeView::Message(m@),
        MoonBitCallbackEnvelope::Refused(MoonBitCallbackError::Json(j)) => EnvelopeView::Json(j@),
    }
}

/// The response envelope format: a tag byte (0 for a payload, 1 for a message
/// refusal, 2 for a JSON refusal) followed by the payload, or by UTF-8 text.
pub open spec fn spec_decode_envelope(bytes: Seq<u8>) -> Result<EnvelopeView, Seq<char>> {
    if bytes.len() == 0 {
        Err("callback returned empty response envelope"@)
    } else {
        let tag = bytes[0];
        let payload = bytes.skip(1);
        if tag == 0 {
            Ok(EnvelopeView::Payload(payload))
        } else if tag == 1 || tag == 2 {
            if vstd::utf8::valid_utf8(payload) {
                if tag == 1 {
                    Ok(EnvelopeView::Message(vstd::utf8::decode_utf8(payload)))
                } else {
                    Ok(EnvelopeView::Json(vstd::utf8::decode_utf8(payload)))
                }
            } else {
                Err("callback rejection returned invalid utf-8"@)
            }
        } else {
            Err("callback returned unknown response envelope"@)
        }
    }
}

/// Decodes the response envelope that a MoonBit host callback returned.
pub fn decode_moonbit_callback_envelope(bytes: Vec<u8>) -> (r: Result<
    MoonBitCallbackEnvelope,
    String,
>)
    ensures
        match r {
            Ok(e) => spec_decode_envelope(bytes@) == Ok::<EnvelopeView, Seq<char>>(envelope_view(e)),
            Err(m) => spec_decode_envelope(bytes@) == Err::<EnvelopeView, Seq<char>>(m@),
        },
{
    if bytes.len() == 0 {
        return Err(String::from_str("callback returned empty response envelope"));
    }
    let tag = bytes[0];
    let mut payload: Vec<u8> = Vec::new();
    let n = bytes.len();
    for i in 1..n
        invariant
            n == bytes@.len(),
            1 <= n,
            payload@ == bytes@.subrange(1, i as int),
    {
        payload.push(bytes[i]);
        assert(bytes@.subrange(1, i as int).push(bytes@[i as int]) =~= bytes@.subrange(1, i + 1));
    }
    assert(payload@ =~= bytes@.skip(1));
    if tag == 0 {
        Ok(MoonBitCallbackEnvelope::Payload(payload))
    } else if tag == 1 || tag == 2 {
        match string_from_utf8(payload) {
            Some(text) => {
                if tag == 1 {
                    Ok(MoonBitCallbackEnvelope::Refused(MoonBitCallbackError::Message(text)))
                } else {
                    Ok(MoonBitCallbackEnvelope::Refused(MoonBitCallbackError::Json(text)))
                }
            },
            None => Err(String::from_str("callback rejection returned invalid utf-8")),
        }
    } else {
        Err(String::from_str("callback returned unknown response envelope"))
    }
}

/// An envelope gives back what the callback put in it: a payload as it was,
/// and the text of a message or JSON refusal as the characters it encodes.
pub proof fn law_envelope_round_trip(payload: Seq<u8>, text: Seq<char>)
    ensures
        spec_decode_envelope(seq![0u8] + payload) == Ok::<EnvelopeView, Seq<char>>(
            EnvelopeView::Payload(payload),
        ),
        spec_decode_envelope(seq![1u8] + vstd::utf8::encode_utf8(text)) == Ok::<
            EnvelopeView,
            Seq<char>,
        >(EnvelopeView::Message(text)),
        spec_decode_envelope(seq![2u8] + vstd::utf8::encode_utf8(text)) == Ok::<
            EnvelopeView,
            Seq<char>,
        >(EnvelopeView::Json(text)),
{
    let encoded = vstd::utf8::encode_utf8(text);
    assert((seq![0u8] + payload).skip(1) =~= payload);
    assert((seq![1u8] + encoded).skip(1) =~= encoded);
    assert((seq![2u8] + encoded).skip(1) =~= encoded);
    vstd::utf8::encode_utf8_valid_utf8(text);
    vstd::utf8::encode_utf8_decode_utf8(text);
}

/// The outcome of a bytes callback given what it returned (`None` for a null
/// response): the payload, or why the call was refused.
pub open spec fn spec_bytes_callback_outcome(output: Option<Seq<u8>>) -> Result<
    Seq<u8>,
    EnvelopeView,
> {
    match output {
        None => Err(EnvelopeView::Message("callback returned null response"@)),
        Some(bytes) => match spec_decode_envelope(bytes) {
            Err(m) => Err(EnvelopeView::Message(m)),
            Ok(EnvelopeView::Payload(payload)) => Ok(payload),
            Ok(refusal) => Err(refusal),
        },
    }
}

/// The refusal as a view.
pub open spec fn callback_error_view(e: MoonBitCallbackError) -> EnvelopeView {
    match e {
        MoonBitCallbackError::Message(m) => EnvelopeView::Message(m@),
        MoonBitCallbackError::Json(j) => EnvelopeView::Json(j@),
    }
}

/// Interprets what a bytes callback returned (`None` for a null response).
pub fn bytes_callback_outcome(output: Option<Vec<u8>>) -> (r: Result<Vec<u8>, MoonBitCallbackError>)
    ensures
        match r {
            Ok(b) => spec_bytes_callback_outcome(
                match output {
                    Some(v) => Some(v@),
                    None => None,
                },
            ) == Ok::<Seq<u8>, EnvelopeView>(b@),
            Err(e) => spec_bytes_callback_outcome(
                match output {
                    Some(v) => Some(v@),
                    None => None,
                },
            ) == Err::<Seq<u8>, EnvelopeView>(callback_error_view(e)),
        },
{
    match output {
        None => Err(MoonBitCallbackError::Message(String::from_str("callback returned null response"))),
        Some(bytes) => match decode_moonbit_callback_envelope(bytes) {
            Err(m) => Err(MoonBitCallbackError::Message(m)),
            Ok(MoonBitCallbackEnvelope::Payload(payload)) => Ok(payload),
            Ok(MoonBitCallbackEnvelope::Refused(e)) => Err(e),
        },
    }
}

/// Interprets the payload of a JSON callback's response: it must be UTF-8.
pub fn json_callback_response(payload: Vec<u8>) -> (r: Result<String, MoonBitCallbackError>)
    ensures
        vstd::utf8::valid_utf8(payload@) ==> (r matches Ok(s) && s@ == vstd::utf8::decode_utf8(payload@)),
        !vstd::utf8::valid_utf8(payload@) ==> (r matches Err(MoonBitCallbackError::Message(m)) && m@
            == "json callback returned invalid utf-8"@),
{
    match string_from_utf8(payload) {
        Some(s) => Ok(s),
        None => Err(
            MoonBitCallbackError::Message(String::from_str("json callback returned invalid utf-8")),
        ),
    }
}

} // verus!
