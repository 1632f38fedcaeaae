//! Images as text, for handing to a web view.

use base64::engine::general_purpose::STANDARD;
use base64::engine::Engine;
use vstd::prelude::*;

verus! {

/// The standard base64 encoding, with padding, of `data`: what
/// `base64::engine::general_purpose::STANDARD` encodes it to.
pub uninterp spec fn base64_standard(data: Seq<u8>) -> Seq<char>;

/// Whether the encoding of `len` bytes has a length that fits the machine.
pub open spec fn is_encodable(len: nat) -> bool {
    (len / 3) * 4 + 4 <= usize::MAX
}

/// `Engine::encode` of the standard engine: the encoding that
/// `base64_standard` names. The crate panics where the length of the
/// result overflows; those inputs are left out.
#[verifier::external_body]
fn encode_standard(data: &Vec<u8>) -> (text: String)
    requires
        is_encodable(data@.len()),
    ensures
        text@ == base64_standard(data@),
{
    STANDARD.encode(data)
}

/// The content of an image file as base64 text; `None` for content so
/// long that its encoding could not be held.
pub fn read_image(data: &Vec<u8>) -> (text: Option<String>)
    ensures
        match text {
            Some(encoded) => is_encodable(data@.len()) && encoded@ == base64_standard(data@),
            None => !is_encodable(data@.len()),
        },
{
    if data.len() / 3 <= (usize::MAX - 4) / 4 {
        Some(encode_standard(data))
    } else {
        None
    }
}

} // verus!
