//! Saving a photo: the image arrives base64-encoded and is written as the
//! decoded bytes under the album's folder.
use vstd::prelude::*;
use base64::Engine;

verus! {

/// A photo to save: the album folder, the file name and the base64-encoded JPEG.
#[derive(Debug, Clone)]
pub struct SaveImageArgs {
    pub album: String,
    pub filename: String,
    pub data: String,
}

/// What base64's standard engine decodes a text to: the bytes, or the
/// message of its decoding error.
pub uninterp spec fn base64_decoded(data: Seq<char>) -> Result<Seq<u8>, Seq<char>>;

pub open spec fn bytes_result(r: Result<Vec<u8>, String>) -> Result<Seq<u8>, Seq<char>> {
    match r {
        Ok(b) => Ok(b@),
        Err(e) => Err(e@),
    }
}

/// `base64::engine::general_purpose::STANDARD.decode`, its error written out
/// as text. Its result is named: it depends on the text alone.
#[verifier::external_body]
fn decode_standard(data: &str) -> (r: Result<Vec<u8>, String>)
    ensures
        bytes_result(r) == base64_decoded(data@),
{
    base64::engine::general_purpose::STANDARD.decode(data).map_err(|e| e.to_string())
}

impl SaveImageArgs {
    /// The bytes of the image to write, or why its data is not base64.
    pub fn image_bytes(&self) -> (r: Result<Vec<u8>, String>)
        ensures
            bytes_result(r) == base64_decoded(self.data@),
    {
        decode_standard(self.data.as_str())
    }
}

} // verus!
