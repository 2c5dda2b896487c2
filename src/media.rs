//! What the media layer reports about a file, and the preview image form.
use vstd::prelude::*;

verus! {

/// Audio stream information.
#[derive(Debug, Clone)]
pub struct AudioInfo {
    pub codec: String,
    pub sample_rate: u32,
    pub channels: u32,
    pub channel_layout: String,
    pub bit_rate: Option<u64>,
    pub bits_per_sample: Option<u32>,
}

/// Subtitle stream information.
#[derive(Debug, Clone)]
pub struct SubtitleInfo {
    pub index: usize,
    pub codec: String,
    pub language: Option<String>,
    pub title: Option<String>,
}

/// The standard base64 encoding (with padding) of `bytes`.
pub uninterp spec fn base64_of(bytes: Seq<u8>) -> Seq<char>;

/// A character of the standard base64 alphabet: `A`-`Z`, `a`-`z`, `0`-`9`, `+`, `/`.
pub open spec fn base64_char(c: char) -> bool {
    let n = c as u32;
    (65 <= n <= 90) || (97 <= n <= 122) || (48 <= n <= 57) || c == '+' || c == '/'
}

/// How many `=` end the padded encoding of `n` bytes.
pub open spec fn base64_padding(n: nat) -> nat {
    if n % 3 == 0 {
        0
    } else {
        (3 - n % 3) as nat
    }
}

/// Relies on `base64::engine::general_purpose::STANDARD.encode` (standard
/// alphabet, padded): the result depends on the bytes alone, has four
/// characters for each started group of three bytes, and is made of alphabet
/// characters followed by the padding.
#[verifier::external_body]
fn base64_encode(bytes: &Vec<u8>) -> (r: String)
    ensures
        r@ == base64_of(bytes@),
        r@.len() == 4 * ((bytes@.len() + 2) / 3),
        forall|i: int|
            0 <= i < r@.len() - base64_padding(bytes@.len()) ==> base64_char(#[trigger] r@[i]),
        forall|i: int|
            r@.len() - base64_padding(bytes@.len()) <= i < r@.len() ==> #[trigger] r@[i] == '=',
{
    base64::Engine::encode(&base64::engine::general_purpose::STANDARD, bytes)
}

/// A PNG image as a `data:` URL.
pub fn png_data_url(png: &Vec<u8>) -> (r: String)
    ensures
        r@ == "data:image/png;base64,"@ + base64_of(png@),
        base64_of(png@).len() == 4 * ((png@.len() + 2) / 3),
{
    let encoded = base64_encode(png);
    String::from_str("data:image/png;base64,").concat(encoded.as_str())
}

} // verus!
