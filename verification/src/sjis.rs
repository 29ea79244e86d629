//! The text encoding of the ledger files. The files on disk are
//! Shift-JIS; the conversion itself is done by the encoding library and
//! is named here, not restated: both directions are deterministic
//! functions of their input alone.

use vstd::prelude::*;

verus! {

/// What decoding a byte sequence as Shift-JIS yields, BOM sniffing and
/// replacement characters included.
pub uninterp spec fn sjis_decoding(bytes: Seq<u8>) -> Seq<char>;

/// What encoding text as Shift-JIS yields, numeric character references
/// included for what the encoding cannot carry.
pub uninterp spec fn sjis_encoding(text: Seq<char>) -> Seq<u8>;

/// Relies on encoding_rs's `Encoding::decode` on `SHIFT_JIS`: the whole
/// buffer decoded in one call, malformed sequences replaced, a
/// deterministic function of the bytes alone. The length bound keeps out
/// the one documented panic, an overflowing size calculation.
#[verifier::external_body]
fn decode_sjis_bytes(bytes: &Vec<u8>) -> (r: String)
    requires
        bytes@.len() < usize::MAX / 4,
    ensures
        r@ == sjis_decoding(bytes@),
{
    let (decoded, _encoding, _had_errors) = encoding_rs::SHIFT_JIS.decode(bytes.as_slice());
    decoded.into_owned()
}

/// Relies on encoding_rs's `Encoding::encode` on `SHIFT_JIS`: the whole
/// string encoded in one call, unmappable characters escaped, a
/// deterministic function of the text alone. The length bound keeps out
/// the one documented panic, an overflowing size calculation.
#[verifier::external_body]
fn encode_sjis_str(s: &str) -> (r: Vec<u8>)
    requires
        s@.len() < usize::MAX / 16,
    ensures
        r@ == sjis_encoding(s@),
{
    let (encoded, _encoding, _had_errors) = encoding_rs::SHIFT_JIS.encode(s);
    encoded.into_owned()
}

/// Decodes one ledger file's bytes into the text the loaders split.
pub fn decode_text(bytes: &Vec<u8>) -> (r: String)
    requires
        bytes@.len() < usize::MAX / 4,
    ensures
        r@ == sjis_decoding(bytes@),
{
    decode_sjis_bytes(bytes)
}

/// Frames one exported line for the file: the line, a newline after it,
/// the whole encoded as Shift-JIS.
pub fn encode_csv_line(s: &str) -> (r: Vec<u8>)
    requires
        s@.len() < usize::MAX / 32,
    ensures
        r@ == sjis_encoding(s@ + "\n"@),
{
    proof {
        reveal_strlit("\n");
    }
    let framed = String::from_str(s).concat("\n");
    encode_sjis_str(framed.as_str())
}

} // verus!
