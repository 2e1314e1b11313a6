//! URL-to-path decoding. An address is percent-decoded once, verbatim.

use vstd::prelude::*;
use vstd::string::StringSliceAdditionalSpecFns;
use vstd::utf8::{decode_utf8, valid_utf8};

use crate::path::joined;

verus! {

/// The value of an ASCII hexadecimal digit.
pub open spec fn hex_value(b: u8) -> Option<u8> {
    if 0x30 <= b <= 0x39 {
        Some((b - 0x30) as u8)
    } else if 0x61 <= b <= 0x66 {
        Some((b - 0x61 + 10) as u8)
    } else if 0x41 <= b <= 0x46 {
        Some((b - 0x41 + 10) as u8)
    } else {
        None
    }
}

/// Byte-level percent decoding: every `%` followed by two hexadecimal digits
/// becomes the byte they spell; every other byte stays.
pub open spec fn percent_decoded(b: Seq<u8>) -> Seq<u8>
    decreases b.len(),
{
    if b.len() == 0 {
        Seq::empty()
    } else if b[0] == 0x25 && b.len() >= 3 && hex_value(b[1]) is Some && hex_value(b[2]) is Some {
        seq![(hex_value(b[1])->0 * 16 + hex_value(b[2])->0) as u8] + percent_decoded(b.skip(3))
    } else {
        seq![b[0]] + percent_decoded(b.skip(1))
    }
}

/// The text `percent_encoding` makes of an address: the percent-decoded bytes
/// read as UTF-8, each invalid sequence replaced by U+FFFD.
pub uninterp spec fn percent_decode_text(raw: Seq<char>) -> Seq<char>;

/// Calls `percent_encoding::percent_decode_str(raw).decode_utf8_lossy()`. The
/// crate decodes `%XX` byte by byte and then reads the bytes as UTF-8; where
/// they are valid UTF-8 the result is exactly what they encode. How invalid
/// sequences are replaced is left to the name.
#[verifier::external_body]
fn percent_decode_lossy(raw: &str) -> (res: String)
    ensures
        res@ == percent_decode_text(raw@),
        valid_utf8(percent_decoded(raw.spec_bytes())) ==> res@ == decode_utf8(
            percent_decoded(raw.spec_bytes()),
        ),
{
    percent_encoding::percent_decode_str(raw).decode_utf8_lossy().into_owned()
}

/// Decodes a workspace-relative address. The empty address is the root.
pub fn decode_relative(raw: &str) -> (res: String)
    ensures
        res@ == percent_decode_text(raw@),
        valid_utf8(percent_decoded(raw.spec_bytes())) ==> res@ == decode_utf8(
            percent_decoded(raw.spec_bytes()),
        ),
{
    percent_decode_lossy(raw)
}

/// The absolute path an absolute address names, given its decoded text.
pub open spec fn absolute_address(decoded: Seq<char>) -> Seq<char> {
    if decoded.len() == 0 {
        seq!['/']
    } else {
        joined(seq!['/'], decoded)
    }
}

/// Decodes a remote absolute address. `raw` is the `/fs/` suffix without its
/// leading separator, so the empty address is the filesystem root.
pub fn decode_absolute(raw: &str) -> (res: String)
    ensures
        res@ == absolute_address(percent_decode_text(raw@)),
        crate::path::has_root(res@),
{
    let decoded = percent_decode_lossy(raw);
    let root = "/";
    proof {
        reveal_strlit("/");
    }
    if decoded.as_str().is_empty() {
        String::from_str(root)
    } else {
        let res = crate::path::join(root, decoded.as_str());
        assert(res@ == joined(seq!['/'], decoded@));
        res
    }
}

} // verus!
