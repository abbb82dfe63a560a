//! The base encodings an identifier can be rendered in, the symbol alphabet
//! of each, and the one call into the `multibase` crate that performs the
//! rendering itself.

use vstd::prelude::*;

use crate::error::Error;
use crate::error::FsStorageError;

verus! {

/// A multibase base encoding. Each variant corresponds to one entry of the
/// multibase table; only the variants with a fixed finite symbol alphabet are
/// supported by the storage engine (see [`supported`]).
#[derive(Clone, Copy, Debug, PartialEq, Eq, Structural)]
pub enum Base {
    /// 8-bit binary, kept unmodified
    Identity,
    /// base 2
    Base2,
    /// base 8
    Base8,
    /// base 10
    Base10,
    /// lower-case hexadecimal
    Base16Lower,
    /// upper-case hexadecimal
    Base16Upper,
    /// rfc4648 base 32 without padding, lower case
    Base32Lower,
    /// rfc4648 base 32 without padding, upper case
    Base32Upper,
    /// rfc4648 base 32 with padding, lower case
    Base32PadLower,
    /// rfc4648 base 32 with padding, upper case
    Base32PadUpper,
    /// rfc4648 base 32 hex without padding, lower case
    Base32HexLower,
    /// rfc4648 base 32 hex without padding, upper case
    Base32HexUpper,
    /// rfc4648 base 32 hex with padding, lower case
    Base32HexPadLower,
    /// rfc4648 base 32 hex with padding, upper case
    Base32HexPadUpper,
    /// z-base-32
    Base32Z,
    /// base 36, lower case
    Base36Lower,
    /// base 36, upper case
    Base36Upper,
    /// rfc9285 base 45
    Base45,
    /// base 58, Flickr alphabet
    Base58Flickr,
    /// base 58, Bitcoin alphabet
    Base58Btc,
    /// rfc4648 base 64 without padding
    Base64,
    /// rfc4648 base 64 with padding
    Base64Pad,
    /// rfc4648 base 64 url without padding
    Base64Url,
    /// rfc4648 base 64 url with padding
    Base64UrlPad,
    /// base 256 over an emoji alphabet
    Base256Emoji,
}

/// The multibase code character that prefixes every string rendered in the
/// given base.
pub open spec fn base_code(b: Base) -> char {
    match b {
        Base::Identity => '\u{0}',
        Base::Base2 => '0',
        Base::Base8 => '7',
        Base::Base10 => '9',
        Base::Base16Lower => 'f',
        Base::Base16Upper => 'F',
        Base::Base32Lower => 'b',
        Base::Base32Upper => 'B',
        Base::Base32PadLower => 'c',
        Base::Base32PadUpper => 'C',
        Base::Base32HexLower => 'v',
        Base::Base32HexUpper => 'V',
        Base::Base32HexPadLower => 't',
        Base::Base32HexPadUpper => 'T',
        Base::Base32Z => 'h',
        Base::Base36Lower => 'k',
        Base::Base36Upper => 'K',
        Base::Base45 => 'R',
        Base::Base58Flickr => 'Z',
        Base::Base58Btc => 'z',
        Base::Base64 => 'm',
        Base::Base64Pad => 'M',
        Base::Base64Url => 'u',
        Base::Base64UrlPad => 'U',
        Base::Base256Emoji => '\u{1F680}',
    }
}

/// Whether the storage engine knows the symbol alphabet of the base. The
/// bases without a fixed finite text alphabet are not supported.
pub open spec fn supported(b: Base) -> bool {
    match b {
        Base::Identity => false,
        Base::Base45 => false,
        Base::Base256Emoji => false,
        _ => true,
    }
}

/// The ordered symbol alphabet of a supported base; empty for the bases the
/// engine does not support. Padded encodings may additionally emit the
/// padding character `=`, which is deliberately not part of the alphabet.
pub open spec fn alphabet(b: Base) -> Seq<char> {
    match b {
        Base::Base2 => "01"@,
        Base::Base8 => "01234567"@,
        Base::Base10 => "0123456789"@,
        Base::Base16Lower => "0123456789abcdef"@,
        Base::Base16Upper => "0123456789ABCDEF"@,
        Base::Base32Lower | Base::Base32PadLower => "abcdefghijklmnopqrstuvwxyz234567"@,
        Base::Base32Upper | Base::Base32PadUpper => "ABCDEFGHIJKLMNOPQRSTUVWXYZ234567"@,
        Base::Base32HexLower | Base::Base32HexPadLower => "0123456789abcdefghijklmnopqrstuv"@,
        Base::Base32HexUpper | Base::Base32HexPadUpper => "0123456789ABCDEFGHIJKLMNOPQRSTUV"@,
        Base::Base32Z => "ybndrfg8ejkmcpqxot1uwisza345h769"@,
        Base::Base36Lower => "0123456789abcdefghijklmnopqrstuvwxyz"@,
        Base::Base36Upper => "0123456789ABCDEFGHIJKLMNOPQRSTUVWXYZ"@,
        Base::Base58Flickr => "123456789abcdefghijkmnopqrstuvwxyzABCDEFGHJKLMNPQRSTUVWXYZ"@,
        Base::Base58Btc => "123456789ABCDEFGHJKLMNPQRSTUVWXYZabcdefghijkmnopqrstuvwxyz"@,
        Base::Base64 | Base::Base64Pad => "ABCDEFGHIJKLMNOPQRSTUVWXYZabcdefghijklmnopqrstuvwxyz0123456789+/"@,
        Base::Base64Url | Base::Base64UrlPad => "ABCDEFGHIJKLMNOPQRSTUVWXYZabcdefghijklmnopqrstuvwxyz0123456789-_"@,
        Base::Identity | Base::Base45 | Base::Base256Emoji => Seq::<char>::empty(),
    }
}

impl Base {
    /// Whether the storage engine knows this base's symbol alphabet.
    pub fn is_supported(&self) -> (r: bool)
        ensures
            r == supported(*self),
    {
        match self {
            Base::Identity | Base::Base45 | Base::Base256Emoji => false,
            _ => true,
        }
    }

    /// The multibase code character of this base.
    pub fn code(&self) -> (c: char)
        ensures
            c == base_code(*self),
    {
        match self {
            Base::Identity => '\u{0}',
            Base::Base2 => '0',
            Base::Base8 => '7',
            Base::Base10 => '9',
            Base::Base16Lower => 'f',
            Base::Base16Upper => 'F',
            Base::Base32Lower => 'b',
            Base::Base32Upper => 'B',
            Base::Base32PadLower => 'c',
            Base::Base32PadUpper => 'C',
            Base::Base32HexLower => 'v',
            Base::Base32HexUpper => 'V',
            Base::Base32HexPadLower => 't',
            Base::Base32HexPadUpper => 'T',
            Base::Base32Z => 'h',
            Base::Base36Lower => 'k',
            Base::Base36Upper => 'K',
            Base::Base45 => 'R',
            Base::Base58Flickr => 'Z',
            Base::Base58Btc => 'z',
            Base::Base64 => 'm',
            Base::Base64Pad => 'M',
            Base::Base64Url => 'u',
            Base::Base64UrlPad => 'U',
            Base::Base256Emoji => '\u{1F680}',
        }
    }
}

/// The ordered symbol alphabet of the base, or `UnsupportedBaseEncoding` for
/// a base without one. The shard directories of a store are named by exactly
/// these symbols.
pub fn encoding_symbols(base: &Base) -> (r: Result<String, Error>)
    ensures
        match r {
            Ok(s) => supported(*base) && s@ == alphabet(*base),
            Err(e) => !supported(*base) && e == Error::FsStorage(
                FsStorageError::UnsupportedBaseEncoding(*base),
            ),
        },
{
    match base {
        Base::Base2 => Ok(String::from_str("01")),
        Base::Base8 => Ok(String::from_str("01234567")),
        Base::Base10 => Ok(String::from_str("0123456789")),
        Base::Base16Lower => Ok(String::from_str("0123456789abcdef")),
        Base::Base16Upper => Ok(String::from_str("0123456789ABCDEF")),
        Base::Base32Lower | Base::Base32PadLower => Ok(
            String::from_str("abcdefghijklmnopqrstuvwxyz234567"),
        ),
        Base::Base32Upper | Base::Base32PadUpper => Ok(
            String::from_str("ABCDEFGHIJKLMNOPQRSTUVWXYZ234567"),
        ),
        Base::Base32HexLower | Base::Base32HexPadLower => Ok(
            String::from_str("0123456789abcdefghijklmnopqrstuv"),
        ),
        Base::Base32HexUpper | Base::Base32HexPadUpper => Ok(
            String::from_str("0123456789ABCDEFGHIJKLMNOPQRSTUV"),
        ),
        Base::Base32Z => Ok(String::from_str("ybndrfg8ejkmcpqxot1uwisza345h769")),
        Base::Base36Lower => Ok(String::from_str("0123456789abcdefghijklmnopqrstuvwxyz")),
        Base::Base36Upper => Ok(String::from_str("0123456789ABCDEFGHIJKLMNOPQRSTUVWXYZ")),
        Base::Base58Flickr => Ok(
            String::from_str("123456789abcdefghijkmnopqrstuvwxyzABCDEFGHJKLMNPQRSTUVWXYZ"),
        ),
        Base::Base58Btc => Ok(
            String::from_str("123456789ABCDEFGHJKLMNPQRSTUVWXYZabcdefghijkmnopqrstuvwxyz"),
        ),
        Base::Base64 | Base::Base64Pad => Ok(
            String::from_str(
                "ABCDEFGHIJKLMNOPQRSTUVWXYZabcdefghijklmnopqrstuvwxyz0123456789+/",
            ),
        ),
        Base::Base64Url | Base::Base64UrlPad => Ok(
            String::from_str(
                "ABCDEFGHIJKLMNOPQRSTUVWXYZabcdefghijklmnopqrstuvwxyz0123456789-_",
            ),
        ),
        Base::Identity | Base::Base45 | Base::Base256Emoji => Err(
            Error::FsStorage(FsStorageError::UnsupportedBaseEncoding(*base)),
        ),
    }
}

/// The string that the multibase rendering of `data` under the base whose
/// code character is `code` consists of.
pub uninterp spec fn encoded_of(code: char, data: Seq<u8>) -> Seq<char>;

/// Render an identifier's bytes in the given base.
///
/// Relies on `multibase::encode`: the result is the base's code character
/// followed by the base-encoded form of the bytes, hence never empty, and it
/// depends on the base and the bytes alone.
#[verifier::external_body]
pub(crate) fn multibase_encode(base: &Base, data: &Vec<u8>) -> (r: String)
    requires
        supported(*base),
    ensures
        r@ == encoded_of(base_code(*base), data@),
        r@.len() >= 1,
{
    let mb = multibase::Base::from_code(base.code()).expect("supported bases are in the multibase table");
    multibase::encode(mb, data.as_slice())
}

} // verus!
