//! The token codec: splitting a signed token into its three segments, and
//! the unpadded URL-safe base64 encoding of a segment.

use base64::engine::general_purpose::URL_SAFE_NO_PAD;
use base64::Engine;
use vstd::prelude::*;
use vstd::slice::slice_subrange;
use vstd::string::StringSliceAdditionalSpecFns;

verus! {

/// The byte that separates the segments of a token: `.`.
pub const DOT: u8 = 46;

/// The token is not made of three non-empty segments with a dot between
/// them.
#[derive(Debug, Clone, Copy, PartialEq, Eq, Structural)]
pub struct FormatError;

/// Why a segment is no unpadded URL-safe base64 text.
#[derive(Debug, Clone, Copy, PartialEq, Eq, Structural)]
pub enum DecodeError {
    /// The byte at `offset` is outside the alphabet.
    InvalidByte { offset: usize, byte: u8 },
    /// The number of symbols is one that no encoding has.
    InvalidLength { length: usize },
    /// The last symbol, at `offset`, carries bits that no encoding sets.
    InvalidLastSymbol { offset: usize, byte: u8 },
    /// The text is padded.
    InvalidPadding,
}

/// The three segments of a token, as they stand in its text.
#[derive(Debug, Clone, Copy)]
pub struct Segments<'a> {
    pub header: &'a [u8],
    pub payload: &'a [u8],
    pub signature: &'a [u8],
}

/// What `URL_SAFE_NO_PAD.encode` of the `base64` crate returns for `data`:
/// the unpadded URL-safe base64 text, as bytes.
pub uninterp spec fn base64url_encoding(data: Seq<u8>) -> Seq<u8>;

/// What `URL_SAFE_NO_PAD.decode` of the `base64` crate returns for `text`.
pub uninterp spec fn base64url_decoding(text: Seq<u8>) -> Result<Seq<u8>, DecodeError>;

/// The text has its only two dots at `first` and `second`, and the three
/// segments that they part are not empty.
pub open spec fn dots_at(text: Seq<u8>, first: int, second: int) -> bool {
    &&& 0 < first
    &&& first + 1 < second
    &&& second + 1 < text.len()
    &&& text[first] == DOT
    &&& text[second] == DOT
    &&& forall|k: int| 0 <= k < text.len() && k != first && k != second ==> text[k] != DOT
}

/// The text is made of exactly three non-empty segments with a dot between
/// them.
pub open spec fn well_formed(text: Seq<u8>) -> bool {
    exists|first: int, second: int| dots_at(text, first, second)
}

/// Where the two dots of a well-formed text stand.
pub open spec fn dot_places(text: Seq<u8>) -> (int, int) {
    choose|places: (int, int)| dots_at(text, places.0, places.1)
}

/// Where the first dot of a well-formed text stands.
pub open spec fn first_dot(text: Seq<u8>) -> int {
    dot_places(text).0
}

/// Where the second dot of a well-formed text stands.
pub open spec fn second_dot(text: Seq<u8>) -> int {
    dot_places(text).1
}

/// The header segment of a well-formed text.
pub open spec fn header_of(text: Seq<u8>) -> Seq<u8> {
    text.subrange(0, first_dot(text))
}

/// The payload segment of a well-formed text.
pub open spec fn payload_of(text: Seq<u8>) -> Seq<u8> {
    text.subrange(first_dot(text) + 1, second_dot(text))
}

/// The signature segment of a well-formed text.
pub open spec fn signature_of(text: Seq<u8>) -> Seq<u8> {
    text.subrange(second_dot(text) + 1, text.len() as int)
}

/// What the signature of a well-formed text is computed over: the header
/// segment, the dot and the payload segment, as they stand in the text.
pub open spec fn signing_input_of(text: Seq<u8>) -> Seq<u8> {
    text.subrange(0, second_dot(text))
}

/// The two dots of a well-formed text stand where they stand: there is one
/// way only to part it.
pub proof fn lemma_dots_unique(text: Seq<u8>, first: int, second: int)
    requires
        dots_at(text, first, second),
    ensures
        well_formed(text),
        first_dot(text) == first,
        second_dot(text) == second,
{
    let found = (first, second);
    assert(dots_at(text, found.0, found.1));
    let places = dot_places(text);
    assert(dots_at(text, places.0, places.1));
    assert(places.0 == first || places.0 == second);
    assert(places.1 == first || places.1 == second);
}

/// The signing input is the header segment, a dot and the payload segment.
pub proof fn lemma_signing_input(text: Seq<u8>)
    requires
        well_formed(text),
    ensures
        signing_input_of(text) == header_of(text) + seq![DOT] + payload_of(text),
{
    let (first, second) = choose|first: int, second: int| dots_at(text, first, second);
    lemma_dots_unique(text, first, second);
    assert(signing_input_of(text) =~= header_of(text) + seq![DOT] + payload_of(text));
}

/// Splits a token into its header, payload and signature segments.
///
/// Succeeds exactly on the texts that hold two dots and no more, with a
/// non-empty segment before, between and after them.
pub fn parse_bytes<'a>(text: &'a [u8]) -> (r: Result<Segments<'a>, FormatError>)
    ensures
        r is Ok <==> well_formed(text@),
        r matches Ok(parts) ==> {
            &&& parts.header@ == header_of(text@)
            &&& parts.payload@ == payload_of(text@)
            &&& parts.signature@ == signature_of(text@)
        },
{
    let len: usize = text.len();
    let mut first: usize = 0;
    let mut second: usize = 0;
    let mut dots: usize = 0;
    let mut at: usize = 0;
    while at < len
        invariant
            len == text@.len(),
            at <= len,
            dots <= 2,
            dots == 0 ==> forall|k: int| 0 <= k < at ==> text@[k] != DOT,
            dots == 1 ==> first < at && text@[first as int] == DOT && forall|k: int|
                0 <= k < at && k != first ==> text@[k] != DOT,
            dots == 2 ==> first < second < at && text@[first as int] == DOT && text@[second as int]
                == DOT && forall|k: int|
                0 <= k < at && k != first && k != second ==> text@[k] != DOT,
        decreases len - at,
    {
        if text[at] == DOT {
            if dots == 0 {
                first = at;
            } else if dots == 1 {
                second = at;
            } else {
                proof {
                    let third = at as int;
                    assert forall|f: int, s: int| !dots_at(text@, f, s) by {
                        if dots_at(text@, f, s) {
                            assert(first == f || first == s);
                            assert(second == f || second == s);
                            assert(third == f || third == s);
                        }
                    }
                }
                return Err(FormatError);
            }
            dots += 1;
        }
        at += 1;
    }
    if dots != 2 || first == 0 || first + 1 == second || second + 1 == len {
        proof {
            assert forall|f: int, s: int| !dots_at(text@, f, s) by {
                if dots_at(text@, f, s) {
                    if dots == 2 {
                        assert(first == f || first == s);
                        assert(second == f || second == s);
                    } else if dots == 1 {
                        assert(first == f || first == s);
                        assert(f == first ==> text@[s] != DOT);
                        assert(s == first ==> text@[f] != DOT);
                    } else {
                        assert(text@[f] != DOT);
                    }
                }
            }
        }
        return Err(FormatError);
    }
    proof {
        assert(dots_at(text@, first as int, second as int));
        lemma_dots_unique(text@, first as int, second as int);
    }
    Ok(
        Segments {
            header: slice_subrange(text, 0, first),
            payload: slice_subrange(text, first + 1, second),
            signature: slice_subrange(text, second + 1, len),
        },
    )
}

/// Splits a token text into its header, payload and signature segments.
///
/// Succeeds exactly on the texts that hold two dots and no more, with a
/// non-empty segment before, between and after them.
pub fn parse<'a>(token_text: &'a str) -> (r: Result<Segments<'a>, FormatError>)
    ensures
        r is Ok <==> well_formed(token_text.spec_bytes()),
        r matches Ok(parts) ==> {
            &&& parts.header@ == header_of(token_text.spec_bytes())
            &&& parts.payload@ == payload_of(token_text.spec_bytes())
            &&& parts.signature@ == signature_of(token_text.spec_bytes())
        },
{
    parse_bytes(token_text.as_bytes())
}

/// `Engine::encode` of the `base64` crate on `URL_SAFE_NO_PAD`: the result
/// is the crate's unpadded URL-safe encoding of `data`, handed back as the
/// bytes of the text. The crate panics where the encoded length overflows
/// `usize`, which the bound on the input leaves out.
#[verifier::external_body]
fn base64url_encode(data: &[u8]) -> (text: Vec<u8>)
    requires
        data@.len() <= usize::MAX / 2,
    ensures
        text@ == base64url_encoding(data@),
{
    URL_SAFE_NO_PAD.encode(data).into_bytes()
}

/// `Engine::decode` of the `base64` crate on `URL_SAFE_NO_PAD`: the result
/// is the crate's decoding of `text`, its error told apart by variant.
#[verifier::external_body]
fn base64url_decode(text: &[u8]) -> (r: Result<Vec<u8>, DecodeError>)
    ensures
        match r {
            Ok(data) => base64url_decoding(text@) == Ok::<Seq<u8>, DecodeError>(data@),
            Err(e) => base64url_decoding(text@) == Err::<Seq<u8>, DecodeError>(e),
        },
{
    match URL_SAFE_NO_PAD.decode(text) {
        Ok(data) => Ok(data),
        Err(base64::DecodeError::InvalidByte(offset, byte)) => Err(
            DecodeError::InvalidByte { offset, byte },
        ),
        Err(base64::DecodeError::InvalidLength(length)) => Err(
            DecodeError::InvalidLength { length },
        ),
        Err(base64::DecodeError::InvalidLastSymbol(offset, byte)) => Err(
            DecodeError::InvalidLastSymbol { offset, byte },
        ),
        Err(base64::DecodeError::InvalidPadding) => Err(DecodeError::InvalidPadding),
    }
}

/// Encodes bytes as unpadded URL-safe base64 text.
pub fn encode_segment(data: &[u8]) -> (text: Vec<u8>)
    requires
        data@.len() <= usize::MAX / 2,
    ensures
        text@ == base64url_encoding(data@),
{
    base64url_encode(data)
}

/// Decodes a segment from unpadded URL-safe base64, or says why it is none.
pub fn decode_segment(segment: &[u8]) -> (r: Result<Vec<u8>, DecodeError>)
    ensures
        match r {
            Ok(data) => base64url_decoding(segment@) == Ok::<Seq<u8>, DecodeError>(data@),
            Err(e) => base64url_decoding(segment@) == Err::<Seq<u8>, DecodeError>(e),
        },
{
    base64url_decode(segment)
}

} // verus!
