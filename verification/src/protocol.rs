//! Shared protocol surface: the parse error type and the `Packet` trait that
//! every wire packet implements.

use vstd::prelude::*;

verus! {

/// Why a byte sequence could not be decoded into a packet.
#[derive(Debug, Clone, Copy, PartialEq, Eq, Structural)]
pub enum ParseError {
    /// A field held a value the protocol does not recognise.
    InvalidValue,
    /// The input was too short: at least `expected` bytes are needed, only
    /// `got` were given.
    InvalidLength { expected: usize, got: usize },
}

impl ParseError {
    pub fn new_invalid_length(expected: usize, got: usize) -> (r: ParseError)
        ensures
            r == (ParseError::InvalidLength { expected, got }),
    {
        ParseError::InvalidLength { expected, got }
    }
}

/// A packet that can be written to and read back from its wire encoding.
///
/// `wire` is the packet's byte encoding; `parse_ok`, `parses_to` and
/// `parse_err` together pin down exactly what `deserialize` returns on
/// every input.
pub trait Packet: Sized {
    /// The byte encoding of this packet.
    spec fn wire(self) -> Seq<u8>;

    /// Whether decoding the bytes `b` succeeds.
    spec fn parse_ok(b: Seq<u8>) -> bool;

    /// The packet that decoding the bytes `b` yields, when it succeeds.
    spec fn parses_to(b: Seq<u8>, p: Self) -> bool;

    /// The error that decoding the bytes `b` yields, when it fails.
    spec fn parse_err(b: Seq<u8>) -> ParseError;

    fn serialize(self) -> (r: Vec<u8>)
        ensures
            r@ == self.wire(),
    ;

    fn deserialize(v: &[u8]) -> (r: Result<Self, ParseError>)
        ensures
            r is Ok <==> Self::parse_ok(v@),
            r matches Ok(p) ==> Self::parses_to(v@, p),
            r matches Err(e) ==> e == Self::parse_err(v@),
    ;
}

} // verus!
