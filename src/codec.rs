//! The fixed-width compressed form of a point, and the rules for writing and
//! reading it.
use ark_serialize::Compress;
use vstd::prelude::*;

verus! {

/// Relies on ark_serialize::Compress: the choice between the compressed
/// (`Yes`) and the uncompressed (`No`) form, an enum of these two variants.
#[verifier::external_type_specification]
pub struct ExCompress(ark_serialize::Compress);

/// Size in bytes of a point's compressed form, whatever the point.
pub const COMPRESSED_POINT_SIZE: usize = 30;

/// Value of the engine's comparison when the two points are equal (and of
/// its decoder when the bytes were a valid encoding); it returns 0 otherwise.
pub const C_XSK233_EQUALS_TRUE: u32 = 0xFFFF_FFFF;

/// Why a point could not be written or read.
#[derive(Clone, Copy, Debug, PartialEq, Eq, Structural)]
pub enum CodecError {
    /// The uncompressed form was asked for; only the compressed one exists.
    UncompressedUnsupported,
    /// Fewer than 30 bytes were given.
    ShortInput,
    /// The 30 bytes are not the encoding of any point.
    InvalidEncoding,
}

/// Reads a comparison result of the curve engine: the points were equal
/// exactly when every bit of the result is set.
pub fn equals_flag(flag: u32) -> (r: bool)
    ensures
        r == (flag == C_XSK233_EQUALS_TRUE),
{
    flag == C_XSK233_EQUALS_TRUE
}

/// The one serialization mode that points have: compressed. Asking for the
/// uncompressed form fails, in writing and in reading alike.
pub fn check_compress(compress: Compress) -> (r: Result<(), CodecError>)
    ensures
        r == (match compress {
            Compress::Yes => Ok(()),
            Compress::No => Err(CodecError::UncompressedUnsupported),
        }),
{
    match compress {
        Compress::Yes => Ok(()),
        Compress::No => Err(CodecError::UncompressedUnsupported),
    }
}

/// The compressed form of a point: the 30 bytes that the curve engine
/// writes for it. The engine's encoding is canonical, so two points are
/// equal exactly when their compressed forms are.
#[derive(Clone, Copy, Debug, PartialEq, Eq, Hash)]
pub struct CompressedPoint {
    bytes: [u8; 30],
}

impl View for CompressedPoint {
    type V = Seq<u8>;

    closed spec fn view(&self) -> Seq<u8> {
        self.bytes@
    }
}

/// What serializing a point whose compressed form is `c` gives: the 30
/// bytes themselves, or `UncompressedUnsupported` for the uncompressed mode.
pub open spec fn serialized(c: Seq<u8>, compress: Compress) -> Result<Seq<u8>, CodecError> {
    match compress {
        Compress::Yes => Ok(c),
        Compress::No => Err(CodecError::UncompressedUnsupported),
    }
}

/// What reading a point's compressed form out of `b` gives: its first 30
/// bytes; `ShortInput` when there are fewer; `UncompressedUnsupported` for
/// the uncompressed mode, whatever the bytes.
pub open spec fn deserialized(b: Seq<u8>, compress: Compress) -> Result<Seq<u8>, CodecError> {
    match compress {
        Compress::No => Err(CodecError::UncompressedUnsupported),
        Compress::Yes => if b.len() >= COMPRESSED_POINT_SIZE {
            Ok(b.take(COMPRESSED_POINT_SIZE as int))
        } else {
            Err(CodecError::ShortInput)
        },
    }
}

/// The lower-case hexadecimal digits, by value.
pub open spec fn hex_digits() -> Seq<char> {
    seq!['0', '1', '2', '3', '4', '5', '6', '7', '8', '9', 'a', 'b', 'c', 'd', 'e', 'f']
}

/// Two lower-case hexadecimal digits for each byte, the high one first.
pub open spec fn hex_text(b: Seq<u8>) -> Seq<char> {
    Seq::new(
        2 * b.len(),
        |i: int|
            if i % 2 == 0 {
                hex_digits()[(b[i / 2] / 16) as int]
            } else {
                hex_digits()[(b[i / 2] % 16) as int]
            },
    )
}

/// Relies on hex::encode: for each byte, in order, its high and then its
/// low four bits as a digit of "0123456789abcdef".
#[verifier::external_body]
fn hex_encode(b: &[u8]) -> (r: String)
    ensures
        r@ == hex_text(b@),
{
    hex::encode(b)
}

impl CompressedPoint {
    /// The compressed form held in the 30 bytes that the engine wrote.
    pub fn from_bytes(bytes: [u8; 30]) -> (r: CompressedPoint)
        ensures
            r@ == bytes@,
    {
        CompressedPoint { bytes }
    }

    /// The 30 bytes, as the engine's decoder takes them.
    pub fn to_bytes(&self) -> (r: [u8; 30])
        ensures
            r@ == self@,
    {
        self.bytes
    }

    /// The bytes written for the point: exactly 30 of them.
    pub fn to_vec(&self) -> (r: Vec<u8>)
        ensures
            r@ == self@,
            r@.len() == COMPRESSED_POINT_SIZE,
    {
        let mut v: Vec<u8> = Vec::with_capacity(COMPRESSED_POINT_SIZE);
        v.extend_from_slice(self.bytes.as_slice());
        v
    }

    /// The bytes that serializing the point writes, in the given mode.
    pub fn serialize(&self, compress: Compress) -> (r: Result<Vec<u8>, CodecError>)
        ensures
            match r {
                Ok(v) => serialized(self@, compress) == Ok::<Seq<u8>, CodecError>(v@),
                Err(e) => serialized(self@, compress) == Err::<Seq<u8>, CodecError>(e),
            },
    {
        check_compress(compress)?;
        Ok(self.to_vec())
    }

    /// Takes a point's compressed form from the front of `bytes`, in the given
    /// mode. Whether the 30 bytes encode a point is for the engine's decoder
    /// to say.
    pub fn deserialize(bytes: &[u8], compress: Compress) -> (r: Result<CompressedPoint, CodecError>)
        ensures
            match r {
                Ok(c) => deserialized(bytes@, compress) == Ok::<Seq<u8>, CodecError>(c@),
                Err(e) => deserialized(bytes@, compress) == Err::<Seq<u8>, CodecError>(e),
            },
    {
        check_compress(compress)?;
        if bytes.len() < COMPRESSED_POINT_SIZE {
            return Err(CodecError::ShortInput);
        }
        let mut out = [0u8; 30];
        let mut i: usize = 0;
        while i < COMPRESSED_POINT_SIZE
            invariant
                i <= COMPRESSED_POINT_SIZE,
                bytes@.len() >= COMPRESSED_POINT_SIZE,
                forall|j: int| 0 <= j < i ==> out@[j] == bytes@[j],
            decreases COMPRESSED_POINT_SIZE - i,
        {
            out[i] = bytes[i];
            i = i + 1;
        }
        assert(out@ =~= bytes@.take(COMPRESSED_POINT_SIZE as int));
        Ok(CompressedPoint { bytes: out })
    }

    /// The text form of a point: its compressed form in lower-case
    /// hexadecimal, 60 digits.
    pub fn to_hex(&self) -> (r: String)
        ensures
            r@ == hex_text(self@),
            r@.len() == 2 * COMPRESSED_POINT_SIZE,
    {
        hex_encode(self.bytes.as_slice())
    }
}

/// Reading back the bytes serialized for a point gives the same compressed
/// form, and there are always exactly 30 of them; the uncompressed mode fails
/// both ways.
pub proof fn lemma_serialize_round_trip(c: CompressedPoint, compress: Compress)
    ensures
        c@.len() == COMPRESSED_POINT_SIZE,
        serialized(c@, compress) is Ok ==> deserialized(serialized(c@, compress)->Ok_0, compress)
            == Ok::<Seq<u8>, CodecError>(c@),
        compress == Compress::No ==> serialized(c@, compress) == Err::<Seq<u8>, CodecError>(
            CodecError::UncompressedUnsupported,
        ),
        compress == Compress::No ==> deserialized(c@, compress) == Err::<Seq<u8>, CodecError>(
            CodecError::UncompressedUnsupported,
        ),
{
    assert(c@.take(COMPRESSED_POINT_SIZE as int) =~= c@);
}

} // verus!
