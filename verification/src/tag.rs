use crate::error::RaffError;
use crate::stream::{
    in_stream_data, in_stream_pos, out_stream_data, stream_read_u16, stream_write_u16,
};
use crate::wire::{be16_val, lemma_be16_digits, u16_be_bytes};
use flood_rs::prelude::{InOctetStream, OutOctetStream};
use vstd::prelude::*;
use vstd::string::StringSliceAdditionalSpecFns;

verus! {

/// True iff `c` may appear in a chunk tag: an ASCII letter (0x41..0x5A,
/// 0x61..0x7A), digit (0x30..0x39) or underscore (0x5F).
pub open spec fn is_tag_char(c: u8) -> bool {
    (0x61 <= c && c <= 0x7A) || (0x41 <= c && c <= 0x5A) || (0x30 <= c && c <= 0x39) || c == 0x5F
}

/// Whether a packed 16-bit value decomposes into two valid tag characters.
pub open spec fn tag_value_valid(v: u16) -> bool {
    is_tag_char(((v as int) / 0x100) as u8) && is_tag_char(((v as int) % 0x100) as u8)
}

pub fn is_valid_tag_char(c: u8) -> (r: bool)
    ensures
        r == is_tag_char(c),
{
    (0x61 <= c && c <= 0x7A) || (0x41 <= c && c <= 0x5A) || (0x30 <= c && c <= 0x39) || c == 0x5F
}

/// A validated 2-character chunk identifier, packed into a 16-bit value with
/// the first character in the high octet.
#[derive(Debug, PartialEq, Eq, Structural)]
pub struct Tag(u16);

impl View for Tag {
    type V = u16;

    closed spec fn view(&self) -> u16 {
        self.0
    }
}

impl Tag {
    /// Packs a 2-character text into a tag; any other length or a character
    /// outside the tag alphabet is rejected.
    pub fn with_str(s: &str) -> (r: Result<Tag, RaffError>)
        ensures
            r is Ok <==> (s.spec_bytes().len() == 2 && is_tag_char(s.spec_bytes()[0])
                && is_tag_char(s.spec_bytes()[1])),
            r is Ok ==> r->Ok_0@ as int == be16_val(s.spec_bytes()[0], s.spec_bytes()[1])
                && tag_value_valid(r->Ok_0@),
            r is Err ==> r->Err_0 == RaffError::InvalidFormat,
    {
        if s.len() != 2 {
            return Err(RaffError::InvalidFormat);
        }
        let bytes = s.as_bytes();
        let b0 = bytes[0];
        let b1 = bytes[1];
        if !is_valid_tag_char(b0) || !is_valid_tag_char(b1) {
            return Err(RaffError::InvalidFormat);
        }
        proof {
            lemma_be16_digits(b0, b1);
        }
        Ok(Tag(b0 as u16 * 0x100 + b1 as u16))
    }

    /// Accepts a pre-packed 16-bit value when both of its octets are valid
    /// tag characters, as when a tag arrives from the wire.
    pub fn new(v: u16) -> (r: Result<Tag, RaffError>)
        ensures
            r is Ok <==> tag_value_valid(v),
            r is Ok ==> r->Ok_0@ == v,
            r is Err ==> r->Err_0 == RaffError::InvalidFormat,
    {
        let first = (v % 0x100) as u8;
        let second = ((v / 0x100) % 0x100) as u8;
        if !is_valid_tag_char(first) || !is_valid_tag_char(second) {
            return Err(RaffError::InvalidFormat);
        }
        Ok(Tag(v))
    }

    /// The packed 16-bit value of the tag.
    pub fn inner(&self) -> (r: u16)
        ensures
            r == self@,
    {
        self.0
    }
}

impl core::str::FromStr for Tag {
    type Err = RaffError;

    fn from_str(s: &str) -> Result<Tag, RaffError> {
        Tag::with_str(s)
    }
}

/// Law: a tag built from two valid characters packs them losslessly; the
/// high and low octets of the packed value give back the characters, so the
/// wire encoding decodes to the same tag.
pub proof fn lemma_tag_pack_round_trip(b0: u8, b1: u8)
    requires
        is_tag_char(b0),
        is_tag_char(b1),
    ensures
        0 <= be16_val(b0, b1) < 0x10000,
        be16_val(b0, b1) / 0x100 == b0,
        be16_val(b0, b1) % 0x100 == b1,
        tag_value_valid(be16_val(b0, b1) as u16),
        u16_be_bytes(be16_val(b0, b1) as u16) == seq![b0, b1],
{
    lemma_be16_digits(b0, b1);
    assert(u16_be_bytes(be16_val(b0, b1) as u16) =~= seq![b0, b1]);
}

/// The 2-octet wire form of a tag: its packed value in big-endian order.
#[derive(Debug, PartialEq, Eq, Structural)]
pub struct TagHeader {
    pub name: Tag,
}

impl TagHeader {
    pub fn new(name: Tag) -> (r: TagHeader)
        ensures
            r.name == name,
    {
        Self { name }
    }

    /// Writes the packed tag value as two big-endian octets.
    pub fn serialize(&self, stream: &mut OutOctetStream) -> (r: Result<(), RaffError>)
        ensures
            r is Ok,
            out_stream_data(*final(stream)) == out_stream_data(*old(stream))
                + u16_be_bytes(self.name@),
    {
        stream_write_u16(stream, self.name.inner());
        Ok(())
    }

    /// Reads two big-endian octets and validates them as a tag.
    pub fn deserialize(stream: &mut InOctetStream) -> (r: Result<TagHeader, RaffError>)
        ensures
            in_stream_pos(*old(stream)) >= 0,
            in_stream_data(*final(stream)) == in_stream_data(*old(stream)),
            r is Ok <==> (in_stream_pos(*old(stream)) + 2 <= in_stream_data(*old(stream)).len()
                && is_tag_char(in_stream_data(*old(stream))[in_stream_pos(*old(stream))])
                && is_tag_char(in_stream_data(*old(stream))[in_stream_pos(*old(stream)) + 1])),
            r is Ok ==> r->Ok_0.name@ as int == be16_val(
                in_stream_data(*old(stream))[in_stream_pos(*old(stream))],
                in_stream_data(*old(stream))[in_stream_pos(*old(stream)) + 1],
            ) && in_stream_pos(*final(stream)) == in_stream_pos(*old(stream)) + 2,
            in_stream_pos(*old(stream)) + 2 > in_stream_data(*old(stream)).len() ==> r == Err::<
                TagHeader,
                RaffError,
            >(RaffError::IoError),
            r is Err && in_stream_pos(*old(stream)) + 2 <= in_stream_data(*old(stream)).len()
                ==> r == Err::<TagHeader, RaffError>(RaffError::InvalidFormat)
                && in_stream_pos(*final(stream)) == in_stream_pos(*old(stream)) + 2,
    {
        let ghost d = in_stream_data(*stream);
        let ghost p = in_stream_pos(*stream);
        let v = match stream_read_u16(stream) {
            Ok(v) => v,
            Err(e) => {
                return Err(e);
            },
        };
        proof {
            lemma_be16_digits(d[p], d[p + 1]);
        }
        match Tag::new(v) {
            Ok(name) => Ok(TagHeader { name }),
            Err(e) => Err(e),
        }
    }
}

} // verus!
