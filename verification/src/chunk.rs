use crate::error::RaffError;
use crate::size::{
    decode_size, encode_size, is_varint_at, lemma_size_round_trip, lemma_varint_at_unique,
    varint_encode, varint_overlong_at, varint_truncated_at, varint_val, varint_wf,
};
use crate::stream::{in_stream_data, in_stream_pos, out_stream_data, stream_write_slice};
use crate::tag::{is_tag_char, Tag, TagHeader};
use crate::wire::{be16_val, u16_be_bytes};
use flood_rs::prelude::{InOctetStream, OutOctetStream};
use vstd::prelude::*;

verus! {

/// The wire form of a chunk header: the packed tag big-endian, then the
/// payload size in the variable-length encoding.
pub open spec fn chunk_header_bytes(tag: u16, size: u32) -> Seq<u8> {
    u16_be_bytes(tag) + varint_encode(size as nat)
}

/// Whether the octets of `d` starting at `p` begin with a decodable chunk
/// header: a valid tag and a complete variable-length size.
pub open spec fn chunk_header_at(d: Seq<u8>, p: int) -> bool {
    &&& 0 <= p
    &&& p + 2 <= d.len()
    &&& is_tag_char(d[p])
    &&& is_tag_char(d[p + 1])
    &&& exists|k: int| #[trigger] is_varint_at(d, p + 2, k)
}

/// A chunk's header: the tag of the chunk and the exact octet length of the
/// payload that follows it on the wire.
#[derive(Debug, PartialEq, Eq, Structural)]
pub struct ChunkHeader {
    pub tag: TagHeader,
    pub size: u32,
}

impl ChunkHeader {
    pub fn new(tag: Tag, size: u32) -> (r: ChunkHeader)
        ensures
            r.tag.name == tag,
            r.size == size,
    {
        Self { tag: TagHeader::new(tag), size }
    }

    /// Writes the packed tag as two big-endian octets, then the size in the
    /// variable-length encoding.
    pub fn serialize(&self, stream: &mut OutOctetStream) -> (r: Result<(), RaffError>)
        ensures
            r is Ok,
            out_stream_data(*final(stream)) == out_stream_data(*old(stream)) + chunk_header_bytes(
                self.tag.name@,
                self.size,
            ),
    {
        let ghost mid = out_stream_data(*stream) + u16_be_bytes(self.tag.name@);
        match self.tag.serialize(stream) {
            Ok(()) => {},
            Err(e) => {
                return Err(e);
            },
        }
        let encoded = encode_size(self.size);
        stream_write_slice(stream, encoded.as_slice());
        proof {
            assert(mid + varint_encode(self.size as nat) =~= out_stream_data(*old(stream))
                + chunk_header_bytes(self.tag.name@, self.size));
        }
        Ok(())
    }

    /// Reads and validates a tag, then decodes the payload size.  Succeeds
    /// exactly when a complete chunk header starts at the read position.
    pub fn deserialize(stream: &mut InOctetStream) -> (r: Result<ChunkHeader, RaffError>)
        ensures
            in_stream_data(*final(stream)) == in_stream_data(*old(stream)),
            r is Ok <==> chunk_header_at(in_stream_data(*old(stream)), in_stream_pos(*old(stream))),
            r is Ok ==> r->Ok_0.tag.name@ as int == be16_val(
                in_stream_data(*old(stream))[in_stream_pos(*old(stream))],
                in_stream_data(*old(stream))[in_stream_pos(*old(stream)) + 1],
            ),
            forall|k: int|
                (r is Ok && #[trigger] is_varint_at(
                    in_stream_data(*old(stream)),
                    in_stream_pos(*old(stream)) + 2,
                    k,
                )) ==> (r->Ok_0.size as int == varint_val(
                    in_stream_data(*old(stream)).subrange(
                        in_stream_pos(*old(stream)) + 2,
                        in_stream_pos(*old(stream)) + 2 + k,
                    ),
                ) % 0x1_0000_0000 && in_stream_pos(*final(stream)) == in_stream_pos(*old(stream))
                    + 2 + k),
            in_stream_pos(*old(stream)) + 2 > in_stream_data(*old(stream)).len() ==> r == Err::<
                ChunkHeader,
                RaffError,
            >(RaffError::IoError),
            (in_stream_pos(*old(stream)) + 2 <= in_stream_data(*old(stream)).len() && !(is_tag_char(
                in_stream_data(*old(stream))[in_stream_pos(*old(stream))],
            ) && is_tag_char(in_stream_data(*old(stream))[in_stream_pos(*old(stream)) + 1])))
                ==> r == Err::<ChunkHeader, RaffError>(RaffError::InvalidFormat),
            (in_stream_pos(*old(stream)) + 2 <= in_stream_data(*old(stream)).len() && is_tag_char(
                in_stream_data(*old(stream))[in_stream_pos(*old(stream))],
            ) && is_tag_char(in_stream_data(*old(stream))[in_stream_pos(*old(stream)) + 1])) ==> (
            r == Err::<ChunkHeader, RaffError>(RaffError::OutOfRange) <==> varint_overlong_at(
                in_stream_data(*old(stream)),
                in_stream_pos(*old(stream)) + 2,
            )),
            (in_stream_pos(*old(stream)) + 2 <= in_stream_data(*old(stream)).len() && is_tag_char(
                in_stream_data(*old(stream))[in_stream_pos(*old(stream))],
            ) && is_tag_char(in_stream_data(*old(stream))[in_stream_pos(*old(stream)) + 1])
                && varint_truncated_at(
                in_stream_data(*old(stream)),
                in_stream_pos(*old(stream)) + 2,
            )) ==> r == Err::<ChunkHeader, RaffError>(RaffError::IoError),
    {
        let tag = match TagHeader::deserialize(stream) {
            Ok(t) => t,
            Err(e) => {
                return Err(e);
            },
        };
        let size = match decode_size(stream) {
            Ok(s) => s,
            Err(e) => {
                return Err(e);
            },
        };
        Ok(ChunkHeader { tag, size })
    }
}

/// Law: a serialized chunk header deserializes to the same tag and size
/// wherever it stands in a stream: the header's octets placed at `p` form a
/// decodable header whose tag value and size are the ones serialized.
pub proof fn lemma_chunk_header_round_trip(d: Seq<u8>, p: int, tag: u16, size: u32)
    requires
        0 <= p,
        is_tag_char(((tag as int) / 0x100) as u8),
        is_tag_char(((tag as int) % 0x100) as u8),
        p + chunk_header_bytes(tag, size).len() <= d.len(),
        d.subrange(p, p + chunk_header_bytes(tag, size).len() as int) == chunk_header_bytes(
            tag,
            size,
        ),
    ensures
        chunk_header_at(d, p),
        be16_val(d[p], d[p + 1]) == tag,
        forall|k: int|
            #[trigger] is_varint_at(d, p + 2, k) ==> varint_val(d.subrange(p + 2, p + 2 + k))
                == size,
{
    lemma_size_round_trip(size);
    let e = varint_encode(size as nat);
    let h = chunk_header_bytes(tag, size);
    let hl = h.len() as int;
    assert(d[p] == h[0] && d[p + 1] == h[1]) by {
        assert(d.subrange(p, p + hl)[0] == d[p]);
        assert(d.subrange(p, p + hl)[1] == d[p + 1]);
    }
    assert(h[0] == ((tag as int) / 0x100) as u8 && h[1] == ((tag as int) % 0x100) as u8);
    assert(be16_val(d[p], d[p + 1]) == tag) by {
        crate::wire::lemma_be16_digits(d[p], d[p + 1]);
        vstd::arithmetic::div_mod::lemma_fundamental_div_mod(tag as int, 0x100);
    }
    assert(d.subrange(p + 2, p + 2 + e.len() as int) =~= e) by {
        assert forall|i: int| 0 <= i < e.len() implies d.subrange(p + 2, p + 2 + e.len() as int)[i]
            == e[i] by {
            assert(d.subrange(p, p + hl)[2 + i] == d[p + 2 + i]);
            assert(h[2 + i] == e[i]);
        }
    }
    assert(is_varint_at(d, p + 2, e.len() as int));
    assert forall|k: int| #[trigger] is_varint_at(d, p + 2, k) implies varint_val(
        d.subrange(p + 2, p + 2 + k),
    ) == size by {
        lemma_varint_at_unique(d, p + 2, k, e.len() as int);
    }
}

} // verus!
