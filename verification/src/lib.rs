mod chunk;
mod container;
mod error;
mod size;
mod stream;
mod tag;
mod wire;

pub use chunk::{chunk_header_at, chunk_header_bytes, lemma_chunk_header_round_trip, ChunkHeader};
pub use container::{from_version, icon_magic_at, lemma_magic_mutation_rejected, lemma_raff_header_round_trip,
    lemma_unsupported_major_version, raff_header_bytes, raff_header_format_at,
    raff_header_value_at, raff_io_failed_at, raff_magic_rejected_at, raff_separator_rejected_at,
    spec_from_version, spec_to_version, text_magic_at, to_version, RaffHeader, RAFF_ICON,
    RAFF_MAJOR, RAFF_MINOR, RAFF_TEXT};
pub use error::RaffError;
pub use size::{decode_size, encode_size, is_varint_at, lemma_size_round_trip,
    lemma_varint_at_unique, pow128, varint_encode, varint_overlong_at, varint_truncated_at,
    varint_val, varint_wf};
pub use stream::{in_stream_data, in_stream_pos, out_stream_data};
pub use tag::{is_tag_char, is_valid_tag_char, lemma_tag_pack_round_trip, tag_value_valid, Tag,
    TagHeader};
pub use wire::{be16_val, be32_val, u16_be_bytes, u32_be_bytes};

use crate::stream::stream_write_slice;
use flood_rs::prelude::{InOctetStream, OutOctetStream};
use vstd::prelude::*;

verus! {

/// Writes a complete chunk: its header for the payload's exact length,
/// then the payload itself.
pub fn write_chunk(stream: &mut OutOctetStream, tag: Tag, data: &[u8]) -> (r: Result<
    (),
    RaffError,
>)
    requires
        data@.len() <= u32::MAX,
    ensures
        r is Ok,
        out_stream_data(*final(stream)) == out_stream_data(*old(stream)) + chunk_header_bytes(
            tag@,
            data@.len() as u32,
        ) + data@,
{
    let header = ChunkHeader::new(tag, data.len() as u32);
    match header.serialize(stream) {
        Ok(()) => {},
        Err(e) => {
            return Err(e);
        },
    }
    stream_write_slice(stream, data);
    Ok(())
}

/// Writes the fixed container header for the supported version.
pub fn write_raff_header(stream: &mut OutOctetStream) -> (r: Result<(), RaffError>)
    ensures
        r is Ok,
        out_stream_data(*final(stream)) == out_stream_data(*old(stream)) + raff_header_bytes(
            (RaffHeader { major: RAFF_MAJOR, minor: RAFF_MINOR }),
        ),
{
    let header = RaffHeader::new();
    header.serialize(stream)
}

/// Reads a container header and additionally requires it to carry exactly
/// the supported version; a well-formed header with any other version is
/// rejected as unsupported.
pub fn read_raff_header(stream: &mut InOctetStream) -> (r: Result<RaffHeader, RaffError>)
    ensures
        in_stream_data(*final(stream)) == in_stream_data(*old(stream)),
        r is Ok <==> (raff_header_format_at(
            in_stream_data(*old(stream)),
            in_stream_pos(*old(stream)),
        ) && raff_header_value_at(in_stream_data(*old(stream)), in_stream_pos(*old(stream))) == (
        RaffHeader { major: RAFF_MAJOR, minor: RAFF_MINOR })),
        r is Ok ==> r->Ok_0 == (RaffHeader { major: RAFF_MAJOR, minor: RAFF_MINOR })
            && in_stream_pos(*final(stream)) == in_stream_pos(*old(stream)) + 12,
        r == Err::<RaffHeader, RaffError>(RaffError::UnsupportedVersion) <==> (
        raff_header_format_at(in_stream_data(*old(stream)), in_stream_pos(*old(stream)))
            && raff_header_value_at(in_stream_data(*old(stream)), in_stream_pos(*old(stream))) != (
        RaffHeader { major: RAFF_MAJOR, minor: RAFF_MINOR })),
        r == Err::<RaffHeader, RaffError>(RaffError::InvalidMagic) <==> raff_magic_rejected_at(
            in_stream_data(*old(stream)),
            in_stream_pos(*old(stream)),
        ),
        r == Err::<RaffHeader, RaffError>(RaffError::InvalidFormat) <==> raff_separator_rejected_at(
            in_stream_data(*old(stream)),
            in_stream_pos(*old(stream)),
        ),
        r == Err::<RaffHeader, RaffError>(RaffError::IoError) <==> raff_io_failed_at(
            in_stream_data(*old(stream)),
            in_stream_pos(*old(stream)),
        ),
{
    let header = match RaffHeader::deserialize(stream) {
        Ok(h) => h,
        Err(e) => {
            return Err(e);
        },
    };
    if header.major != RAFF_MAJOR || header.minor != RAFF_MINOR {
        return Err(RaffError::UnsupportedVersion);
    }
    Ok(header)
}

/// Reads the next chunk header; the caller then consumes exactly
/// `size` payload octets before the next header can follow.
pub fn read_chunk_header(stream: &mut InOctetStream) -> (r: Result<ChunkHeader, RaffError>)
    ensures
        in_stream_data(*final(stream)) == in_stream_data(*old(stream)),
        r is Ok <==> chunk_header_at(in_stream_data(*old(stream)), in_stream_pos(*old(stream))),
        r is Ok ==> r->Ok_0.tag.name@ as int == be16_val(
            in_stream_data(*old(stream))[in_stream_pos(*old(stream))],
            in_stream_data(*old(stream))[in_stream_pos(*old(stream)) + 1],
        ),
        forall|k: int|
            (r is Ok && #[trigger] is_varint_at(
                in_stream_data(*old(stream)),
                in_stream_pos(*old(stream)) + 2,
                k,
            )) ==> (r->Ok_0.size as int == varint_val(
                in_stream_data(*old(stream)).subrange(
                    in_stream_pos(*old(stream)) + 2,
                    in_stream_pos(*old(stream)) + 2 + k,
                ),
            ) % 0x1_0000_0000 && in_stream_pos(*final(stream)) == in_stream_pos(*old(stream)) + 2
                + k),
{
    ChunkHeader::deserialize(stream)
}

} // verus!
