use crate::error::RaffError;
use crate::stream::{
    in_stream_data, in_stream_pos, out_stream_data, stream_read_4, stream_read_u32,
    stream_write_u32, stream_write_u8,
};
use crate::wire::{be32_val, lemma_be32_digits, u32_be_bytes};
use flood_rs::prelude::{InOctetStream, OutOctetStream};
use vstd::prelude::*;

verus! {

/// The fixed 4-octet icon magic that opens every container.
pub const RAFF_ICON: u32 = 0xF09FA68A;

/// The fixed 4-octet ASCII text magic that follows the icon.
pub const RAFF_TEXT: u32 = 0x52414646;

/// The major version this library writes and accepts.
pub const RAFF_MAJOR: u8 = 0x00;

/// The minor version this library writes and accepts.
pub const RAFF_MINOR: u8 = 0x01;

/// The version value carried by an ASCII digit octet; any other octet
/// decodes leniently to zero.
pub open spec fn spec_to_version(data: u8) -> u8 {
    if 0x30 <= data && data <= 0x39 {
        (data - 0x30) as u8
    } else {
        0
    }
}

/// The ASCII digit octet for a version value; values above nine clamp to
/// the digit zero.
pub open spec fn spec_from_version(data: u8) -> u8 {
    if data > 9 {
        0x30
    } else {
        (data + 0x30) as u8
    }
}

/// Whether the four icon magic octets stand at `p`.
pub open spec fn icon_magic_at(d: Seq<u8>, p: int) -> bool {
    &&& 0 <= p
    &&& p + 4 <= d.len()
    &&& d[p] == 0xF0
    &&& d[p + 1] == 0x9F
    &&& d[p + 2] == 0xA6
    &&& d[p + 3] == 0x8A
}

/// Whether the four text magic octets ("RAFF") stand at `p`.
pub open spec fn text_magic_at(d: Seq<u8>, p: int) -> bool {
    &&& 0 <= p
    &&& p + 4 <= d.len()
    &&& d[p] == 0x52
    &&& d[p + 1] == 0x41
    &&& d[p + 2] == 0x46
    &&& d[p + 3] == 0x46
}

/// Whether a well-formed 12-octet container header stands at `p`: both
/// magics, then a version region with its dot separator and newline
/// terminator in place.  The digit octets themselves are not constrained.
pub open spec fn raff_header_format_at(d: Seq<u8>, p: int) -> bool {
    &&& icon_magic_at(d, p)
    &&& text_magic_at(d, p + 4)
    &&& p + 12 <= d.len()
    &&& d[p + 9] == 0x2E
    &&& d[p + 11] == 0x0A
}

/// Whether decoding at `p` stops with a magic mismatch: four octets were
/// read but are not the icon, or the icon matched and four more octets were
/// read but are not the text magic.
pub open spec fn raff_magic_rejected_at(d: Seq<u8>, p: int) -> bool {
    ||| (0 <= p && p + 4 <= d.len() && !icon_magic_at(d, p))
    ||| (icon_magic_at(d, p) && p + 8 <= d.len() && !text_magic_at(d, p + 4))
}

/// Whether decoding at `p` stops at the version region: both magics match
/// and twelve octets are present, but the dot separator or the newline
/// terminator is out of place.
pub open spec fn raff_separator_rejected_at(d: Seq<u8>, p: int) -> bool {
    &&& icon_magic_at(d, p)
    &&& text_magic_at(d, p + 4)
    &&& p + 12 <= d.len()
    &&& !(d[p + 9] == 0x2E && d[p + 11] == 0x0A)
}

/// Whether decoding at `p` runs out of octets: before the icon could be
/// read, before the text magic could be read, or before the version region
/// could be read.
pub open spec fn raff_io_failed_at(d: Seq<u8>, p: int) -> bool {
    ||| p + 4 > d.len()
    ||| (icon_magic_at(d, p) && p + 8 > d.len())
    ||| (icon_magic_at(d, p) && text_magic_at(d, p + 4) && p + 12 > d.len())
}

/// The header value a well-formed container header at `p` carries.
pub open spec fn raff_header_value_at(d: Seq<u8>, p: int) -> RaffHeader {
    RaffHeader { major: spec_to_version(d[p + 8]), minor: spec_to_version(d[p + 10]) }
}

/// The 12-octet wire form of a container header: icon magic, text magic,
/// major digit, dot, minor digit, newline.
pub open spec fn raff_header_bytes(h: RaffHeader) -> Seq<u8> {
    u32_be_bytes(RAFF_ICON) + u32_be_bytes(RAFF_TEXT) + seq![
        spec_from_version(h.major),
        0x2Eu8,
        spec_from_version(h.minor),
        0x0Au8,
    ]
}

/// The container-level preamble: the format version of the file.
#[derive(Debug, PartialEq, Eq, Structural)]
pub struct RaffHeader {
    pub major: u8,
    pub minor: u8,
}

/// Converts an ASCII digit octet to its version value; any other octet is
/// accepted leniently as version zero.
pub fn to_version(data: u8) -> (r: u8)
    ensures
        r == spec_to_version(data),
{
    if !(0x30 <= data && data <= 0x39) {
        return 0;
    }
    data - 0x30
}

/// Converts a version value to its ASCII digit octet; values above nine
/// clamp to the digit zero.
pub fn from_version(data: u8) -> (r: u8)
    ensures
        r == spec_from_version(data),
{
    if data > 9 {
        return 0x30;
    }
    data + 0x30
}

impl Default for RaffHeader {
    /// The header for the supported version.
    fn default() -> (r: RaffHeader)
        ensures
            r.major == RAFF_MAJOR,
            r.minor == RAFF_MINOR,
    {
        RaffHeader::new()
    }
}

impl RaffHeader {
    /// The header for the supported version.
    pub fn new() -> (r: RaffHeader)
        ensures
            r.major == RAFF_MAJOR,
            r.minor == RAFF_MINOR,
    {
        Self { major: RAFF_MAJOR, minor: RAFF_MINOR }
    }

    /// A header for an arbitrary version pair.
    pub fn with_version(major: u8, minor: u8) -> (r: RaffHeader)
        ensures
            r.major == major,
            r.minor == minor,
    {
        Self { major, minor }
    }

    /// Writes the fixed 12-octet container header for this version pair.
    pub fn serialize(&self, stream: &mut OutOctetStream) -> (r: Result<(), RaffError>)
        ensures
            r is Ok,
            out_stream_data(*final(stream)) == out_stream_data(*old(stream)) + raff_header_bytes(
                *self,
            ),
    {
        stream_write_u32(stream, RAFF_ICON);
        stream_write_u32(stream, RAFF_TEXT);
        stream_write_u8(stream, from_version(self.major));
        stream_write_u8(stream, 0x2E);
        stream_write_u8(stream, from_version(self.minor));
        stream_write_u8(stream, 0x0A);
        proof {
            assert(out_stream_data(*stream) =~= out_stream_data(*old(stream)) + raff_header_bytes(
                *self,
            ));
        }
        Ok(())
    }

    /// Reads and validates the fixed 12-octet container header.  Only the
    /// format is checked here: magic octets, separator and terminator; the
    /// version digits decode leniently and are judged by `read_raff_header`.
    pub fn deserialize(stream: &mut InOctetStream) -> (r: Result<RaffHeader, RaffError>)
        ensures
            in_stream_pos(*old(stream)) >= 0,
            in_stream_data(*final(stream)) == in_stream_data(*old(stream)),
            r is Ok <==> raff_header_format_at(
                in_stream_data(*old(stream)),
                in_stream_pos(*old(stream)),
            ),
            r is Ok ==> r->Ok_0 == raff_header_value_at(
                in_stream_data(*old(stream)),
                in_stream_pos(*old(stream)),
            ) && in_stream_pos(*final(stream)) == in_stream_pos(*old(stream)) + 12,
            r == Err::<RaffHeader, RaffError>(RaffError::InvalidMagic) <==> raff_magic_rejected_at(
                in_stream_data(*old(stream)),
                in_stream_pos(*old(stream)),
            ),
            r == Err::<RaffHeader, RaffError>(RaffError::InvalidFormat)
                <==> raff_separator_rejected_at(
                in_stream_data(*old(stream)),
                in_stream_pos(*old(stream)),
            ),
            r == Err::<RaffHeader, RaffError>(RaffError::IoError) <==> raff_io_failed_at(
                in_stream_data(*old(stream)),
                in_stream_pos(*old(stream)),
            ),
    {
        let ghost d = in_stream_data(*stream);
        let ghost p = in_stream_pos(*stream);
        let icon = match stream_read_u32(stream) {
            Ok(v) => v,
            Err(e) => {
                return Err(e);
            },
        };
        proof {
            lemma_be32_digits(d[p], d[p + 1], d[p + 2], d[p + 3]);
        }
        if icon != RAFF_ICON {
            return Err(RaffError::InvalidMagic);
        }
        let text = match stream_read_u32(stream) {
            Ok(v) => v,
            Err(e) => {
                return Err(e);
            },
        };
        proof {
            lemma_be32_digits(d[p + 4], d[p + 5], d[p + 6], d[p + 7]);
        }
        if text != RAFF_TEXT {
            return Err(RaffError::InvalidMagic);
        }
        let (v0, v1, v2, v3) = match stream_read_4(stream) {
            Ok(v) => v,
            Err(e) => {
                return Err(e);
            },
        };
        if v1 != 0x2E || v3 != 0x0A {
            return Err(RaffError::InvalidFormat);
        }
        Ok(RaffHeader { major: to_version(v0), minor: to_version(v2) })
    }
}

/// Law: a serialized container header deserializes to the same version pair
/// wherever it stands in a stream, as long as both version values are single
/// digits (anything larger clamps to the digit zero on the wire).
pub proof fn lemma_raff_header_round_trip(d: Seq<u8>, p: int, h: RaffHeader)
    requires
        0 <= p,
        h.major <= 9,
        h.minor <= 9,
        p + 12 <= d.len(),
        d.subrange(p, p + 12) == raff_header_bytes(h),
    ensures
        raff_header_format_at(d, p),
        raff_header_value_at(d, p) == h,
{
    let b = raff_header_bytes(h);
    assert forall|i: int| 0 <= i < 12 implies d[p + i] == b[i] by {
        assert(d.subrange(p, p + 12)[i] == d[p + i]);
    }
    assert(b[0] == 0xF0 && b[1] == 0x9F && b[2] == 0xA6 && b[3] == 0x8A);
    assert(b[4] == 0x52 && b[5] == 0x41 && b[6] == 0x46 && b[7] == 0x46);
    assert(b[8] == spec_from_version(h.major) && b[9] == 0x2E && b[10] == spec_from_version(
        h.minor,
    ) && b[11] == 0x0A);
}

/// Law: changing any single octet in the magic region of a well-formed
/// container header makes format decoding reject it as a magic mismatch.
pub proof fn lemma_magic_mutation_rejected(d: Seq<u8>, d2: Seq<u8>, p: int, i: int)
    requires
        raff_header_format_at(d, p),
        d2.len() == d.len(),
        p <= i < p + 8,
        d2[i] != d[i],
        forall|j: int| 0 <= j < d.len() && j != i ==> d2[j] == d[j],
    ensures
        raff_magic_rejected_at(d2, p),
        !raff_header_format_at(d2, p),
{
}

/// Law: a container header that is well-formed at the format level but
/// carries a major version digit other than the supported one decodes at
/// the format level while the version gate rejects it.
pub proof fn lemma_unsupported_major_version(d: Seq<u8>, p: int)
    requires
        raff_header_format_at(d, p),
        spec_to_version(d[p + 8]) != RAFF_MAJOR || spec_to_version(d[p + 10]) != RAFF_MINOR,
    ensures
        raff_header_value_at(d, p) != (RaffHeader { major: RAFF_MAJOR, minor: RAFF_MINOR }),
{
}

} // verus!
