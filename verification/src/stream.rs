use crate::error::RaffError;
use flood_rs::prelude::{InOctetStream, OutOctetStream};
use flood_rs::{ReadOctetStream, WriteOctetStream};
use vstd::prelude::*;

verus! {

#[verifier::external_type_specification]
#[verifier::external_body]
pub struct ExInOctetStream(InOctetStream);

#[verifier::external_type_specification]
#[verifier::external_body]
pub struct ExOutOctetStream(OutOctetStream);

/// The octets that an input stream was created over.
pub uninterp spec fn in_stream_data(s: InOctetStream) -> Seq<u8>;

/// The read position of an input stream, counted in octets from the start.
pub uninterp spec fn in_stream_pos(s: InOctetStream) -> int;

/// The octets written to an output stream so far.
pub uninterp spec fn out_stream_data(s: OutOctetStream) -> Seq<u8>;

/// Relies on `InOctetStream::read_u8`: reads one octet at the cursor and
/// advances it; fails without touching the data when none is left.
#[verifier::external_body]
pub(crate) fn stream_read_u8(s: &mut InOctetStream) -> (r: Result<u8, RaffError>)
    ensures
        in_stream_pos(*old(s)) >= 0,
        in_stream_data(*final(s)) == in_stream_data(*old(s)),
        r is Ok <==> in_stream_pos(*old(s)) + 1 <= in_stream_data(*old(s)).len(),
        r is Ok ==> r->Ok_0 == in_stream_data(*old(s))[in_stream_pos(*old(s))]
            && in_stream_pos(*final(s)) == in_stream_pos(*old(s)) + 1,
        r is Err ==> r->Err_0 == RaffError::IoError,
{
    match s.read_u8() {
        Ok(v) => Ok(v),
        Err(_) => Err(RaffError::IoError),
    }
}

/// Relies on `InOctetStream::read_u16`: reads two octets big-endian and
/// advances the cursor past them; fails without touching the data when
/// fewer than two are left.
#[verifier::external_body]
pub(crate) fn stream_read_u16(s: &mut InOctetStream) -> (r: Result<u16, RaffError>)
    ensures
        in_stream_pos(*old(s)) >= 0,
        in_stream_data(*final(s)) == in_stream_data(*old(s)),
        r is Ok <==> in_stream_pos(*old(s)) + 2 <= in_stream_data(*old(s)).len(),
        r is Ok ==> r->Ok_0 as int == crate::wire::be16_val(
            in_stream_data(*old(s))[in_stream_pos(*old(s))],
            in_stream_data(*old(s))[in_stream_pos(*old(s)) + 1],
        ) && in_stream_pos(*final(s)) == in_stream_pos(*old(s)) + 2,
        r is Err ==> r->Err_0 == RaffError::IoError,
{
    match s.read_u16() {
        Ok(v) => Ok(v),
        Err(_) => Err(RaffError::IoError),
    }
}

/// Relies on `InOctetStream::read_u32`: reads four octets big-endian and
/// advances the cursor past them; fails without touching the data when
/// fewer than four are left.
#[verifier::external_body]
pub(crate) fn stream_read_u32(s: &mut InOctetStream) -> (r: Result<u32, RaffError>)
    ensures
        in_stream_pos(*old(s)) >= 0,
        in_stream_data(*final(s)) == in_stream_data(*old(s)),
        r is Ok <==> in_stream_pos(*old(s)) + 4 <= in_stream_data(*old(s)).len(),
        r is Ok ==> r->Ok_0 as int == crate::wire::be32_val(
            in_stream_data(*old(s))[in_stream_pos(*old(s))],
            in_stream_data(*old(s))[in_stream_pos(*old(s)) + 1],
            in_stream_data(*old(s))[in_stream_pos(*old(s)) + 2],
            in_stream_data(*old(s))[in_stream_pos(*old(s)) + 3],
        ) && in_stream_pos(*final(s)) == in_stream_pos(*old(s)) + 4,
        r is Err ==> r->Err_0 == RaffError::IoError,
{
    match s.read_u32() {
        Ok(v) => Ok(v),
        Err(_) => Err(RaffError::IoError),
    }
}

/// Relies on `InOctetStream::read`: fills a four-octet buffer from the
/// cursor and advances it; fails without touching the data when fewer
/// than four octets are left.
#[verifier::external_body]
pub(crate) fn stream_read_4(s: &mut InOctetStream) -> (r: Result<(u8, u8, u8, u8), RaffError>)
    ensures
        in_stream_pos(*old(s)) >= 0,
        in_stream_data(*final(s)) == in_stream_data(*old(s)),
        r is Ok <==> in_stream_pos(*old(s)) + 4 <= in_stream_data(*old(s)).len(),
        r is Ok ==> r->Ok_0.0 == in_stream_data(*old(s))[in_stream_pos(*old(s))]
            && r->Ok_0.1 == in_stream_data(*old(s))[in_stream_pos(*old(s)) + 1]
            && r->Ok_0.2 == in_stream_data(*old(s))[in_stream_pos(*old(s)) + 2]
            && r->Ok_0.3 == in_stream_data(*old(s))[in_stream_pos(*old(s)) + 3]
            && in_stream_pos(*final(s)) == in_stream_pos(*old(s)) + 4,
        r is Err ==> r->Err_0 == RaffError::IoError,
{
    let mut buf = [0u8; 4];
    match s.read(&mut buf) {
        Ok(()) => Ok((buf[0], buf[1], buf[2], buf[3])),
        Err(_) => Err(RaffError::IoError),
    }
}

/// Relies on `OutOctetStream::write_u8`: appends the octet and never fails.
#[verifier::external_body]
pub(crate) fn stream_write_u8(s: &mut OutOctetStream, v: u8)
    ensures
        out_stream_data(*final(s)) == out_stream_data(*old(s)).push(v),
{
    let _ = s.write_u8(v);
}

/// Relies on `OutOctetStream::write_u16`: appends the two octets of the
/// value in big-endian order and never fails.
#[verifier::external_body]
pub(crate) fn stream_write_u16(s: &mut OutOctetStream, v: u16)
    ensures
        out_stream_data(*final(s)) == out_stream_data(*old(s)) + crate::wire::u16_be_bytes(v),
{
    let _ = s.write_u16(v);
}

/// Relies on `OutOctetStream::write_u32`: appends the four octets of the
/// value in big-endian order and never fails.
#[verifier::external_body]
pub(crate) fn stream_write_u32(s: &mut OutOctetStream, v: u32)
    ensures
        out_stream_data(*final(s)) == out_stream_data(*old(s)) + crate::wire::u32_be_bytes(v),
{
    let _ = s.write_u32(v);
}

/// Relies on `OutOctetStream::write`: appends the whole slice and never fails.
#[verifier::external_body]
pub(crate) fn stream_write_slice(s: &mut OutOctetStream, v: &[u8])
    ensures
        out_stream_data(*final(s)) == out_stream_data(*old(s)) + v@,
{
    let _ = s.write(v);
}

} // verus!
