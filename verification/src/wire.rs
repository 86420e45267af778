//! The ledger program's instruction byte layout.
//!
//! Each lifecycle operation maps to one instruction: a fixed eight-byte
//! discriminator followed by the arguments in a fixed little-endian
//! field layout (strings are length-prefixed with a little-endian
//! `u32`).  This layout is a bit-exact wire contract with the program
//! that hosts the authoritative ledger.

use vstd::prelude::*;
use vstd::bytes::{spec_u32_to_le_bytes, spec_u64_to_le_bytes, u32_to_le_bytes, u64_to_le_bytes};

verus! {

/// The eight-byte discriminator of the treasury-initialization
/// instruction.
pub open spec fn spec_initialize_treasury_discriminator() -> Seq<u8> {
    seq![124u8, 186u8, 211u8, 195u8, 85u8, 165u8, 129u8, 166u8]
}

/// The eight-byte discriminator of the market-creation instruction.
pub open spec fn spec_create_market_discriminator() -> Seq<u8> {
    seq![103u8, 226u8, 97u8, 235u8, 200u8, 188u8, 251u8, 254u8]
}

/// The eight-byte discriminator of the settlement instruction.
pub open spec fn spec_settle_market_discriminator() -> Seq<u8> {
    seq![193u8, 153u8, 95u8, 216u8, 166u8, 6u8, 144u8, 217u8]
}

/// The little-endian bytes of a signed 64-bit field: its two's
/// complement image laid out as an unsigned value.
pub open spec fn spec_i64_to_le_bytes(x: i64) -> Seq<u8> {
    spec_u64_to_le_bytes(x as u64)
}

/// The full payload of the market-creation instruction.
pub open spec fn spec_create_market_data(
    asset: Seq<u8>,
    open_price: u64,
    start_time: i64,
    end_time: i64,
    market_id: u64,
) -> Seq<u8> {
    spec_create_market_discriminator() + spec_u32_to_le_bytes(asset.len() as u32) + asset
        + spec_u64_to_le_bytes(open_price) + spec_i64_to_le_bytes(start_time)
        + spec_i64_to_le_bytes(end_time) + spec_u64_to_le_bytes(market_id)
}

/// The full payload of the settlement instruction.
pub open spec fn spec_settle_market_data(close_price: u64) -> Seq<u8> {
    spec_settle_market_discriminator() + spec_u64_to_le_bytes(close_price)
}

/// Appends all of `src` to `dst`, in order.
pub fn extend_bytes(dst: &mut Vec<u8>, src: &Vec<u8>)
    ensures
        final(dst)@ == old(dst)@ + src@,
{
    let mut i: usize = 0;
    while i < src.len()
        invariant
            i <= src@.len(),
            dst@ == old(dst)@ + src@.subrange(0, i as int),
        decreases src@.len() - i,
    {
        dst.push(src[i]);
        i = i + 1;
        proof {
            assert(src@.subrange(0, i as int) =~= src@.subrange(0, i - 1) + seq![
                src@[i - 1],
            ]);
        }
    }
    proof {
        assert(src@.subrange(0, src@.len() as int) =~= src@);
    }
}

/// The little-endian bytes of a signed 64-bit field (see
/// [`spec_i64_to_le_bytes`]).
pub fn i64_to_le_bytes(x: i64) -> (s: Vec<u8>)
    ensures
        s@ == spec_i64_to_le_bytes(x),
        s@.len() == 8,
{
    u64_to_le_bytes(#[verifier::truncate] (x as u64))
}

/// Encodes the treasury-initialization instruction: the discriminator
/// alone, no arguments.
pub fn encode_initialize_treasury() -> (r: Vec<u8>)
    ensures
        r@ == spec_initialize_treasury_discriminator(),
{
    let mut data: Vec<u8> = Vec::new();
    data.push(124);
    data.push(186);
    data.push(211);
    data.push(195);
    data.push(85);
    data.push(165);
    data.push(129);
    data.push(166);
    proof {
        assert(data@ =~= spec_initialize_treasury_discriminator());
    }
    data
}

/// Encodes the market-creation instruction: discriminator, then the
/// asset name length-prefixed, then open price, start and end times,
/// and the market id, all little-endian.
pub fn encode_create_market(
    asset: &Vec<u8>,
    open_price: u64,
    start_time: i64,
    end_time: i64,
    market_id: u64,
) -> (r: Vec<u8>)
    requires
        asset@.len() <= u32::MAX,
    ensures
        r@ == spec_create_market_data(asset@, open_price, start_time, end_time, market_id),
{
    let mut data: Vec<u8> = Vec::new();
    data.push(103);
    data.push(226);
    data.push(97);
    data.push(235);
    data.push(200);
    data.push(188);
    data.push(251);
    data.push(254);
    proof {
        assert(data@ =~= spec_create_market_discriminator());
    }
    let len_bytes = u32_to_le_bytes(asset.len() as u32);
    extend_bytes(&mut data, &len_bytes);
    extend_bytes(&mut data, asset);
    let open_bytes = u64_to_le_bytes(open_price);
    extend_bytes(&mut data, &open_bytes);
    let start_bytes = i64_to_le_bytes(start_time);
    extend_bytes(&mut data, &start_bytes);
    let end_bytes = i64_to_le_bytes(end_time);
    extend_bytes(&mut data, &end_bytes);
    let id_bytes = u64_to_le_bytes(market_id);
    extend_bytes(&mut data, &id_bytes);
    proof {
        assert(data@ =~= spec_create_market_data(
            asset@,
            open_price,
            start_time,
            end_time,
            market_id,
        ));
    }
    data
}

/// Encodes the settlement instruction: discriminator, then the closing
/// price little-endian.
pub fn encode_settle_market(close_price: u64) -> (r: Vec<u8>)
    ensures
        r@ == spec_settle_market_data(close_price),
{
    let mut data: Vec<u8> = Vec::new();
    data.push(193);
    data.push(153);
    data.push(95);
    data.push(216);
    data.push(166);
    data.push(6);
    data.push(144);
    data.push(217);
    proof {
        assert(data@ =~= spec_settle_market_discriminator());
    }
    let close_bytes = u64_to_le_bytes(close_price);
    extend_bytes(&mut data, &close_bytes);
    proof {
        assert(data@ =~= spec_settle_market_data(close_price));
    }
    data
}

} // verus!
