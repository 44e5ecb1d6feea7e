//! Binary wire protocol: fixed-size inbound datagrams and outbound packets.
//!
//! An inbound datagram is exactly 32 bytes: a 6-byte magic sequence, a
//! 2-byte opcode pair, a little-endian 64-bit player id, a little-endian
//! 64-bit board id, and 8 bytes of padding. Anything else is a decode
//! failure, never a partial parse.

use vstd::prelude::*;
use vstd::bytes::{spec_u64_from_le_bytes, spec_u64_to_le_bytes, u64_from_le_bytes, u64_to_le_bytes};
use vstd::slice::slice_subrange;

verus! {

/// A directional or jump input; the payload of `Left`/`Right` is the edge
/// direction (`true` = press, `false` = release).
#[derive(Debug, PartialEq, Eq, Structural, Clone, Copy)]
pub enum Key {
    Left(bool),
    Right(bool),
    Jump,
}

/// A decoded inbound message: a request to join a game, a key input for a
/// player in a board, or a keepalive ping.
#[derive(Debug, PartialEq, Eq, Structural, Clone, Copy)]
pub enum MsgIn {
    GameRequest,
    Input(u64, u64, Key),
    Ping(u64, u64),
}

/// The single decode-failure value: malformed input carries no detail.
#[derive(Debug, PartialEq, Eq, Structural, Clone, Copy)]
pub struct ParseError;

/// The first six bytes every inbound datagram must carry.
pub open spec fn is_magic(data: Seq<u8>) -> bool {
    &&& data.len() >= 6
    &&& data[0] == 58u8
    &&& data[1] == 41u8
    &&& data[2] == 58u8
    &&& data[3] == 80u8
    &&& data[4] == 58u8
    &&& data[5] == 68u8
}

/// The message a defined opcode pair selects, with the ids already read
/// from the packet body; an unknown pair is a decode failure.
pub open spec fn msg_for_opcode(op0: u8, op1: u8, player_id: u64, board_id: u64) -> Result<
    MsgIn,
    ParseError,
> {
    if op0 == 11u8 && op1 == 13u8 {
        Ok(MsgIn::GameRequest)
    } else if op0 == 17u8 && op1 == 23u8 {
        Ok(MsgIn::Input(player_id, board_id, Key::Left(true)))
    } else if op0 == 25u8 && op1 == 99u8 {
        Ok(MsgIn::Input(player_id, board_id, Key::Left(false)))
    } else if op0 == 37u8 && op1 == 31u8 {
        Ok(MsgIn::Input(player_id, board_id, Key::Right(true)))
    } else if op0 == 67u8 && op1 == 58u8 {
        Ok(MsgIn::Input(player_id, board_id, Key::Right(false)))
    } else if op0 == 97u8 && op1 == 33u8 {
        Ok(MsgIn::Input(player_id, board_id, Key::Jump))
    } else if op0 == 96u8 && op1 == 22u8 {
        Ok(MsgIn::Ping(player_id, board_id))
    } else {
        Err(ParseError)
    }
}

/// What decoding an inbound datagram yields: a failure for any length other
/// than 32, a bad magic sequence, or an unknown opcode pair; otherwise the
/// message selected by bytes 6..8 with the two ids read little-endian from
/// bytes 8..16 and 16..24.
pub open spec fn spec_parse(data: Seq<u8>) -> Result<MsgIn, ParseError> {
    if data.len() != 32 || !is_magic(data) {
        Err(ParseError)
    } else {
        msg_for_opcode(
            data[6],
            data[7],
            spec_u64_from_le_bytes(data.subrange(8, 16)),
            spec_u64_from_le_bytes(data.subrange(16, 24)),
        )
    }
}

/// Decode one inbound datagram.
pub fn parse_packet(data: &[u8]) -> (r: Result<MsgIn, ParseError>)
    ensures
        r == spec_parse(data@),
{
    if data.len() != 32 {
        return Err(ParseError);
    }
    if !(data[0] == 58 && data[1] == 41 && data[2] == 58 && data[3] == 80 && data[4] == 58
        && data[5] == 68) {
        return Err(ParseError);
    }
    let player_id = u64_from_le_bytes(slice_subrange(data, 8, 16));
    let board_id = u64_from_le_bytes(slice_subrange(data, 16, 24));
    let op0 = data[6];
    let op1 = data[7];
    if op0 == 11 && op1 == 13 {
        Ok(MsgIn::GameRequest)
    } else if op0 == 17 && op1 == 23 {
        Ok(MsgIn::Input(player_id, board_id, Key::Left(true)))
    } else if op0 == 25 && op1 == 99 {
        Ok(MsgIn::Input(player_id, board_id, Key::Left(false)))
    } else if op0 == 37 && op1 == 31 {
        Ok(MsgIn::Input(player_id, board_id, Key::Right(true)))
    } else if op0 == 67 && op1 == 58 {
        Ok(MsgIn::Input(player_id, board_id, Key::Right(false)))
    } else if op0 == 97 && op1 == 33 {
        Ok(MsgIn::Input(player_id, board_id, Key::Jump))
    } else if op0 == 96 && op1 == 22 {
        Ok(MsgIn::Ping(player_id, board_id))
    } else {
        Err(ParseError)
    }
}

/// A correctly-shaped inbound datagram: the magic sequence, an opcode pair,
/// the two ids little-endian, and zero padding.
pub open spec fn spec_input_packet(op0: u8, op1: u8, player_id: u64, board_id: u64) -> Seq<u8> {
    seq![58u8, 41u8, 58u8, 80u8, 58u8, 68u8, op0, op1] + spec_u64_to_le_bytes(player_id)
        + spec_u64_to_le_bytes(board_id) + Seq::new(8, |i: int| 0u8)
}

/// Round trip: decoding a correctly-shaped packet for any defined opcode
/// pair yields exactly the message that pair selects, with both embedded
/// ids preserved.
pub proof fn lemma_parse_round_trip(op0: u8, op1: u8, player_id: u64, board_id: u64)
    requires
        msg_for_opcode(op0, op1, player_id, board_id) is Ok,
    ensures
        spec_parse(spec_input_packet(op0, op1, player_id, board_id)) == msg_for_opcode(
            op0,
            op1,
            player_id,
            board_id,
        ),
{
    vstd::bytes::lemma_auto_spec_u64_to_from_le_bytes();
    let p = spec_input_packet(op0, op1, player_id, board_id);
    assert(p.subrange(8, 16) =~= spec_u64_to_le_bytes(player_id));
    assert(p.subrange(16, 24) =~= spec_u64_to_le_bytes(board_id));
}

/// Decode failures: a packet of the wrong length, with a bad magic
/// sequence, or with an unrecognized opcode pair never parses.
pub proof fn lemma_decode_failures(data: Seq<u8>)
    ensures
        data.len() != 32 ==> spec_parse(data) == Err::<MsgIn, ParseError>(ParseError),
        !is_magic(data) ==> spec_parse(data) == Err::<MsgIn, ParseError>(ParseError),
        data.len() == 32 && msg_for_opcode(
            data[6],
            data[7],
            spec_u64_from_le_bytes(data.subrange(8, 16)),
            spec_u64_from_le_bytes(data.subrange(16, 24)),
        ) is Err ==> spec_parse(data) == Err::<MsgIn, ParseError>(ParseError),
{
}

/// The outbound address/session assignment packet: its own magic, then the
/// two ids little-endian, then zero padding.
pub open spec fn spec_ids_packet(client_id: u64, board_id: u64) -> Seq<u8> {
    seq![12u8, 64u8, 13u8, 56u8] + spec_u64_to_le_bytes(client_id) + spec_u64_to_le_bytes(
        board_id,
    ) + Seq::new(12, |i: int| 0u8)
}

/// Encode the assignment packet that tells a client its player id and its
/// board id.
pub fn parse_ids_to_packet(client_id: u64, board_id: u64) -> (r: [u8; 32])
    ensures
        r@ == spec_ids_packet(client_id, board_id),
{
    let mut result: [u8; 32] = [0; 32];
    result[0] = 12;
    result[1] = 64;
    result[2] = 13;
    result[3] = 56;
    let cb = u64_to_le_bytes(client_id);
    let bb = u64_to_le_bytes(board_id);
    result[4] = cb[0];
    result[5] = cb[1];
    result[6] = cb[2];
    result[7] = cb[3];
    result[8] = cb[4];
    result[9] = cb[5];
    result[10] = cb[6];
    result[11] = cb[7];
    result[12] = bb[0];
    result[13] = bb[1];
    result[14] = bb[2];
    result[15] = bb[3];
    result[16] = bb[4];
    result[17] = bb[5];
    result[18] = bb[6];
    result[19] = bb[7];
    proof {
        assert(result@ =~= spec_ids_packet(client_id, board_id));
    }
    result
}

/// One outbound game snapshot, ready for encoding: every radius and
/// coordinate is the raw 32-bit pattern of its little-endian IEEE-754
/// encoding, produced by the embedding application from its own numeric
/// values.
#[derive(Debug, PartialEq, Eq, Structural, Clone, Copy)]
pub struct SnapshotBits {
    pub ball_radius: u32,
    pub ball_x: u32,
    pub ball_y: u32,
    pub player_radius: u32,
    pub player1_x: u32,
    pub player1_y: u32,
    pub player2_x: u32,
    pub player2_y: u32,
}

/// The fixed snapshot packet layout: eight 4-byte little-endian words in
/// this order: ball radius, ball position, player radius, first player
/// position, second player position.
pub open spec fn spec_state_packet(s: SnapshotBits) -> Seq<u8> {
    vstd::bytes::spec_u32_to_le_bytes(s.ball_radius) + vstd::bytes::spec_u32_to_le_bytes(s.ball_x)
        + vstd::bytes::spec_u32_to_le_bytes(s.ball_y) + vstd::bytes::spec_u32_to_le_bytes(
        s.player_radius,
    ) + vstd::bytes::spec_u32_to_le_bytes(s.player1_x) + vstd::bytes::spec_u32_to_le_bytes(
        s.player1_y,
    ) + vstd::bytes::spec_u32_to_le_bytes(s.player2_x) + vstd::bytes::spec_u32_to_le_bytes(
        s.player2_y,
    )
}

/// Write one little-endian 4-byte word into the packet buffer at `off`,
/// leaving every other byte as it was.
fn put_u32(buf: &mut [u8; 32], off: usize, v: u32)
    requires
        off + 4 <= 32,
    ensures
        forall|j: int|
            0 <= j < 32 && !(off <= j < off + 4) ==> final(buf)@[j] == old(buf)@[j],
        forall|j: int|
            0 <= j < 4 ==> final(buf)@[off + j] == vstd::bytes::spec_u32_to_le_bytes(v)[j],
{
    proof {
        vstd::bytes::lemma_auto_spec_u32_to_from_le_bytes();
    }
    let b = vstd::bytes::u32_to_le_bytes(v);
    buf[off] = b[0];
    buf[off + 1] = b[1];
    buf[off + 2] = b[2];
    buf[off + 3] = b[3];
}

/// Encode one snapshot into the fixed 32-byte state packet.
pub fn parse_to_packet(state: &SnapshotBits) -> (r: [u8; 32])
    ensures
        r@ == spec_state_packet(*state),
{
    let mut result: [u8; 32] = [0; 32];
    put_u32(&mut result, 0, state.ball_radius);
    put_u32(&mut result, 4, state.ball_x);
    put_u32(&mut result, 8, state.ball_y);
    put_u32(&mut result, 12, state.player_radius);
    put_u32(&mut result, 16, state.player1_x);
    put_u32(&mut result, 20, state.player1_y);
    put_u32(&mut result, 24, state.player2_x);
    put_u32(&mut result, 28, state.player2_y);
    proof {
        vstd::bytes::lemma_auto_spec_u32_to_from_le_bytes();
        assert(result@ =~= spec_state_packet(*state));
    }
    result
}

} // verus!
