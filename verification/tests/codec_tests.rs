use rust_volleyball::codec::Key::{Jump, Left, Right};
use rust_volleyball::codec::MsgIn::{GameRequest, Input, Ping};
use rust_volleyball::codec::{parse_ids_to_packet, parse_packet, parse_to_packet, ParseError, SnapshotBits};

#[test]
fn test_parse_packet() {
    let one = 1u64.to_le_bytes();
    assert_eq!(parse_packet(&[13, 14]), Err(ParseError));
    assert_eq!(parse_packet(&[13, 14, 31, 43, 53]), Err(ParseError));
    assert_eq!(parse_packet(&[]), Err(ParseError));
    assert_eq!(parse_packet(&[b":):P:D".as_slice(), &[11, 13]].concat()), Err(ParseError));
    assert_eq!(
        parse_packet(&[b":):P:D".as_slice(), &[11, 13], &[0; 8], &[0; 16]].concat()),
        Ok(GameRequest)
    );
    assert_eq!(
        parse_packet(&[b":):P:D".as_slice(), &[17, 23], &one, &one, &[0; 8]].concat()),
        Ok(Input(1, 1, Left(true)))
    );
    assert_eq!(
        parse_packet(&[b":):P:D".as_slice(), &[25, 99], &99u64.to_le_bytes(), &one, &[0; 8]].concat()),
        Ok(Input(99, 1, Left(false)))
    );
    assert_eq!(
        parse_packet(&[b":):P:D".as_slice(), &[37, 31], &99u64.to_le_bytes(), &one, &[0; 8]].concat()),
        Ok(Input(99, 1, Right(true)))
    );
    assert_eq!(
        parse_packet(&[
            58, 41, 58, 80, 58, 68, 67, 58, 2, 1, 0, 0, 0, 0, 0, 0, 1, 0, 0, 0, 0, 0, 0, 0, 0, 0,
            0, 0, 0, 0, 0, 0
        ]),
        Ok(Input(258, 1, Right(false)))
    );
    assert_eq!(
        parse_packet(&[
            58, 41, 58, 80, 58, 68, 97, 33, 7, 0, 1, 0, 0, 0, 0, 0, 163, 49, 1, 0, 0, 0, 0, 0, 0,
            0, 0, 0, 0, 0, 0, 0
        ]),
        Ok(Input(65543, 78243, Jump))
    );
    assert_eq!(
        parse_packet(&[b":):P:D".as_slice(), &[96, 22], &[197], &[0; 7], &one, &[0; 8]].concat()),
        Ok(Ping(197, 1))
    );
}

#[test]
fn test_parse_packet_ping_opcode_round_trip() {
    let mut packet = [0u8; 32];
    packet[..6].copy_from_slice(&[58, 41, 58, 80, 58, 68]);
    packet[6..8].copy_from_slice(&[96, 22]);
    packet[8..16].copy_from_slice(&65543u64.to_le_bytes());
    packet[16..24].copy_from_slice(&78243u64.to_le_bytes());
    assert_eq!(parse_packet(&packet), Ok(Ping(65543, 78243)));
}

#[test]
fn test_parse_packet_rejects_bogus_opcode() {
    let mut packet = [0u8; 32];
    packet[..6].copy_from_slice(&[58, 41, 58, 80, 58, 68]);
    packet[6..8].copy_from_slice(&[1, 2]);
    assert_eq!(parse_packet(&packet), Err(ParseError));
}

#[test]
fn test_parse_packet_rejects_bad_magic() {
    let mut packet = [0u8; 32];
    packet[..6].copy_from_slice(&[58, 41, 58, 80, 58, 69]);
    packet[6..8].copy_from_slice(&[11, 13]);
    assert_eq!(parse_packet(&packet), Err(ParseError));
}

#[test]
fn test_parse_ids_to_packet_layout() {
    let packet = parse_ids_to_packet(65543, 78243);
    assert_eq!(&packet[..4], &[12, 64, 13, 56]);
    assert_eq!(&packet[4..12], &65543u64.to_le_bytes());
    assert_eq!(&packet[12..20], &78243u64.to_le_bytes());
    assert_eq!(&packet[20..], &[0; 12]);
}

#[test]
fn test_parse_to_packet_layout() {
    let state = SnapshotBits {
        ball_radius: 0.25f32.to_bits(),
        ball_x: 5.5f32.to_bits(),
        ball_y: 2.0f32.to_bits(),
        player_radius: 0.5f32.to_bits(),
        player1_x: 6.0f32.to_bits(),
        player1_y: 0.6f32.to_bits(),
        player2_x: 2.0f32.to_bits(),
        player2_y: 0.7f32.to_bits(),
    };
    let packet = parse_to_packet(&state);
    let expected = [
        0.25f32.to_le_bytes(),
        5.5f32.to_le_bytes(),
        2.0f32.to_le_bytes(),
        0.5f32.to_le_bytes(),
        6.0f32.to_le_bytes(),
        0.6f32.to_le_bytes(),
        2.0f32.to_le_bytes(),
        0.7f32.to_le_bytes(),
    ]
    .concat();
    assert_eq!(&packet[..], &expected[..]);
}
