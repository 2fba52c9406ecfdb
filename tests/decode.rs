use blueprint::block::finish_payload;
use blueprint::{
    block_to_inks, inks_from_payload, u32_from_3_bytes_be, BlockData, BlueprintData,
    BlueprintHeader, FormatError, Ink, UnknownSymbolCode,
};

const ALL_INKS: [Ink; 17] = [
    Ink::Empty,
    Ink::Write,
    Ink::Read,
    Ink::Cross,
    Ink::Trace,
    Ink::Buffer,
    Ink::And,
    Ink::Or,
    Ink::Xor,
    Ink::Not,
    Ink::Nand,
    Ink::Nor,
    Ink::Nxor,
    Ink::LatchOn,
    Ink::LatchOff,
    Ink::Clock,
    Ink::LED,
];

fn header_bytes(version: u32, checksum: [u8; 6], width: u32, height: u32) -> Vec<u8> {
    let mut v = vec![0xAA, 0xBB, 0xCC];
    v.extend_from_slice(&version.to_be_bytes()[1..]);
    v.extend_from_slice(&checksum);
    v.extend_from_slice(&width.to_be_bytes());
    v.extend_from_slice(&height.to_be_bytes());
    v
}

fn block_bytes(id: u32, payload: &[u8]) -> Vec<u8> {
    let frame = zstd::bulk::compress(payload, 3).unwrap();
    let mut v = Vec::new();
    v.extend_from_slice(&((12 + frame.len()) as u32).to_be_bytes());
    v.extend_from_slice(&id.to_be_bytes());
    v.extend_from_slice(&(payload.len() as u32).to_be_bytes());
    v.extend_from_slice(&frame);
    v
}

fn codes(inks: &[u32]) -> Vec<u8> {
    inks.iter().flat_map(|c| c.to_be_bytes()).collect()
}

#[test]
fn every_ink_round_trips() {
    for ink in ALL_INKS {
        assert_eq!(Ink::from_code(ink.code_of()), Some(ink));
    }
}

#[test]
fn ink_codes_are_the_table_values() {
    assert_eq!(Ink::Empty.code_of(), 0x0000_0000);
    assert_eq!(Ink::Write.code_of(), 0xFF3E_384D);
    assert_eq!(Ink::LED.code_of(), 0xFFFF_FFFF);
    assert_eq!(Ink::from_code(0xFF41_00FF), Some(Ink::Clock));
}

#[test]
fn sentinel_code_is_not_in_the_table() {
    assert_eq!(Ink::from_code(Ink::Invalid.code_of()), None);
    assert_eq!(Ink::from_code(0x1234_5678), None);
}

#[test]
fn three_byte_version_is_big_endian() {
    assert_eq!(u32_from_3_bytes_be(&[0x01, 0x02, 0x03]), 0x0001_0203);
    assert_eq!(u32_from_3_bytes_be(&[0xFF, 0xFF, 0xFF]), 0x00FF_FFFF);
}

#[test]
fn header_fields_are_read_exactly() {
    let bytes = header_bytes(0x0A0B0C, [1, 2, 3, 4, 5, 6], 0x0102_0304, 7);
    let h = BlueprintHeader::from_reader(&bytes).unwrap();
    assert_eq!(h.version, 0x0A0B0C);
    assert_eq!(h.checksum, [1, 2, 3, 4, 5, 6]);
    assert_eq!(h.width, 0x0102_0304);
    assert_eq!(h.height, 7);
}

#[test]
fn short_header_is_truncated() {
    let bytes = header_bytes(1, [0; 6], 2, 3);
    for n in 0..20 {
        assert_eq!(BlueprintHeader::from_reader(&bytes[..n]), Err(FormatError::TruncatedHeader));
        assert_eq!(BlueprintData::from_reader(&bytes[..n]), Err(FormatError::TruncatedHeader));
    }
}

#[test]
fn header_alone_has_no_blocks() {
    let bytes = header_bytes(1, [0; 6], 2, 3);
    let bp = BlueprintData::from_reader(&bytes).unwrap();
    assert_eq!(bp.header.width, 2);
    assert!(bp.blocks.is_empty());
}

#[test]
fn complete_blocks_end_cleanly() {
    let mut bytes = header_bytes(1, [0; 6], 1, 1);
    let b0 = block_bytes(5, &[1, 2, 3, 4]);
    let b0_len = b0.len();
    bytes.extend(b0);
    bytes.extend(block_bytes(9, &[7; 40]));
    let bp = BlueprintData::from_reader(&bytes).unwrap();
    assert_eq!(bp.blocks.len(), 2);
    assert_eq!(
        bp.blocks[0],
        BlockData { size: b0_len as u32, id: 5, data_size: 4, data: vec![1, 2, 3, 4] }
    );
    assert_eq!(bp.blocks[1].id, 9);
    assert_eq!(bp.blocks[1].data, vec![7; 40]);
}

#[test]
fn trailing_bytes_after_blocks_are_truncated_block() {
    let mut bytes = header_bytes(1, [0; 6], 1, 1);
    bytes.extend(block_bytes(5, &[1, 2, 3, 4]));
    let end = bytes.len();
    for extra in 1..=3 {
        let mut b = bytes.clone();
        b.extend(vec![0u8; extra]);
        assert_eq!(
            BlueprintData::from_reader(&b),
            Err(FormatError::TruncatedBlock { offset: end })
        );
    }
    let mut b = bytes.clone();
    b.extend(vec![0u8; 11]);
    assert_eq!(BlueprintData::from_reader(&b), Err(FormatError::TruncatedBlock { offset: end }));
}

#[test]
fn trailing_bytes_after_header_are_truncated_block() {
    let mut bytes = header_bytes(1, [0; 6], 1, 1);
    bytes.push(0);
    assert_eq!(BlueprintData::from_reader(&bytes), Err(FormatError::TruncatedBlock { offset: 20 }));
}

#[test]
fn short_decompressed_payload_is_an_error() {
    let mut bytes = header_bytes(1, [0; 6], 1, 1);
    let mut block = block_bytes(5, &[1, 2, 3]);
    block[8..12].copy_from_slice(&10u32.to_be_bytes());
    bytes.extend(block);
    assert_eq!(
        BlueprintData::from_reader(&bytes),
        Err(FormatError::DecompressionError { block_index: 0, expected_len: 10, obtained_len: 3 })
    );
}

#[test]
fn corrupt_frame_is_an_error() {
    let mut bytes = header_bytes(1, [0; 6], 1, 1);
    bytes.extend(block_bytes(5, &[1, 2, 3, 4]));
    bytes.extend_from_slice(&[0, 0, 0, 20, 0, 0, 0, 6, 0, 0, 0, 4]);
    bytes.extend_from_slice(&[9; 8]);
    assert_eq!(
        BlueprintData::from_reader(&bytes),
        Err(FormatError::DecompressionError { block_index: 1, expected_len: 4, obtained_len: 0 })
    );
}

#[test]
fn payload_keeps_only_the_declared_size() {
    let mut bytes = header_bytes(1, [0; 6], 1, 1);
    let mut block = block_bytes(5, &[1, 2, 3, 4, 5, 6]);
    block[8..12].copy_from_slice(&2u32.to_be_bytes());
    bytes.extend(block);
    bytes.extend(block_bytes(6, &[8]));
    let bp = BlueprintData::from_reader(&bytes).unwrap();
    assert_eq!(bp.blocks[0].data, vec![1, 2]);
    assert_eq!(bp.blocks[1].data, vec![8]);
}

#[test]
fn finish_payload_cases() {
    assert_eq!(finish_payload(Some(vec![1, 2, 3]), 2, 4), Ok(vec![1, 2]));
    assert_eq!(finish_payload(Some(vec![1, 2, 3]), 3, 4), Ok(vec![1, 2, 3]));
    assert_eq!(
        finish_payload(Some(vec![1]), 2, 4),
        Err(FormatError::DecompressionError { block_index: 4, expected_len: 2, obtained_len: 1 })
    );
    assert_eq!(
        finish_payload(None, 2, 4),
        Err(FormatError::DecompressionError { block_index: 4, expected_len: 2, obtained_len: 0 })
    );
}

#[test]
fn grid_fills_row_major() {
    let payload = codes(&[Ink::Empty.code_of(), Ink::Write.code_of()]);
    let g = inks_from_payload(&payload, 2, 1).unwrap();
    assert_eq!(g.inks, vec![vec![Ink::Empty, Ink::Write]]);
    assert!(g.unknown.is_empty());
}

#[test]
fn grid_rows_come_first() {
    let payload = codes(&[0xFF3E_384D, 0xFF5D_472E, 0xFF8E_7866, 0xFF56_98A1, 0, 0xFFFF_FFFF]);
    let g = inks_from_payload(&payload, 3, 2).unwrap();
    assert_eq!(
        g.inks,
        vec![vec![Ink::Write, Ink::Read, Ink::Cross], vec![Ink::Trace, Ink::Empty, Ink::LED]]
    );
}

#[test]
fn grid_codes_are_big_endian() {
    let g = inks_from_payload(&[0xFF, 0x3E, 0x38, 0x4D], 1, 1).unwrap();
    assert_eq!(g.inks, vec![vec![Ink::Write]]);
    let g = inks_from_payload(&[0x4D, 0x38, 0x3E, 0xFF], 1, 1).unwrap();
    assert_eq!(g.inks, vec![vec![Ink::Invalid]]);
}

#[test]
fn undersized_payload_is_grid_size_mismatch() {
    let payload = vec![0u8; 15];
    assert_eq!(
        inks_from_payload(&payload, 2, 2),
        Err(FormatError::GridSizeMismatch { expected: 16, actual: 15 })
    );
}

#[test]
fn huge_grid_is_grid_size_mismatch() {
    assert_eq!(
        inks_from_payload(&[0u8; 4], u32::MAX, u32::MAX),
        Err(FormatError::GridSizeMismatch {
            expected: (u32::MAX as u128) * (u32::MAX as u128) * 4,
            actual: 4
        })
    );
}

#[test]
fn extra_payload_bytes_are_ignored() {
    let mut payload = codes(&[Ink::And.code_of()]);
    payload.extend_from_slice(&[1, 2, 3, 4, 5]);
    let g = inks_from_payload(&payload, 1, 1).unwrap();
    assert_eq!(g.inks, vec![vec![Ink::And]]);
}

#[test]
fn empty_grid_needs_no_payload() {
    let g = inks_from_payload(&[], 0, 5).unwrap();
    assert_eq!(g.inks, vec![Vec::<Ink>::new(); 5]);
    let g = inks_from_payload(&[], 3, 0).unwrap();
    assert!(g.inks.is_empty());
}

#[test]
fn unknown_code_becomes_invalid_with_one_note() {
    let payload = codes(&[Ink::Or.code_of(), Ink::Xor.code_of(), Ink::Not.code_of(), 0x0102_0304]);
    let g = inks_from_payload(&payload, 2, 2).unwrap();
    assert_eq!(g.inks, vec![vec![Ink::Or, Ink::Xor], vec![Ink::Not, Ink::Invalid]]);
    assert_eq!(g.unknown, vec![UnknownSymbolCode { code: 0x0102_0304, y: 1, x: 1 }]);
}

#[test]
fn unknown_notes_follow_row_major_order() {
    let payload = codes(&[0x69696969, 0, 5, 0, 0, 6]);
    let g = inks_from_payload(&payload, 3, 2).unwrap();
    assert_eq!(
        g.unknown,
        vec![
            UnknownSymbolCode { code: 0x69696969, y: 0, x: 0 },
            UnknownSymbolCode { code: 5, y: 0, x: 2 },
            UnknownSymbolCode { code: 6, y: 1, x: 2 },
        ]
    );
}

#[test]
fn end_to_end_single_write_cell() {
    let mut bytes = header_bytes(3, [0; 6], 1, 1);
    bytes.extend(block_bytes(1, &0xFF3E_384Du32.to_be_bytes()));
    let bp = BlueprintData::from_reader(&bytes).unwrap();
    let g = block_to_inks(&bp, 0).unwrap();
    assert_eq!(g.inks, vec![vec![Ink::Write]]);
    assert!(g.unknown.is_empty());
}

#[test]
fn grid_of_missing_block_is_an_error() {
    let bytes = header_bytes(3, [0; 6], 1, 1);
    let bp = BlueprintData::from_reader(&bytes).unwrap();
    assert_eq!(block_to_inks(&bp, 0), Err(FormatError::MissingBlock { block_index: 0, count: 0 }));
}

#[test]
fn grid_of_short_block_is_size_mismatch() {
    let mut bytes = header_bytes(3, [0; 6], 2, 1);
    bytes.extend(block_bytes(1, &[0, 0, 0, 0]));
    let bp = BlueprintData::from_reader(&bytes).unwrap();
    assert_eq!(
        block_to_inks(&bp, 0),
        Err(FormatError::GridSizeMismatch { expected: 8, actual: 4 })
    );
}
