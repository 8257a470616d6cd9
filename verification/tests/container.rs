use smx::smx::SmxError;
use smx::{CompressionLevel, Endianness, Smx};

fn section(name: &[u8], data: &[u8]) -> (Vec<u8>, Vec<u8>) {
    (name.to_vec(), data.to_vec())
}

#[test]
fn empty_uncompressed() {
    let smx = Smx::new();
    let data = smx
        .write_to(Endianness::Little, CompressionLevel::NoCompression)
        .unwrap();
    assert_eq!(Smx::read_from(&data).unwrap(), (smx, Endianness::Little));
}

#[test]
fn lib_empty() {
    let smx = Smx::new();
    let data = smx
        .write_to(Endianness::Big, CompressionLevel::DefaultLevel)
        .unwrap();
    assert_eq!(Smx::read_from(&data).unwrap(), (smx, Endianness::Big));
}

#[test]
fn two_empty_sections() {
    let mut smx = Smx::new();
    smx.write_section(b".section_a".to_vec(), vec![]);
    smx.write_section(b".section_b".to_vec(), vec![]);

    let data = smx
        .write_to(Endianness::Little, CompressionLevel::DefaultLevel)
        .unwrap();
    assert_eq!(Smx::read_from(&data).unwrap(), (smx, Endianness::Little));
}

#[test]
fn one_empty_section() {
    let mut smx = Smx::new();
    smx.write_section(b".section_a".to_vec(), vec![]);

    let data = smx
        .write_to(Endianness::Big, CompressionLevel::NoCompression)
        .unwrap();
    assert_eq!(Smx::read_from(&data).unwrap(), (smx, Endianness::Big));
}

#[test]
fn two_filled_sections() {
    let mut smx = Smx::new();
    smx.write_section(b".section_a".to_vec(), vec![4, 20, 133, 7]);
    smx.write_section(b".section_b".to_vec(), vec![1, 2, 3, 4, 5, 6]);

    let data = smx
        .write_to(Endianness::Little, CompressionLevel::NoCompression)
        .unwrap();
    let (back, endianness) = Smx::read_from(&data).unwrap();
    assert_eq!(endianness, Endianness::Little);
    assert_eq!(back.sections.len(), 2);
    assert!(back
        .sections
        .contains(&section(b".section_a", &[4, 20, 133, 7])));
    assert!(back
        .sections
        .contains(&section(b".section_b", &[1, 2, 3, 4, 5, 6])));
    assert_eq!(back, smx);
}

#[test]
fn round_trip_every_order_and_level() {
    for e in [Endianness::Little, Endianness::Big] {
        for level in [
            CompressionLevel::NoCompression,
            CompressionLevel::DefaultLevel,
            CompressionLevel::UberCompression,
        ] {
            let mut smx = Smx::new();
            smx.write_section(b".code".to_vec(), vec![0, 1, 2, 3, 250, 251, 252]);
            smx.write_section(b".data".to_vec(), vec![9; 300]);
            smx.write_section(b".names".to_vec(), vec![]);

            let data = smx.write_to(e, level).unwrap();
            assert_eq!(Smx::read_from(&data).unwrap(), (smx, e));
        }
    }
}

#[test]
fn empty_container_file_shape() {
    for e in [Endianness::Little, Endianness::Big] {
        for level in [
            CompressionLevel::NoCompression,
            CompressionLevel::DefaultLevel,
        ] {
            let smx = Smx::new();
            let data = smx.write_to(e, level).unwrap();
            // Section count is zero and the string table is empty: both
            // offsets point at the end of the 24-byte header.
            assert_eq!(data[15], 0);
            let get = |at: usize| -> u32 {
                let b = [data[at], data[at + 1], data[at + 2], data[at + 3]];
                match e {
                    Endianness::Little => u32::from_le_bytes(b),
                    Endianness::Big => u32::from_be_bytes(b),
                }
            };
            assert_eq!(get(16), 24);
            assert_eq!(get(20), 24);
            let (back, back_e) = Smx::read_from(&data).unwrap();
            assert_eq!(back_e, e);
            assert_eq!(back.sections.len(), 0);
        }
    }
}

#[test]
fn magic_mismatch_keeps_bytes() {
    let data = [0xde, 0xad, 0xbe, 0xef, 0, 0, 0, 0];
    match Smx::read_from(&data) {
        Err(SmxError::Magic(m)) => assert_eq!(m, [0xde, 0xad, 0xbe, 0xef]),
        other => panic!("unexpected outcome: {other:?}"),
    }
}

#[test]
fn image_size_tamper_is_caught() {
    let mut smx = Smx::new();
    smx.write_section(b".code".to_vec(), vec![1, 2, 3]);
    let mut data = smx
        .write_to(Endianness::Little, CompressionLevel::NoCompression)
        .unwrap();
    let image = u32::from_le_bytes([data[11], data[12], data[13], data[14]]);
    let tampered = image - 1;
    data[11..15].copy_from_slice(&tampered.to_le_bytes());
    match Smx::read_from(&data) {
        Err(SmxError::NotAtImageSize { declared, actual }) => {
            assert_eq!(declared, tampered);
            assert_eq!(actual, image as u64);
        }
        other => panic!("unexpected outcome: {other:?}"),
    }
}

#[test]
fn invalid_name_offset_is_caught() {
    let mut smx = Smx::new();
    smx.write_section(b".code".to_vec(), vec![1, 2, 3]);
    let mut data = smx
        .write_to(Endianness::Little, CompressionLevel::NoCompression)
        .unwrap();
    // The string table holds ".code\0": six bytes.
    let table_size = 6usize;
    let bad_offset = 0x1234u32;
    assert!(bad_offset as usize >= table_size);
    data[24..28].copy_from_slice(&bad_offset.to_le_bytes());
    match Smx::read_from(&data) {
        Err(SmxError::SectionNameOffset {
            section,
            name_offset,
            string_table_size,
        }) => {
            assert_eq!(section, 0);
            assert_eq!(name_offset, bad_offset);
            assert_eq!(string_table_size, table_size);
        }
        other => panic!("unexpected outcome: {other:?}"),
    }
}

#[test]
fn version_mismatch_is_reported() {
    let smx = Smx::new();
    let mut data = smx
        .write_to(Endianness::Little, CompressionLevel::NoCompression)
        .unwrap();
    data[4..6].copy_from_slice(&0x0101u16.to_le_bytes());
    assert_eq!(Smx::read_from(&data), Err(SmxError::Version(0x0101)));
}

#[test]
fn unknown_compression_flag_is_reported() {
    let smx = Smx::new();
    let mut data = smx
        .write_to(Endianness::Little, CompressionLevel::NoCompression)
        .unwrap();
    data[6] = 2;
    assert_eq!(Smx::read_from(&data), Err(SmxError::Compression(2)));
}

#[test]
fn truncated_file_is_reported() {
    let smx = Smx::new();
    let data = smx
        .write_to(Endianness::Little, CompressionLevel::NoCompression)
        .unwrap();
    assert_eq!(Smx::read_from(&data[..3]), Err(SmxError::Truncated));
    assert_eq!(Smx::read_from(&data[..10]), Err(SmxError::Truncated));
}

#[test]
fn compressed_tail_size_mismatch_is_reported() {
    let mut smx = Smx::new();
    smx.write_section(b".code".to_vec(), vec![7; 64]);
    let data = smx
        .write_to(Endianness::Little, CompressionLevel::DefaultLevel)
        .unwrap();
    let shorter = &data[..data.len() - 1];
    match Smx::read_from(shorter) {
        Err(SmxError::NotAtDiskSize(n)) => {
            let payload_offset =
                u32::from_le_bytes([data[20], data[21], data[22], data[23]]) as usize;
            assert_eq!(n, shorter.len() - payload_offset);
        }
        other => panic!("unexpected outcome: {other:?}"),
    }
}

#[test]
fn corrupt_compressed_stream_is_reported() {
    let mut smx = Smx::new();
    smx.write_section(b".code".to_vec(), vec![7; 64]);
    let mut data = smx
        .write_to(Endianness::Little, CompressionLevel::DefaultLevel)
        .unwrap();
    let payload_offset = u32::from_le_bytes([data[20], data[21], data[22], data[23]]) as usize;
    // Ruin the zlib header of the stored payload.
    data[payload_offset] = 0xff;
    data[payload_offset + 1] = 0xff;
    assert_eq!(Smx::read_from(&data), Err(SmxError::Decompress));
}

#[test]
fn write_section_last_write_wins() {
    let mut smx = Smx::new();
    smx.write_section(b".code".to_vec(), vec![1]);
    smx.write_section(b".data".to_vec(), vec![2]);
    smx.write_section(b".code".to_vec(), vec![3]);
    assert_eq!(
        smx.sections,
        vec![section(b".code", &[3]), section(b".data", &[2])]
    );
}

#[test]
fn default_and_with_sections() {
    let empty = Smx::default();
    assert_eq!(empty.sections.len(), 0);
    assert_eq!(empty, Smx::new());

    let made = Smx::with_sections(vec![section(b"a", &[1])]);
    assert_eq!(made.sections, vec![section(b"a", &[1])]);
    assert_ne!(made, empty);
}
