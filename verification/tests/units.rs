use smx::endian::{get_u16, get_u32, put_u16, put_u32};
use smx::opcodes::{Instruction, OpcodeError};
use smx::smx::{infer_endianness, read_from, read_no_magic_from, write_to, BorrowedMap, SmxError};
use smx::smx_table::CStrTable;
use smx::vm_types::{read_cell, read_func_id, read_ucell, write_cell};
use smx::{CompressionLevel, Endianness, Smx};

#[test]
fn smx_table_empty() {
    let table = CStrTable::new();
    let mut data = Vec::new();
    table.write_to(&mut data);
    assert_eq!(data, Vec::<u8>::new());
}

#[test]
fn one_entry() {
    let mut table = CStrTable::new();
    table.insert(b".code");
    let mut data = Vec::new();
    table.write_to(&mut data);
    assert_eq!(&data, b".code\0");
}

#[test]
fn dup_entry() {
    let mut table = CStrTable::new();
    let key_1 = table.insert(b".code");
    let key_2 = table.insert(b".code");
    assert_eq!(key_1, key_2);

    let mut data = Vec::new();
    table.write_to(&mut data);
    assert_eq!(&data, b".code\0");
}

#[test]
fn entries_and_dup() {
    let mut table = CStrTable::new();
    table.insert(b"OnPluginStart");
    let key_1 = table.insert(b"LogMessage");
    table.insert(b"OnPluginEnd");
    let key_2 = table.insert(b"LogMessage");
    assert_eq!(key_1, key_2);
    table.insert(b"OnPluginStart");

    let mut data = Vec::new();
    table.write_to(&mut data);
    assert_eq!(&data, b"OnPluginStart\0LogMessage\0OnPluginEnd\0");
}

#[test]
fn table_lookup_reproduces_bytes() {
    let mut table = CStrTable::new();
    let a = table.insert(b"alpha");
    let b = table.insert(b"beta");
    let c = table.insert(b"");
    assert_eq!(table.get_c_string(a).unwrap(), b"alpha".to_vec());
    assert_eq!(table.get_c_string(b).unwrap(), b"beta".to_vec());
    assert_eq!(table.get_c_string(c).unwrap(), Vec::<u8>::new());
    assert_eq!(table.get_c_string(table.len()), None);
    assert_eq!(table.len(), 12);
    assert!(!table.is_empty());
}

#[test]
fn table_iter_walks_entries() {
    let mut table = CStrTable::new();
    table.insert(b"ab");
    table.insert(b"c");
    let mut it = table.iter();
    let (off_1, s_1) = it.next().unwrap();
    assert_eq!((off_1, s_1), (0, b"ab" as &[u8]));
    let (off_2, s_2) = it.next().unwrap();
    assert_eq!((off_2, s_2), (3, b"c" as &[u8]));
    assert!(it.next().is_none());
}

#[test]
fn table_from_blob_round_trip() {
    let table = CStrTable::from_blob(b"x\0yz\0".to_vec());
    assert_eq!(table.blob(), &b"x\0yz\0".to_vec());
    assert_eq!(table.get_c_string(2).unwrap(), b"yz".to_vec());
}

#[test]
fn endian_integers_round_trip() {
    for e in [Endianness::Little, Endianness::Big] {
        let mut out = Vec::new();
        put_u16(&mut out, e, 0x1234);
        put_u32(&mut out, e, 0xdead_beef);
        assert_eq!(get_u16(&out, 0, e), 0x1234);
        assert_eq!(get_u32(&out, 2, e), 0xdead_beef);
    }
    let mut out = Vec::new();
    put_u32(&mut out, Endianness::Little, 0x0102_0304);
    assert_eq!(out, vec![4, 3, 2, 1]);
    let mut out = Vec::new();
    put_u32(&mut out, Endianness::Big, 0x0102_0304);
    assert_eq!(out, vec![1, 2, 3, 4]);
}

#[test]
fn cells_round_trip() {
    for e in [Endianness::Little, Endianness::Big] {
        for v in [0i32, 1, -1, i32::MIN, i32::MAX, 133] {
            let mut out = Vec::new();
            write_cell(&mut out, e, v);
            assert_eq!(read_cell(&out, 0, e), v);
        }
        let mut out = Vec::new();
        put_u32(&mut out, e, 0xffff_fffe);
        assert_eq!(read_ucell(&out, 0, e), 0xffff_fffe);
        assert_eq!(read_func_id(&out, 0, e), 0xffff_fffe);
        assert_eq!(read_cell(&out, 0, e), -2);
    }
}

#[test]
fn instructions_round_trip() {
    let program = [
        Instruction::NoOp,
        Instruction::LoadPri { offset: -8 },
        Instruction::PushC { const_1: 42 },
        Instruction::Casetbl {
            const_1: 2,
            jump_1: 7,
        },
        Instruction::Retn,
    ];
    let mut cells = Vec::new();
    for inst in &program {
        inst.write_to(&mut cells);
    }
    let mut pos = 0usize;
    let mut back = Vec::new();
    while pos < cells.len() {
        let (inst, next) = Instruction::read_from(&cells, pos).unwrap();
        back.push(inst);
        pos = next;
    }
    assert_eq!(back, program.to_vec());
}

#[test]
fn instruction_decode_errors() {
    assert_eq!(
        Instruction::read_from(&[], 0),
        Err(OpcodeError::Truncated)
    );
    assert_eq!(
        Instruction::read_from(&[1], 0),
        Err(OpcodeError::Truncated)
    );
    assert_eq!(
        Instruction::read_from(&[5000], 0),
        Err(OpcodeError::UnknownTag(5000))
    );
}

#[test]
fn borrowed_map_checks_duplicates() {
    let unique = vec![
        (b"a".to_vec(), vec![1u8]),
        (b"b".to_vec(), vec![2]),
        (b"c".to_vec(), vec![3]),
    ];
    let map = BorrowedMap::new(&unique).unwrap();
    assert_eq!(map.len(), 3);
    assert_eq!(map.as_slice().len(), 3);
    let mut it = map.iter();
    let (k, v) = it.next().unwrap();
    assert_eq!((k.as_slice(), v.as_slice()), (b"a" as &[u8], &[1u8] as &[u8]));

    let dup = vec![
        (b"a".to_vec(), vec![1u8]),
        (b"b".to_vec(), vec![2]),
        (b"a".to_vec(), vec![3]),
    ];
    assert_eq!(BorrowedMap::new(&dup).err(), Some((0, 2)));
}

#[test]
fn infer_endianness_both_orders() {
    assert_eq!(
        infer_endianness(&[0x46, 0x46, 0x50, 0x53]),
        Ok(Ok(Endianness::Little))
    );
    assert_eq!(
        infer_endianness(&[0x53, 0x50, 0x46, 0x46]),
        Ok(Ok(Endianness::Big))
    );
    assert_eq!(
        infer_endianness(&[9, 9, 9, 9]),
        Ok(Err([9, 9, 9, 9]))
    );
    assert_eq!(infer_endianness(&[9, 9]), Err(SmxError::Truncated));
}

#[test]
fn free_functions_round_trip() {
    let sections = vec![
        (b"one".to_vec(), vec![1u8, 2, 3]),
        (b"two".to_vec(), vec![4u8]),
    ];
    let data = write_to(
        Endianness::Big,
        CompressionLevel::BestCompression,
        &sections,
    )
    .unwrap();

    let mut sink = Smx::new();
    assert_eq!(read_from(&data, &mut sink), Ok(Endianness::Big));
    assert_eq!(sink.sections, sections);

    let mut sink_2 = Smx::new();
    assert_eq!(
        read_no_magic_from(Endianness::Big, &data, &mut sink_2),
        Ok(())
    );
    assert_eq!(sink_2.sections, sections);
}

#[test]
fn read_keeps_delivered_sections_on_error() {
    let mut smx = Smx::new();
    smx.write_section(b"first".to_vec(), vec![1]);
    smx.write_section(b"second".to_vec(), vec![2]);
    let mut data = smx
        .write_to(Endianness::Little, CompressionLevel::NoCompression)
        .unwrap();
    // Patch the second record's name offset past the table end.
    data[36..40].copy_from_slice(&0xffffu32.to_le_bytes());
    let mut sink = Smx::new();
    match read_from(&data, &mut sink) {
        Err(SmxError::SectionNameOffset { section, .. }) => assert_eq!(section, 1),
        other => panic!("unexpected outcome: {other:?}"),
    }
    assert_eq!(sink.sections, vec![(b"first".to_vec(), vec![1])]);
}

#[test]
fn error_messages_render() {
    assert_eq!(
        SmxError::Version(0x0101).message(),
        "unsupported version: 0x0101"
    );
    assert_eq!(
        SmxError::Magic([0xde, 0xad, 0xbe, 0xef]).message(),
        "wrong magic number: de ad be ef"
    );
    assert_eq!(
        SmxError::SectionNameOffset {
            section: 12,
            name_offset: 0x1234,
            string_table_size: 6,
        }
        .message(),
        "section #12 has invalid offset 0x1234 into string table of size 0x0006"
    );
    assert_eq!(
        SmxError::NotAtImageSize {
            declared: 0x2f,
            actual: 0x30,
        }
        .message(),
        "whole file is not at declared image size (declared 0x0000002f, actual 0x00000030)"
    );
    assert_eq!(
        SmxError::NotAtDiskSize(16).message(),
        "compressed payload is not at disk size 0x00000010"
    );
    assert_eq!(
        SmxError::Compression(2).message(),
        "unsupported compression type: 0x02"
    );
    assert_eq!(
        SmxError::Truncated.message(),
        "file ended inside a required field"
    );
    assert_eq!(SmxError::Decompress.message(), "decompression error");
}
