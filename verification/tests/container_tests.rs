use nsbmd::container::Container;
use nsbmd::container::Header;
use nsbmd::material_list::MaterialIdxList;
use nsbmd::name::Name;
use nsbmd::name_list::NameList;
use nsbmd::name_list::Unknown;
use nsbmd::name_list::UnknownHeader;
use nsbmd::subfiles::Type;

#[test]
fn truncated_offset_table_is_a_decode_error() {
    // A header that declares 100 subfiles inside a 16-byte buffer: the
    // offset table would run far past the end. This must be an error,
    // not an out-of-bounds read.
    let mut bytes = vec![0u8; 16];
    bytes[0..4].copy_from_slice(b"BMD0");
    bytes[4] = 0xFF;
    bytes[5] = 0xFE;
    bytes[12] = 16;
    bytes[14] = 100;
    assert!(Container::from_bytes(&bytes).is_err());
}

#[test]
fn short_buffers_are_decode_errors() {
    assert!(Container::from_bytes(&[]).is_err());
    assert!(Container::from_bytes(&[0u8; 15]).is_err());
    assert!(Header::from_bytes(&[0u8; 15]).is_err());
}

#[test]
fn unknown_stamp_is_refused() {
    assert!(Type::from_stamp(b"XYZ0").is_err());
    assert!(Type::from_stamp(b"MDL").is_err());
    assert_eq!(Type::from_stamp(b"MDL0").unwrap(), Type::MDL);
    assert_eq!(Type::from_stamp(b"TEX0").unwrap(), Type::TEX);
    assert_eq!(Type::from_stamp(b"JNT0").unwrap(), Type::JNT);
    assert_eq!(Type::from_stamp(b"PAT0").unwrap(), Type::PAT);
    assert_eq!(Type::from_stamp(b"SRT0").unwrap(), Type::SRT);
}

#[test]
fn header_round_trips() {
    let header = Header {
        stamp: *b"BMD0",
        bom: 0xFEFF,
        version: 2,
        filesize: 0x1234,
        header_size: 16,
        num_subfiles: 1,
    };
    let mut buffer = vec![0u8; 16];
    header.write_bytes(&mut buffer, 0);
    let decoded = Header::from_bytes(&buffer).unwrap();
    assert_eq!(decoded, header);
}

fn sample_name(text: &[u8]) -> Name {
    let mut raw = [0u8; 16];
    raw[..text.len()].copy_from_slice(text);
    Name { name: raw }
}

fn sample_list() -> NameList<u32> {
    NameList {
        dummy: 0,
        count: 2,
        size: 72,
        unknown: Unknown {
            header: UnknownHeader { subheader_size: 8, unknown_size: 20, unknown: 0x17F },
            unknown: vec![7, 9],
        },
        element_size: 4,
        data_section_size: 12,
        data: vec![0x40, 0x80],
        names: vec![sample_name(b"first"), sample_name(b"second")],
    }
}

#[test]
fn name_list_round_trips_byte_exactly() {
    let list = sample_list();
    let bytes = list.to_bytes().unwrap();
    assert_eq!(bytes.len(), 72);
    let decoded = NameList::<u32>::from_bytes(&bytes).unwrap();
    assert_eq!(decoded.dummy, list.dummy);
    assert_eq!(decoded.count, list.count);
    assert_eq!(decoded.size, list.size);
    assert_eq!(decoded.unknown.header, list.unknown.header);
    assert_eq!(decoded.unknown.unknown, list.unknown.unknown);
    assert_eq!(decoded.element_size, list.element_size);
    assert_eq!(decoded.data_section_size, list.data_section_size);
    assert_eq!(decoded.data, list.data);
    assert_eq!(decoded.names[0].name, list.names[0].name);
    assert_eq!(decoded.names[1].name, list.names[1].name);
    // Re-encoding the decoded list reproduces the bytes exactly.
    let bytes2 = decoded.to_bytes().unwrap();
    assert_eq!(bytes, bytes2);
}

#[test]
fn rebase_is_idempotent_on_name_lists() {
    // Rebase, encode, rebase again, encode: both byte runs agree.
    let mut list = sample_list();
    list.size = 9999;
    list.rebase();
    assert_eq!(list.size, 4 + 8 + 8 + 4 + 2 * 4 + 2 * 16);
    let a = list.to_bytes().unwrap();
    list.rebase();
    let b = list.to_bytes().unwrap();
    assert_eq!(a, b);
}

#[test]
fn name_list_rejects_undersized_buffers() {
    assert!(NameList::<u32>::from_bytes(&[0u8; 3]).is_err());
    // The recorded size exceeds the buffer.
    let bytes: Vec<u8> = vec![0, 0, 0xFF, 0x00];
    assert!(NameList::<u32>::from_bytes(&bytes).is_err());
}

#[test]
fn material_idx_list_round_trips_through_absolute_offsets() {
    // A record with count 3 whose index bytes live at absolute offset 50
    // of the enclosing section, far from the record itself.
    let mut section = vec![0u8; 64];
    section[50] = 7;
    section[51] = 8;
    section[52] = 9;
    let mut record = MaterialIdxList { offset: 50, count: 3, dummy: 0, indices: Vec::new() };
    record.read_indices(&section).unwrap();
    assert_eq!(record.indices, vec![7, 8, 9]);
    // Writing into a fresh section puts the same bytes back at offset 50,
    // wherever the record header itself would sit.
    let mut fresh = vec![0u8; 64];
    record.write_indices(&mut fresh, 0).unwrap();
    assert_eq!(&fresh[50..53], &[7, 8, 9]);
    assert!(fresh[..50].iter().all(|b| *b == 0));
    assert!(fresh[53..].iter().all(|b| *b == 0));
}

#[test]
fn material_idx_list_rejects_out_of_range_reads() {
    let section = vec![0u8; 16];
    let mut record = MaterialIdxList { offset: 15, count: 3, dummy: 0, indices: Vec::new() };
    assert!(record.read_indices(&section).is_err());
}

#[test]
fn unknown_stamp_message_names_the_bytes() {
    let e = Type::from_stamp(b"ABCD").unwrap_err();
    assert_eq!(e.message(), "Unknown subfile stamp 65 66 67 68");
}

#[test]
fn error_messages_round_trip() {
    let e = nsbmd::error::AppError::new("malformed input");
    assert_eq!(e.message(), "malformed input");
}

#[test]
fn rebase_refuses_placeholder_subfiles() {
    // A container holding one joint-animation subfile: decoding succeeds,
    // but a rebase must fail loudly instead of laying it out as zero bytes.
    let bytes: Vec<u8> = vec![
        b'B', b'M', b'D', b'0', 0xFF, 0xFE, 1, 0, 24, 0, 0, 0, 16, 0, 1, 0, // header
        20, 0, 0, 0, // offset table: one subfile at 20
        b'J', b'N', b'T', b'0', // its stamp
    ];
    let mut c = Container::from_bytes(&bytes).unwrap();
    assert!(c.rebase().is_err());
}

#[test]
fn container_rebase_encode_twice_is_stable() {
    // Rebase, encode, rebase again, encode: both byte runs agree.
    let bytes: Vec<u8> = vec![
        b'B', b'M', b'D', b'0', 0xFF, 0xFE, 1, 0, 16, 0, 0, 0, 16, 0, 0, 0,
    ];
    let mut c = Container::from_bytes(&bytes).unwrap();
    c.rebase().unwrap();
    let a = c.to_bytes().unwrap();
    c.rebase().unwrap();
    let b = c.to_bytes().unwrap();
    assert_eq!(a, b);
    assert_eq!(a.len(), 16);
}
