use winring0::protocol::{
    MemoryRequest, MsrRequest, Opcode, PortInRequest, PortOutRequest, PortWidth, MAX_WRITE_LEN,
};
use winring0::wire::{get_le, put_le};

#[test]
fn put_le_writes_least_significant_byte_first() {
    let mut buf: Vec<u8> = vec![0xEE];
    put_le(&mut buf, 0x1122_3344_5566_7788, 8);
    assert_eq!(buf, vec![0xEE, 0x88, 0x77, 0x66, 0x55, 0x44, 0x33, 0x22, 0x11]);
}

#[test]
fn put_le_keeps_only_the_low_bytes() {
    let mut buf: Vec<u8> = Vec::new();
    put_le(&mut buf, 0x1234_5678, 2);
    assert_eq!(buf, vec![0x78, 0x56]);
    put_le(&mut buf, 7, 0);
    assert_eq!(buf, vec![0x78, 0x56]);
}

#[test]
fn get_le_reads_a_field_in_the_middle() {
    let bytes: Vec<u8> = vec![0xFF, 0x78, 0x56, 0x34, 0x12, 0xFF];
    assert_eq!(get_le(&bytes, 1, 4), 0x1234_5678);
    assert_eq!(get_le(&bytes, 1, 2), 0x5678);
    assert_eq!(get_le(&bytes, 3, 0), 0);
}

#[test]
fn get_le_reads_the_largest_value() {
    let bytes: Vec<u8> = vec![0xFF; 8];
    assert_eq!(get_le(&bytes, 0, 8), u64::MAX);
}

#[test]
fn get_le_undoes_put_le() {
    let mut buf: Vec<u8> = Vec::new();
    put_le(&mut buf, 0xDEAD_BEEF, 4);
    put_le(&mut buf, 0x0102_0304_0506_0708, 8);
    assert_eq!(get_le(&buf, 0, 4), 0xDEAD_BEEF);
    assert_eq!(get_le(&buf, 4, 8), 0x0102_0304_0506_0708);
}

#[test]
fn opcodes_have_their_control_codes() {
    assert_eq!(Opcode::ReadMemory.code(), 0x9C40_6104);
    assert_eq!(Opcode::WriteMemory.code(), 0x9C40_A108);
    assert_eq!(Opcode::ReadMsr.code(), 0x9C40_2084);
    assert_eq!(Opcode::WriteMsr.code(), 0x9C40_2088);
    assert_eq!(Opcode::In8.code(), 0x9C40_60CC);
    assert_eq!(Opcode::In16.code(), 0x9C40_60D0);
    assert_eq!(Opcode::In32.code(), 0x9C40_60D4);
    assert_eq!(Opcode::Out8.code(), 0x9C40_A0D8);
    assert_eq!(Opcode::Out16.code(), 0x9C40_A0DC);
    assert_eq!(Opcode::Out32.code(), 0x9C40_A0E0);
}

#[test]
fn control_codes_select_their_opcodes() {
    let all = [
        Opcode::ReadMemory,
        Opcode::WriteMemory,
        Opcode::ReadMsr,
        Opcode::WriteMsr,
        Opcode::In8,
        Opcode::In16,
        Opcode::In32,
        Opcode::Out8,
        Opcode::Out16,
        Opcode::Out32,
    ];
    for opcode in all {
        assert_eq!(Opcode::from_code(opcode.code()), Some(opcode));
    }
    assert_eq!(Opcode::from_code(0), None);
    assert_eq!(Opcode::from_code(0x9C40_6105), None);
}

#[test]
fn port_opcodes_follow_the_width() {
    assert_eq!(Opcode::port_in(PortWidth::Byte), Opcode::In8);
    assert_eq!(Opcode::port_in(PortWidth::Word), Opcode::In16);
    assert_eq!(Opcode::port_in(PortWidth::Dword), Opcode::In32);
    assert_eq!(Opcode::port_out(PortWidth::Byte), Opcode::Out8);
    assert_eq!(Opcode::port_out(PortWidth::Word), Opcode::Out16);
    assert_eq!(Opcode::port_out(PortWidth::Dword), Opcode::Out32);
}

#[test]
fn port_widths_have_their_sizes() {
    assert_eq!(PortWidth::Byte.bytes(), 1);
    assert_eq!(PortWidth::Word.bytes(), 2);
    assert_eq!(PortWidth::Dword.bytes(), 4);
    assert_eq!(PortWidth::Byte.max(), 0xFF);
    assert_eq!(PortWidth::Word.max(), 0xFFFF);
    assert_eq!(PortWidth::Dword.max(), 0xFFFF_FFFF);
}

#[test]
fn msr_request_is_index_then_value() {
    let request = MsrRequest { index: 0x1B, value: 0 };
    assert_eq!(
        request.encode(),
        vec![0x1B, 0x00, 0x00, 0x00, 0x00, 0x00, 0x00, 0x00, 0x00, 0x00, 0x00, 0x00]
    );
}

#[test]
fn msr_request_is_packed() {
    let request = MsrRequest { index: 0xC000_0080, value: 0x0102_0304_0506_0708 };
    assert_eq!(
        request.encode(),
        vec![0x80, 0x00, 0x00, 0xC0, 0x08, 0x07, 0x06, 0x05, 0x04, 0x03, 0x02, 0x01]
    );
}

#[test]
fn msr_request_decodes_what_it_encodes() {
    let request = MsrRequest { index: 0x1A0, value: u64::MAX - 5 };
    assert_eq!(MsrRequest::decode(&request.encode()), Some(request));
    assert_eq!(MsrRequest::decode(&[0u8; 11]), None);
    assert_eq!(MsrRequest::decode(&[0u8; 13]), None);
    assert_eq!(MsrRequest::decode(&[0u8; 16]), None);
}

#[test]
fn memory_read_request_has_no_payload() {
    let request = MemoryRequest::read(0x1122_3344_5566_7788, 0x10);
    assert_eq!(request.element_size, 1);
    assert_eq!(request.element_count, 0x10);
    assert_eq!(
        request.encode(),
        vec![
            0x88, 0x77, 0x66, 0x55, 0x44, 0x33, 0x22, 0x11, 0x01, 0x00, 0x00, 0x00, 0x10, 0x00,
            0x00, 0x00
        ]
    );
}

#[test]
fn memory_write_request_carries_its_payload() {
    let request = MemoryRequest::write(0x1000, &[0xDE, 0xAD, 0xBE]);
    assert_eq!(request.element_size, 1);
    assert_eq!(request.element_count, 3);
    assert_eq!(
        request.encode(),
        vec![
            0x00, 0x10, 0x00, 0x00, 0x00, 0x00, 0x00, 0x00, 0x01, 0x00, 0x00, 0x00, 0x03, 0x00,
            0x00, 0x00, 0xDE, 0xAD, 0xBE
        ]
    );
}

#[test]
fn memory_write_request_may_be_empty() {
    let request = MemoryRequest::write(0, &[]);
    assert_eq!(request.element_count, 0);
    assert_eq!(request.encode().len(), 16);
}

#[test]
fn memory_request_decodes_what_it_encodes() {
    let request = MemoryRequest::write(0xFFFF_FFFF_FFFF_FFF0, &[1, 2, 3, 4, 5]);
    let decoded = MemoryRequest::decode(&request.encode()).unwrap();
    assert_eq!(decoded.address, 0xFFFF_FFFF_FFFF_FFF0);
    assert_eq!(decoded.element_size, 1);
    assert_eq!(decoded.element_count, 5);
    assert_eq!(decoded.payload, vec![1, 2, 3, 4, 5]);
    assert!(MemoryRequest::decode(&[0u8; 15]).is_none());
    let header_only = MemoryRequest::decode(&[0u8; 16]).unwrap();
    assert!(header_only.payload.is_empty());
}

#[test]
fn write_limit_leaves_room_for_the_header() {
    assert_eq!(MAX_WRITE_LEN as u64 + 16, u32::MAX as u64);
}

#[test]
fn port_in_request_widens_the_address() {
    let request = PortInRequest { address: 0x0CF8 };
    assert_eq!(request.encode(), vec![0xF8, 0x0C, 0x00, 0x00]);
    assert_eq!(PortInRequest::decode(&[0xF8, 0x0C, 0x00, 0x00]), Some(request));
}

#[test]
fn port_in_request_must_name_a_port() {
    assert_eq!(PortInRequest::decode(&[0x00, 0x00, 0x01, 0x00]), None);
    assert_eq!(PortInRequest::decode(&[0xF8, 0x0C]), None);
    assert_eq!(PortInRequest::decode(&[0xF8, 0x0C, 0x00, 0x00, 0x00]), None);
    assert_eq!(
        PortInRequest::decode(&[0xFF, 0xFF, 0x00, 0x00]),
        Some(PortInRequest { address: 0xFFFF })
    );
}

#[test]
fn port_out_requests_are_packed() {
    let byte = PortOutRequest { address: 0x80, width: PortWidth::Byte, value: 0xAB };
    assert_eq!(byte.encode(), vec![0x80, 0x00, 0xAB]);
    let word = PortOutRequest { address: 0x80, width: PortWidth::Word, value: 0xABCD };
    assert_eq!(word.encode(), vec![0x80, 0x00, 0xCD, 0xAB]);
    let dword = PortOutRequest { address: 0x0CF8, width: PortWidth::Dword, value: 0x8000_F8F0 };
    assert_eq!(dword.encode(), vec![0xF8, 0x0C, 0xF0, 0xF8, 0x00, 0x80]);
}

#[test]
fn port_out_request_decodes_what_it_encodes() {
    let word = PortOutRequest { address: 0x1234, width: PortWidth::Word, value: 0xBEEF };
    assert_eq!(PortOutRequest::decode(PortWidth::Word, &word.encode()), Some(word));
    assert_eq!(PortOutRequest::decode(PortWidth::Byte, &word.encode()), None);
    assert_eq!(PortOutRequest::decode(PortWidth::Dword, &word.encode()), None);
    assert_eq!(
        PortOutRequest::decode(PortWidth::Byte, &[0x34, 0x12, 0x7F]),
        Some(PortOutRequest { address: 0x1234, width: PortWidth::Byte, value: 0x7F })
    );
}
