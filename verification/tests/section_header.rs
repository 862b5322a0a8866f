use wasm::error::Error;
use wasm::reader::{Span, WasmReader};
use wasm::section_header::{SectionHeader, SectionTy};

#[test]
fn section_kinds_are_read_by_their_byte() {
    let kinds = [
        SectionTy::Custom,
        SectionTy::Type,
        SectionTy::Import,
        SectionTy::Function,
        SectionTy::Table,
        SectionTy::Memory,
        SectionTy::Global,
        SectionTy::Export,
        SectionTy::Start,
        SectionTy::Element,
        SectionTy::Code,
        SectionTy::Data,
        SectionTy::DataCount,
    ];
    for (i, kind) in kinds.iter().enumerate() {
        let bytes = [i as u8];
        let mut reader = WasmReader::new(&bytes);
        assert_eq!(SectionTy::read(&mut reader), Ok(*kind));
        assert_eq!(reader.remaining(), 0);
        assert_eq!(kind.to_byte(), i as u8);
    }
}

#[test]
fn unknown_section_kind_is_rejected_with_its_byte() {
    let bytes = [13u8, 0];
    let mut reader = WasmReader::new(&bytes);
    assert_eq!(SectionTy::read(&mut reader), Err(Error::InvalidSectionType(13)));
    assert_eq!(reader.remaining(), 2);
    let bytes = [0xffu8];
    let mut reader = WasmReader::new(&bytes);
    assert_eq!(SectionTy::read(&mut reader), Err(Error::InvalidSectionType(0xff)));
}

#[test]
fn section_header_spans_its_contents() {
    let bytes = [1u8, 3, 0xaa, 0xbb, 0xcc, 7];
    let mut reader = WasmReader::new(&bytes);
    let header = SectionHeader::read(&mut reader).unwrap();
    assert_eq!(header, SectionHeader { ty: SectionTy::Type, contents: Span { from: 2, len: 3 } });
    assert_eq!(reader.remaining(), 1);
    assert_eq!(header.contents.slice(&bytes), Some(&bytes[2..5]));
}

#[test]
fn truncated_section_is_rejected_and_nothing_is_consumed() {
    let bytes = [1u8, 4, 0xaa, 0xbb, 0xcc];
    let mut reader = WasmReader::new(&bytes);
    assert_eq!(SectionHeader::read(&mut reader), Err(Error::UnexpectedEof));
    assert_eq!(reader.remaining(), 5);
    let empty: [u8; 0] = [];
    let mut reader = WasmReader::new(&empty);
    assert_eq!(SectionTy::read(&mut reader), Err(Error::UnexpectedEof));
}

#[test]
fn varints_are_decoded_and_checked_against_their_width() {
    let bytes = [0xe5u8, 0x8e, 0x26];
    let mut reader = WasmReader::new(&bytes);
    assert_eq!(reader.read_var_u32(), Ok(624485));
    let bytes = [0xffu8, 0xff, 0xff, 0xff, 0x0f];
    assert_eq!(WasmReader::new(&bytes).read_var_u32(), Ok(u32::MAX));
    let bytes = [0xffu8, 0xff, 0xff, 0xff, 0x1f];
    assert_eq!(WasmReader::new(&bytes).read_var_u32(), Err(Error::MalformedVarint));
    let bytes = [0x80u8, 0x80, 0x80, 0x80, 0x80, 0x00];
    assert_eq!(WasmReader::new(&bytes).read_var_u32(), Err(Error::MalformedVarint));
    let bytes = [0x80u8, 0x80];
    assert_eq!(WasmReader::new(&bytes).read_var_u32(), Err(Error::UnexpectedEof));
    let bytes = [0xc0u8, 0xbb, 0x78];
    assert_eq!(WasmReader::new(&bytes).read_var_i32(), Ok(-123456));
    let bytes = [0x7fu8];
    assert_eq!(WasmReader::new(&bytes).read_var_i32(), Ok(-1));
    let bytes = [0x80u8, 0x80, 0x80, 0x80, 0x78];
    assert_eq!(WasmReader::new(&bytes).read_var_i32(), Ok(i32::MIN));
    let bytes = [0x80u8, 0x80, 0x80, 0x80, 0x08];
    assert_eq!(WasmReader::new(&bytes).read_var_i32(), Err(Error::MalformedVarint));
    let bytes = [0x80u8, 0x80, 0x80, 0x80, 0x80, 0x80, 0x80, 0x80, 0x80, 0x7f];
    assert_eq!(WasmReader::new(&bytes).read_var_i64(), Ok(i64::MIN));
    let bytes = [0xffu8, 0xff, 0xff, 0xff, 0xff, 0xff, 0xff, 0xff, 0xff, 0x00];
    assert_eq!(WasmReader::new(&bytes).read_var_i64(), Ok(i64::MAX));
}

#[test]
fn make_span_checks_the_buffer() {
    let bytes = [1u8, 2, 3];
    let mut reader = WasmReader::new(&bytes);
    assert_eq!(reader.read_u8(), Ok(1));
    assert_eq!(reader.make_span(3), Err(Error::UnexpectedEof));
    assert_eq!(reader.make_span(2), Ok(Span { from: 1, len: 2 }));
    assert_eq!(reader.read_u8(), Err(Error::UnexpectedEof));
    assert_eq!(Span::new(2, 2).slice(&bytes), None);
}
