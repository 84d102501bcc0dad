use eof_parser::error::Error;
use eof_parser::parser::Parser;

/// Builds a byte stream with a valid 19-byte header followed by the given
/// types table, code, container and data sections.
fn stream(
    type_size: u16,
    num_code_sections: u16,
    types: &[u8],
    code: &[u8],
    container: &[u8],
    data: &[u8],
) -> Vec<u8> {
    let mut bytes = vec![
        0xEF, 0x00, // magic
        0x01, // version
        0x01, // kind_type
    ];
    bytes.extend_from_slice(&type_size.to_le_bytes());
    bytes.push(0x02); // kind_code
    bytes.extend_from_slice(&num_code_sections.to_le_bytes());
    bytes.extend_from_slice(&(code.len() as u16).to_le_bytes());
    bytes.push(0x03); // kind_container
    bytes.extend_from_slice(&0u16.to_le_bytes()); // num_container_sections
    bytes.push(container.len() as u8);
    bytes.push(0x04); // kind_data
    bytes.extend_from_slice(&(data.len() as u16).to_le_bytes());
    bytes.push(0x00); // terminator
    bytes.extend_from_slice(types);
    bytes.extend_from_slice(code);
    bytes.extend_from_slice(container);
    bytes.extend_from_slice(data);
    bytes
}

#[test]
fn test_parse_valid_eof() {
    // Create a mock EOF container
    let mock_eof = vec![
        0xEF, 0x00, // magic
        0x01, // version
        0x01, // kind_type
        0x04, 0x00, // type_size
        0x02, // kind_code
        0x01, 0x00, // num_code_sections
        0x0A, 0x00, // code_size
        0x03, // kind_container
        0x00, 0x00, // num_container_sections
        0x00, // container_size
        0x04, // kind_data
        0x00, 0x00, // data_size
        0x00, // terminator
        // Types section
        0x00, 0x01, 0x02, 0x00, // Code section
        0x60, 0x00, 0x60, 0x00, 0x60, 0x00, 0x60, 0x00, 0x60, 0x00,
    ];

    let mut parser = Parser::new(mock_eof);
    let result = parser.parse();
    assert!(result.is_ok());

    let container = result.unwrap();
    assert_eq!(container.header.magic, [0xEF, 0x00]);
    assert_eq!(container.header.version, 1);
    assert_eq!(container.body.code_section.len(), 10);
}

#[test]
fn test_parse_invalid_magic() {
    let invalid_eof = vec![0x00, 0x00]; // Invalid magic number
    let mut parser = Parser::new(invalid_eof);
    let result = parser.parse();
    assert!(matches!(result, Err(Error::InvalidMagic)));
}

#[test]
fn test_header_fields_decoded_verbatim() {
    let bytes = stream(4, 3, &[1, 2, 0x34, 0x12], &[0xAA; 7], &[0xBB; 2], &[0xCC; 5]);
    let mut parser = Parser::new(bytes);
    let container = parser.parse().unwrap();
    let h = container.header;
    assert_eq!(h.magic, [0xEF, 0x00]);
    assert_eq!(h.version, 1);
    assert_eq!(h.kind_type, 0x01);
    assert_eq!(h.type_size, 4);
    assert_eq!(h.kind_code, 0x02);
    assert_eq!(h.num_code_sections, 3);
    assert_eq!(h.code_size, 7);
    assert_eq!(h.kind_container, 0x03);
    assert_eq!(h.num_container_sections, 0);
    assert_eq!(h.container_size, 2);
    assert_eq!(h.kind_data, 0x04);
    assert_eq!(h.data_size, 5);
    assert_eq!(h.terminator, 0x00);
}

#[test]
fn test_max_stack_height_little_endian() {
    // Row bytes {1, 2, 0x34, 0x12}: the last two form 0x1234 little-endian.
    let bytes = stream(4, 1, &[1, 2, 0x34, 0x12], &[], &[], &[]);
    let mut parser = Parser::new(bytes);
    let container = parser.parse().unwrap();
    assert_eq!(container.body.types_section.len(), 1);
    assert_eq!(container.body.types_section[0].inputs, 1);
    assert_eq!(container.body.types_section[0].outputs, 2);
    assert_eq!(container.body.types_section[0].max_stack_height, 0x1234);
}

#[test]
fn test_invalid_version() {
    let mut bytes = stream(4, 1, &[0, 0, 0, 0], &[], &[], &[]);
    bytes[2] = 0x02;
    let mut parser = Parser::new(bytes);
    assert!(matches!(parser.parse(), Err(Error::InvalidVersion)));
}

#[test]
fn test_zero_code_sections() {
    let bytes = stream(4, 0, &[0, 0, 0, 0], &[], &[], &[]);
    let mut parser = Parser::new(bytes);
    assert!(matches!(parser.parse(), Err(Error::InvalidCodeSectionCount)));
}

#[test]
fn test_too_many_code_sections() {
    let bytes = stream(4, 1025, &[0, 0, 0, 0], &[], &[], &[]);
    let mut parser = Parser::new(bytes);
    assert!(matches!(parser.parse(), Err(Error::InvalidCodeSectionCount)));
}

#[test]
fn test_largest_code_section_count_accepted() {
    let bytes = stream(4, 1024, &[0, 0, 0, 0], &[], &[], &[]);
    let mut parser = Parser::new(bytes);
    assert!(parser.parse().is_ok());
}

#[test]
fn test_misaligned_type_size() {
    let bytes = stream(3, 1, &[0, 0, 0], &[], &[], &[]);
    let mut parser = Parser::new(bytes);
    assert!(matches!(parser.parse(), Err(Error::InvalidTypeSectionSize)));
}

#[test]
fn test_misaligned_type_size_after_whole_rows() {
    // One whole row, then a two-byte remainder.
    let bytes = stream(6, 1, &[1, 1, 0, 0, 9, 9], &[], &[], &[]);
    let mut parser = Parser::new(bytes);
    assert!(matches!(parser.parse(), Err(Error::InvalidTypeSectionSize)));
}

#[test]
fn test_zero_type_size() {
    let bytes = stream(0, 1, &[], &[], &[], &[]);
    let mut parser = Parser::new(bytes);
    assert!(matches!(parser.parse(), Err(Error::InvalidZeroSectionMetadata)));
}

#[test]
fn test_truncated_stream() {
    // Header declares a 4-byte data section; only 2 bytes follow.
    let mut bytes = stream(4, 1, &[0, 0, 0, 0], &[0x60, 0x00], &[], &[7, 7, 7, 7]);
    bytes.truncate(bytes.len() - 2);
    let mut parser = Parser::new(bytes);
    assert!(matches!(parser.parse(), Err(Error::IoError)));
}

#[test]
fn test_truncated_types_table() {
    // Header declares an 8-byte types table; only one row follows.
    let bytes = stream(8, 1, &[0, 0, 0, 0], &[], &[], &[]);
    let mut parser = Parser::new(bytes);
    assert!(matches!(parser.parse(), Err(Error::IoError)));
}

#[test]
fn test_empty_input() {
    let mut parser = Parser::new(Vec::new());
    assert!(matches!(parser.parse(), Err(Error::IoError)));
}

#[test]
fn test_truncated_header() {
    let bytes = vec![0xEF, 0x00, 0x01, 0x01];
    let mut parser = Parser::new(bytes);
    assert!(matches!(parser.parse(), Err(Error::IoError)));
}

#[test]
fn test_byte_preservation() {
    let types = [5, 6, 7, 0];
    let code = [0x60, 0x01, 0x60, 0x02, 0x00];
    let container_bytes = [0xDE, 0xAD];
    let data = [0xBE, 0xEF, 0x00];
    let bytes = stream(4, 1, &types, &code, &container_bytes, &data);
    let mut parser = Parser::new(bytes);
    let container = parser.parse().unwrap();
    assert_eq!(container.body.code_section, code.to_vec());
    assert_eq!(container.body.container_section, container_bytes.to_vec());
    assert_eq!(container.body.data_section, data.to_vec());
}

#[test]
fn test_scalar_mirroring() {
    // Two rows: the scalars mirror row 0, not row 1.
    let types = [3, 4, 0x10, 0x00, 8, 9, 0x20, 0x00];
    let bytes = stream(8, 2, &types, &[], &[], &[]);
    let mut parser = Parser::new(bytes);
    let container = parser.parse().unwrap();
    assert_eq!(container.body.types_section.len(), 2);
    assert_eq!(container.body.inputs, container.body.types_section[0].inputs);
    assert_eq!(container.body.outputs, container.body.types_section[0].outputs);
    assert_eq!(
        container.body.max_stack_height,
        container.body.types_section[0].max_stack_height
    );
    assert_eq!(container.body.inputs, 3);
    assert_eq!(container.body.outputs, 4);
    assert_eq!(container.body.max_stack_height, 0x10);
    assert_eq!(container.body.types_section[1].inputs, 8);
    assert_eq!(container.body.types_section[1].outputs, 9);
    assert_eq!(container.body.types_section[1].max_stack_height, 0x20);
}

#[test]
fn test_magic_checked_before_later_fields() {
    // Bad magic and a bad version: the magic verdict comes first.
    let bytes = vec![0xEE, 0x00, 0x09];
    let mut parser = Parser::new(bytes);
    assert!(matches!(parser.parse(), Err(Error::InvalidMagic)));
}

#[test]
fn test_empty_sections_allowed() {
    let bytes = stream(4, 1, &[0, 0, 0, 0], &[], &[], &[]);
    let mut parser = Parser::new(bytes);
    let container = parser.parse().unwrap();
    assert!(container.body.code_section.is_empty());
    assert!(container.body.container_section.is_empty());
    assert!(container.body.data_section.is_empty());
}
