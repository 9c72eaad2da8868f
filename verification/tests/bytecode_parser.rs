use libaeon::byte_stream::ByteStream;
use libaeon::bytecode_parser::{
    parse, read_code_vector, read_compiled_code, read_f64, read_i32, read_i64, read_instruction,
    read_string, read_u16, read_u32, read_u64, read_u8, read_vector, ParserError, VERSION,
};
use libaeon::compiled_code::Float;
use libaeon::instruction::{Instruction, SET_INTEGER};

fn pack_u8(num: u8, buffer: &mut Vec<u8>) {
    buffer.extend_from_slice(&num.to_be_bytes());
}

fn pack_u16(num: u16, buffer: &mut Vec<u8>) {
    buffer.extend_from_slice(&num.to_be_bytes());
}

fn pack_u32(num: u32, buffer: &mut Vec<u8>) {
    buffer.extend_from_slice(&num.to_be_bytes());
}

fn pack_u64(num: u64, buffer: &mut Vec<u8>) {
    buffer.extend_from_slice(&num.to_be_bytes());
}

fn pack_f64(num: f64, buffer: &mut Vec<u8>) {
    pack_u64(num.to_bits(), buffer);
}

fn pack_string(string: &str, buffer: &mut Vec<u8>) {
    pack_u64(string.len() as u64, buffer);
    buffer.extend_from_slice(string.as_bytes());
}

fn stream(buffer: &[u8]) -> ByteStream {
    ByteStream::from_slice(buffer)
}

fn pack_signature(buffer: &mut Vec<u8>) {
    buffer.push(97);
    buffer.push(101);
    buffer.push(111);
    buffer.push(110);
}

fn pack_minimal_code(buffer: &mut Vec<u8>) {
    pack_string("main", buffer);
    pack_string("test.aeon", buffer);
    pack_u32(4, buffer); // line
    pack_u32(0, buffer); // arguments
    pack_u32(0, buffer); // required arguments
    pack_u8(0, buffer); // rest argument
    pack_u64(0, buffer); // locals
    pack_u64(0, buffer); // instructions
    pack_u64(0, buffer); // integer literals
    pack_u64(0, buffer); // float literals
    pack_u64(0, buffer); // string literals
    pack_u64(0, buffer); // code objects
}

#[test]
fn test_parse_empty() {
    let buffer = Vec::new();
    let output = parse(&mut stream(&buffer));

    assert!(output.is_err());
}

#[test]
fn test_parse_invalid_signature() {
    let mut buffer = Vec::new();

    pack_string("cats", &mut buffer);

    let output = parse(&mut stream(&buffer));

    assert!(output.is_err());
}

#[test]
fn test_parse_invalid_version() {
    let mut buffer = Vec::new();

    pack_signature(&mut buffer);

    buffer.push(VERSION + 1);

    let output = parse(&mut stream(&buffer));

    assert!(output.is_err());
}

#[test]
fn test_parse() {
    let mut buffer = Vec::new();

    pack_signature(&mut buffer);

    buffer.push(VERSION);

    pack_minimal_code(&mut buffer);

    let object = parse(&mut stream(&buffer)).unwrap();

    assert_eq!(object.name, "main".to_string());
    assert_eq!(object.file, "test.aeon".to_string());
    assert_eq!(object.line, 4);
}

#[test]
fn test_read_string() {
    let mut buffer = Vec::new();

    pack_string("aeon", &mut buffer);

    let output = read_string(&mut stream(&buffer)).unwrap();

    assert_eq!(output, "aeon".to_string());
}

#[test]
fn test_read_string_longer_than_size() {
    let mut buffer = Vec::new();

    pack_u64(2, &mut buffer);

    buffer.extend_from_slice(&"aeon".as_bytes());

    let output = read_string(&mut stream(&buffer)).unwrap();

    assert_eq!(output, "ae".to_string());
}

#[test]
fn test_read_string_invalid_utf8() {
    let mut buffer = Vec::new();
    let bytes: [u8; 4] = [0, 159, 146, 150];

    pack_u64(4, &mut buffer);

    buffer.extend_from_slice(&bytes);

    let output = read_string(&mut stream(&buffer));

    assert!(output.is_err());
}

#[test]
fn test_read_string_empty() {
    let output = read_string(&mut stream(&[]));

    assert!(output.is_err());
}

#[test]
fn test_read_u8() {
    let mut buffer = Vec::new();

    pack_u8(2, &mut buffer);

    let output = read_u8(&mut stream(&buffer)).unwrap();

    assert_eq!(output, 2);
}

#[test]
fn test_read_u8_empty() {
    let output = read_u8(&mut stream(&[]));

    assert!(output.is_err());
}

#[test]
fn test_read_u16() {
    let mut buffer = Vec::new();

    pack_u16(2, &mut buffer);

    let output = read_u16(&mut stream(&buffer)).unwrap();

    assert_eq!(output, 2);
}

#[test]
fn test_read_u16_empty() {
    let output = read_u16(&mut stream(&[]));

    assert!(output.is_err());
}

#[test]
fn test_read_i32() {
    let mut buffer = Vec::new();

    pack_u32(2, &mut buffer);

    let output = read_i32(&mut stream(&buffer)).unwrap();

    assert_eq!(output, 2);
}

#[test]
fn test_read_i32_empty() {
    let output = read_i32(&mut stream(&[]));

    assert!(output.is_err());
}

#[test]
fn test_read_u32() {
    let mut buffer = Vec::new();

    pack_u32(2, &mut buffer);

    let output = read_u32(&mut stream(&buffer)).unwrap();

    assert_eq!(output, 2);
}

#[test]
fn test_read_i64() {
    let mut buffer = Vec::new();

    pack_u64(2, &mut buffer);

    let output = read_i64(&mut stream(&buffer)).unwrap();

    assert_eq!(output, 2);
}

#[test]
fn test_read_i64_empty() {
    let output = read_i64(&mut stream(&[]));

    assert!(output.is_err());
}

#[test]
fn test_read_u64() {
    let mut buffer = Vec::new();

    pack_u64(2, &mut buffer);

    let output = read_u64(&mut stream(&buffer)).unwrap();

    assert_eq!(output, 2);
}

#[test]
fn test_read_f64() {
    let mut buffer = Vec::new();

    pack_f64(2.123456, &mut buffer);

    let output = read_f64(&mut stream(&buffer)).unwrap();

    assert!((2.123456 - f64::from_bits(output.to_bits())).abs() < 0.00001);
}

#[test]
fn test_read_f64_empty() {
    let output = read_f64(&mut stream(&[]));

    assert!(output.is_err());
}

#[test]
fn test_read_vector() {
    let mut buffer = Vec::new();

    pack_u64(2, &mut buffer);
    pack_string("hello", &mut buffer);
    pack_string("world", &mut buffer);

    let output = read_vector::<String>(&mut stream(&buffer)).unwrap();

    assert_eq!(output.len(), 2);
    assert_eq!(output[0], "hello".to_string());
    assert_eq!(output[1], "world".to_string());
}

#[test]
fn test_read_vector_empty() {
    let buffer = Vec::new();
    let output = read_vector::<String>(&mut stream(&buffer));

    assert!(output.is_err());
}

#[test]
fn test_read_instruction() {
    let mut buffer = Vec::new();

    pack_u16(0, &mut buffer); // type
    pack_u64(1, &mut buffer); // args
    pack_u32(6, &mut buffer);
    pack_u32(2, &mut buffer); // line
    pack_u32(4, &mut buffer); // column

    let ins = read_instruction(&mut stream(&buffer)).unwrap();

    if !ins.instruction_type.is_set_integer() {
        panic!("expected SetInteger, not {:?}", ins.instruction_type);
    }

    assert_eq!(ins.instruction_type.opcode, SET_INTEGER);
    assert_eq!(ins.arguments[0], 6);
    assert_eq!(ins.line, 2);
    assert_eq!(ins.column, 4);
}

#[test]
fn test_read_compiled_code() {
    let mut buffer = Vec::new();

    pack_string("main", &mut buffer); // name
    pack_string("test.aeon", &mut buffer); // file
    pack_u32(4, &mut buffer); // line
    pack_u32(3, &mut buffer); // arguments
    pack_u32(2, &mut buffer); // required args
    pack_u8(1, &mut buffer); // rest argument
    pack_u64(0, &mut buffer); // locals

    pack_u64(1, &mut buffer); // instructions
    pack_u16(0, &mut buffer); // type
    pack_u64(1, &mut buffer); // args
    pack_u32(6, &mut buffer);
    pack_u32(2, &mut buffer); // line
    pack_u32(4, &mut buffer); // column

    pack_u64(1, &mut buffer); // integer literals
    pack_u64(10, &mut buffer);

    pack_u64(1, &mut buffer); // float literals
    pack_f64(1.2, &mut buffer);

    pack_u64(1, &mut buffer); // string literals
    pack_string("foo", &mut buffer);

    pack_u64(0, &mut buffer); // code objects

    let object = read_compiled_code(&mut stream(&buffer)).unwrap();

    assert_eq!(object.name, "main".to_string());
    assert_eq!(object.file, "test.aeon".to_string());
    assert_eq!(object.line, 4);
    assert_eq!(object.arguments, 3);
    assert_eq!(object.required_arguments, 2);
    assert_eq!(object.rest_argument, true);

    assert_eq!(object.locals.len(), 0);

    assert_eq!(object.instructions.len(), 1);

    let ref ins = object.instructions[0];

    if !ins.instruction_type.is_set_integer() {
        panic!("expected SetInteger, not {:?}", ins.instruction_type);
    }

    assert_eq!(ins.arguments[0], 6);
    assert_eq!(ins.line, 2);
    assert_eq!(ins.column, 4);

    assert_eq!(object.integer_literals.len(), 1);
    assert_eq!(object.integer_literals[0], 10);

    assert_eq!(object.float_literals.len(), 1);
    assert!((f64::from_bits(object.float_literals[0].to_bits()) - 1.2).abs() < 0.001);

    assert_eq!(object.string_literals.len(), 1);
    assert_eq!(object.string_literals[0], "foo".to_string());

    assert_eq!(object.code_objects.len(), 0);
}

// The error kinds, each on an input that gives it.

#[test]
fn parse_reports_invalid_signature() {
    let mut buffer = Vec::new();

    buffer.extend_from_slice("cats".as_bytes());
    buffer.push(VERSION);
    pack_minimal_code(&mut buffer);

    assert_eq!(parse(&mut stream(&buffer)).unwrap_err(), ParserError::InvalidSignature);
    assert_eq!(parse(&mut stream(&[97, 101])).unwrap_err(), ParserError::InvalidSignature);
    assert_eq!(parse(&mut stream(&[])).unwrap_err(), ParserError::InvalidSignature);
}

#[test]
fn parse_reports_invalid_version() {
    let mut buffer = Vec::new();

    pack_signature(&mut buffer);

    assert_eq!(parse(&mut stream(&buffer)).unwrap_err(), ParserError::InvalidVersion);

    buffer.push(2);
    pack_minimal_code(&mut buffer);

    assert_eq!(parse(&mut stream(&buffer)).unwrap_err(), ParserError::InvalidVersion);
}

#[test]
fn truncated_input_reports_the_kind_being_read() {
    assert_eq!(read_u8(&mut stream(&[])).unwrap_err(), ParserError::InvalidInteger);
    assert_eq!(read_u16(&mut stream(&[1])).unwrap_err(), ParserError::InvalidInteger);
    assert_eq!(read_i32(&mut stream(&[1, 2, 3])).unwrap_err(), ParserError::InvalidInteger);
    assert_eq!(read_u32(&mut stream(&[1, 2, 3])).unwrap_err(), ParserError::InvalidInteger);
    assert_eq!(read_i64(&mut stream(&[1, 2, 3, 4, 5, 6, 7])).unwrap_err(), ParserError::InvalidInteger);
    assert_eq!(read_u64(&mut stream(&[1, 2, 3, 4, 5, 6, 7])).unwrap_err(), ParserError::InvalidInteger);
    assert_eq!(read_f64(&mut stream(&[1, 2, 3, 4, 5, 6, 7])).unwrap_err(), ParserError::InvalidFloat);
    // The length of a string is an integer; its content is the string.
    assert_eq!(read_string(&mut stream(&[0, 0, 0])).unwrap_err(), ParserError::InvalidInteger);
    assert_eq!(
        read_string(&mut stream(&[0, 0, 0, 0, 0, 0, 0, 3, 97, 98])).unwrap_err(),
        ParserError::InvalidString
    );
    assert_eq!(
        read_string(&mut stream(&[0, 0, 0, 0, 0, 0, 0, 2, 0xc3, 0x28])).unwrap_err(),
        ParserError::InvalidString
    );
}

#[test]
fn integers_are_big_endian() {
    assert_eq!(read_u8(&mut stream(&[0xfe])).unwrap(), 0xfe);
    assert_eq!(read_u16(&mut stream(&[0x12, 0x34])).unwrap(), 0x1234);
    assert_eq!(read_u32(&mut stream(&[0x12, 0x34, 0x56, 0x78])).unwrap(), 0x1234_5678);
    assert_eq!(read_i32(&mut stream(&[0x12, 0x34, 0x56, 0x78])).unwrap(), 0x1234_5678);
    assert_eq!(read_i32(&mut stream(&[0xff, 0xff, 0xff, 0xfe])).unwrap(), -2);
    assert_eq!(read_i32(&mut stream(&[0x80, 0, 0, 0])).unwrap(), i32::MIN);
    assert_eq!(read_i32(&mut stream(&[0x7f, 0xff, 0xff, 0xff])).unwrap(), i32::MAX);
    assert_eq!(read_u32(&mut stream(&[0xff, 0xff, 0xff, 0xff])).unwrap(), u32::MAX);
    assert_eq!(
        read_u64(&mut stream(&[1, 2, 3, 4, 5, 6, 7, 8])).unwrap(),
        0x0102_0304_0506_0708
    );
    assert_eq!(read_i64(&mut stream(&[0xff; 8])).unwrap(), -1);
    assert_eq!(read_i64(&mut stream(&[0x80, 0, 0, 0, 0, 0, 0, 0])).unwrap(), i64::MIN);
    assert_eq!(read_u64(&mut stream(&[0xff; 8])).unwrap(), u64::MAX);
    assert_eq!(
        read_f64(&mut stream(&1.5f64.to_bits().to_be_bytes())).unwrap(),
        Float::from_bits(1.5f64.to_bits())
    );
}

#[test]
fn readers_leave_the_rest_of_the_stream() {
    let mut bytes = stream(&[0, 7, 9, 9]);

    assert_eq!(read_u16(&mut bytes).unwrap(), 7);
    assert_eq!(bytes.remaining(), 2);
    assert_eq!(bytes.next(), Some(9));
    assert_eq!(bytes.next(), Some(9));
    assert_eq!(bytes.next(), None);
}

#[test]
fn strings_hold_what_the_bytes_decode_to() {
    let mut buffer = Vec::new();

    pack_string("h\u{e9}llo \u{4e16}\u{754c}", &mut buffer);

    let output = read_string(&mut stream(&buffer)).unwrap();

    assert_eq!(output, "h\u{e9}llo \u{4e16}\u{754c}".to_string());
    assert_ne!(output.as_bytes(), &buffer[..]);
}

#[test]
fn vector_reports_the_error_of_its_item() {
    let mut buffer = Vec::new();

    pack_u64(2, &mut buffer);
    pack_u32(1, &mut buffer);

    assert_eq!(read_vector::<u32>(&mut stream(&buffer)).unwrap_err(), ParserError::InvalidInteger);

    let mut floats = Vec::new();

    pack_u64(1, &mut floats);

    assert_eq!(read_vector::<Float>(&mut stream(&floats)).unwrap_err(), ParserError::InvalidFloat);

    let mut instructions = Vec::new();

    pack_u64(1, &mut instructions);
    pack_u16(3, &mut instructions);

    assert_eq!(
        read_vector::<Instruction>(&mut stream(&instructions)).unwrap_err(),
        ParserError::InvalidInteger
    );
}

#[test]
fn rest_argument_is_set_by_one_only() {
    for (byte, expected) in [(0u8, false), (1u8, true), (2u8, false), (255u8, false)] {
        let mut buffer = Vec::new();

        pack_string("main", &mut buffer);
        pack_string("test.aeon", &mut buffer);
        pack_u32(4, &mut buffer);
        pack_u32(0, &mut buffer);
        pack_u32(0, &mut buffer);
        pack_u8(byte, &mut buffer);
        for _ in 0..6 {
            pack_u64(0, &mut buffer);
        }

        let object = read_compiled_code(&mut stream(&buffer)).unwrap();

        assert_eq!(object.rest_argument, expected);
    }
}

#[test]
fn nested_code_objects_are_read_in_order() {
    let mut buffer = Vec::new();

    pack_signature(&mut buffer);
    buffer.push(VERSION);

    pack_string("outer", &mut buffer);
    pack_string("outer.aeon", &mut buffer);
    pack_u32(1, &mut buffer);
    pack_u32(0, &mut buffer);
    pack_u32(0, &mut buffer);
    pack_u8(0, &mut buffer);
    for _ in 0..5 {
        pack_u64(0, &mut buffer);
    }
    pack_u64(2, &mut buffer); // code objects
    pack_minimal_code(&mut buffer);
    pack_string("second", &mut buffer);
    pack_string("second.aeon", &mut buffer);
    pack_u32(9, &mut buffer);
    pack_u32(2, &mut buffer);
    pack_u32(1, &mut buffer);
    pack_u8(1, &mut buffer);
    pack_u64(1, &mut buffer); // locals
    pack_string("x", &mut buffer);
    for _ in 0..5 {
        pack_u64(0, &mut buffer);
    }
    buffer.push(42); // not looked at

    let mut bytes = stream(&buffer);
    let object = parse(&mut bytes).unwrap();

    assert_eq!(object.name, "outer");
    assert_eq!(object.code_objects.len(), 2);
    assert_eq!(object.code_objects[0].name, "main");
    assert_eq!(object.code_objects[0].line, 4);
    assert_eq!(object.code_objects[1].name, "second");
    assert_eq!(object.code_objects[1].file, "second.aeon");
    assert_eq!(object.code_objects[1].line, 9);
    assert_eq!(object.code_objects[1].arguments, 2);
    assert_eq!(object.code_objects[1].required_arguments, 1);
    assert_eq!(object.code_objects[1].rest_argument, true);
    assert_eq!(object.code_objects[1].locals, vec!["x".to_string()]);
    assert_eq!(bytes.remaining(), 1);
}

#[test]
fn nested_code_object_error_is_reported() {
    let mut buffer = Vec::new();

    pack_string("outer", &mut buffer);
    pack_string("outer.aeon", &mut buffer);
    pack_u32(1, &mut buffer);
    pack_u32(0, &mut buffer);
    pack_u32(0, &mut buffer);
    pack_u8(0, &mut buffer);
    for _ in 0..5 {
        pack_u64(0, &mut buffer);
    }
    pack_u64(1, &mut buffer); // code objects
    pack_u64(3, &mut buffer); // the length of a name that is not there

    assert_eq!(read_compiled_code(&mut stream(&buffer)).unwrap_err(), ParserError::InvalidString);

    let mut codes = Vec::new();

    pack_u64(1, &mut codes);

    assert_eq!(read_code_vector(&mut stream(&codes)).unwrap_err(), ParserError::InvalidInteger);
}

fn pack_i64(num: i64, buffer: &mut Vec<u8>) {
    buffer.extend_from_slice(&num.to_be_bytes());
}

#[test]
fn written_code_object_is_read_back_on_every_field() {
    let mut buffer = Vec::new();

    pack_signature(&mut buffer);
    buffer.push(VERSION);

    pack_string("outer", &mut buffer);
    pack_string("dir/outer.aeon", &mut buffer);
    pack_u32(u32::MAX, &mut buffer); // line
    pack_u32(7, &mut buffer); // arguments
    pack_u32(5, &mut buffer); // required arguments
    pack_u8(1, &mut buffer); // rest argument

    pack_u64(2, &mut buffer); // locals
    pack_string("a", &mut buffer);
    pack_string("", &mut buffer);

    pack_u64(2, &mut buffer); // instructions
    pack_u16(0, &mut buffer);
    pack_u64(2, &mut buffer);
    pack_u32(1, &mut buffer);
    pack_u32(0xffff_fffe, &mut buffer);
    pack_u32(10, &mut buffer);
    pack_u32(20, &mut buffer);
    pack_u16(0xabcd, &mut buffer);
    pack_u64(0, &mut buffer);
    pack_u32(11, &mut buffer);
    pack_u32(21, &mut buffer);

    pack_u64(3, &mut buffer); // integer literals
    pack_i64(-1, &mut buffer);
    pack_i64(i64::MIN, &mut buffer);
    pack_i64(i64::MAX, &mut buffer);

    pack_u64(2, &mut buffer); // float literals
    pack_f64(-0.5, &mut buffer);
    pack_f64(f64::INFINITY, &mut buffer);

    pack_u64(1, &mut buffer); // string literals
    pack_string("gr\u{fc}\u{df}e", &mut buffer);

    pack_u64(1, &mut buffer); // code objects
    pack_minimal_code(&mut buffer);

    let object = parse(&mut stream(&buffer)).unwrap();

    assert_eq!(object.name, "outer");
    assert_eq!(object.file, "dir/outer.aeon");
    assert_eq!(object.line, u32::MAX);
    assert_eq!(object.arguments, 7);
    assert_eq!(object.required_arguments, 5);
    assert!(object.rest_argument);
    assert_eq!(object.locals, vec!["a".to_string(), "".to_string()]);
    assert_eq!(object.instructions.len(), 2);
    assert_eq!(object.instructions[0].instruction_type.opcode, 0);
    assert_eq!(object.instructions[0].arguments, vec![1, 0xffff_fffe]);
    assert_eq!(object.instructions[0].line, 10);
    assert_eq!(object.instructions[0].column, 20);
    assert_eq!(object.instructions[1].instruction_type.opcode, 0xabcd);
    assert!(object.instructions[1].arguments.is_empty());
    assert_eq!(object.instructions[1].line, 11);
    assert_eq!(object.instructions[1].column, 21);
    assert_eq!(object.integer_literals, vec![-1, i64::MIN, i64::MAX]);
    assert_eq!(
        object.float_literals,
        vec![Float::from_bits((-0.5f64).to_bits()), Float::from_bits(f64::INFINITY.to_bits())]
    );
    assert_eq!(f64::from_bits(object.float_literals[0].to_bits()), -0.5);
    assert_eq!(object.string_literals, vec!["gr\u{fc}\u{df}e".to_string()]);
    assert_eq!(object.code_objects.len(), 1);
    assert_eq!(object.code_objects[0].name, "main");
    assert_eq!(object.code_objects[0].file, "test.aeon");
    assert_eq!(object.code_objects[0].line, 4);
    assert!(!object.code_objects[0].rest_argument);
    assert!(object.code_objects[0].code_objects.is_empty());
}
