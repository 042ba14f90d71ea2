use rutenspitz::decode::decode_sequence;
use rutenspitz::descriptor::{
    ArgDescriptor, ArgKind, CompareMode, MethodDescriptor, PassingMode,
};
use rutenspitz::map_surface::map_surface_table;
use rutenspitz::value::Value;

fn push_u16(bytes: &mut Vec<u8>, v: u16) {
    bytes.push((v % 256) as u8);
    bytes.push((v / 256) as u8);
}

#[test]
fn decoding_is_deterministic() {
    let table = map_surface_table();
    let mut bytes: Vec<u8> = Vec::new();
    bytes.push(0);
    push_u16(&mut bytes, 1988);
    push_u16(&mut bytes, 29987);
    bytes.push(1);
    push_u16(&mut bytes, 1988);
    bytes.push(6);
    let first = decode_sequence(&table, &bytes);
    let second = decode_sequence(&table, &bytes);
    assert_eq!(first, second);
    assert_eq!(first.len(), 3);
}

#[test]
fn decode_reads_little_endian_arguments() {
    let table = map_surface_table();
    let mut bytes: Vec<u8> = Vec::new();
    bytes.push(0);
    push_u16(&mut bytes, 1988);
    push_u16(&mut bytes, 29987);
    let ops = decode_sequence(&table, &bytes);
    assert_eq!(ops.len(), 1);
    assert_eq!(ops[0].method, 0);
    assert_eq!(ops[0].args, vec![Value::U64(1988), Value::U64(29987)]);
}

#[test]
fn decode_empty_buffer_yields_no_operations() {
    let table = map_surface_table();
    let bytes: Vec<u8> = Vec::new();
    let ops = decode_sequence(&table, &bytes);
    assert_eq!(ops.len(), 0);
}

#[test]
fn decode_stops_cleanly_on_truncated_argument() {
    let table = map_surface_table();
    // An insert needs four argument bytes; only one is present.
    let bytes: Vec<u8> = vec![0, 7];
    let ops = decode_sequence(&table, &bytes);
    assert_eq!(ops.len(), 0);
}

#[test]
fn decode_stops_cleanly_on_malformed_discriminant() {
    let table = map_surface_table();
    let mut bytes: Vec<u8> = Vec::new();
    bytes.push(0);
    push_u16(&mut bytes, 7);
    push_u16(&mut bytes, 42);
    bytes.push(99); // no such method: decoding ends here
    bytes.push(1);
    push_u16(&mut bytes, 7);
    let ops = decode_sequence(&table, &bytes);
    assert_eq!(ops.len(), 1);
    assert_eq!(ops[0].method, 0);
}

#[test]
fn decode_covers_every_argument_kind() {
    let mut args: Vec<ArgDescriptor> = Vec::new();
    args.push(ArgDescriptor::new("flag", ArgKind::Bool, PassingMode::ByValue));
    args.push(ArgDescriptor::new("small", ArgKind::U8, PassingMode::ByValue));
    args.push(ArgDescriptor::new("wide", ArgKind::U32, PassingMode::ByValue));
    args.push(ArgDescriptor::new("huge", ArgKind::U64, PassingMode::ByValue));
    args.push(ArgDescriptor::new("blob", ArgKind::Bytes, PassingMode::ByRef));
    let mut table: Vec<MethodDescriptor> = Vec::new();
    table.push(MethodDescriptor::new("record", args, CompareMode::Equal));

    let mut bytes: Vec<u8> = Vec::new();
    bytes.push(0); // discriminant
    bytes.push(3); // Bool: odd means true
    bytes.push(200); // U8
    bytes.extend_from_slice(&[0x01, 0x02, 0x03, 0x04]); // U32 little endian
    bytes.extend_from_slice(&[1, 0, 0, 0, 0, 0, 0, 0x80]); // U64 little endian
    bytes.push(2); // Bytes: length, then contents
    bytes.push(0xAA);
    bytes.push(0xBB);

    let ops = decode_sequence(&table, &bytes);
    assert_eq!(ops.len(), 1);
    assert_eq!(
        ops[0].args,
        vec![
            Value::Bool(true),
            Value::U64(200),
            Value::U64(0x04030201),
            Value::U64(0x8000000000000001),
            Value::Bytes(vec![0xAA, 0xBB]),
        ]
    );
}

#[test]
fn decode_never_leaves_a_partial_operation() {
    let table = map_surface_table();
    let mut bytes: Vec<u8> = Vec::new();
    bytes.push(0);
    push_u16(&mut bytes, 7);
    push_u16(&mut bytes, 42);
    bytes.push(0);
    push_u16(&mut bytes, 8);
    bytes.push(5); // second insert is cut short: it must not appear at all
    let ops = decode_sequence(&table, &bytes);
    assert_eq!(ops.len(), 1);
    assert_eq!(ops[0].args, vec![Value::U64(7), Value::U64(42)]);
}
