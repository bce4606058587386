use otdr_sor::parser::{
    fixed_length_str, fixed_parameters_block, general_parameters_block, key_events_block, map_block,
    null_terminated_chunk, null_terminated_str, parse_file, parse_string, supplier_parameters_block,
    test_load_file_section,
};
use otdr_sor::{ErrorKind, ParseError};

fn le16(x: i16) -> [u8; 2] {
    x.to_le_bytes()
}
fn le32(x: i32) -> [u8; 4] {
    x.to_le_bytes()
}

fn map_with(count: i16, entries: &[(&str, i32)]) -> Vec<u8> {
    let mut v = b"Map\0".to_vec();
    v.extend_from_slice(&200u16.to_le_bytes());
    v.extend_from_slice(&le32(0));
    v.extend_from_slice(&le16(count));
    for (name, size) in entries {
        v.extend_from_slice(name.as_bytes());
        v.push(0);
        v.extend_from_slice(&7u16.to_le_bytes());
        v.extend_from_slice(&le32(*size));
    }
    v
}

fn genparams(fiber_type: i16) -> Vec<u8> {
    let mut v = b"GenParams\0EN".to_vec();
    v.extend_from_slice(b"cable\0fibre\0");
    v.extend_from_slice(&le16(fiber_type));
    v.extend_from_slice(&le16(1310));
    v.extend_from_slice(b"from\0to\0code\0BC");
    v.extend_from_slice(&le32(-1));
    v.extend_from_slice(&le32(70000));
    v.extend_from_slice(b"op\0note\0");
    v
}

#[test]
fn parse_string_reads_utf8_and_empty_input() {
    assert_eq!(parse_string(b"abc"), "abc");
    assert_eq!(parse_string("Grüße".as_bytes()), "Grüße");
    assert_eq!(parse_string(b""), "");
}

#[test]
fn null_terminated_str_stops_at_first_zero() {
    let (rest, s) = null_terminated_str(b"ab\0cd\0").unwrap();
    assert_eq!(s, "ab");
    assert_eq!(rest, b"cd\0");
    let (rest, s) = null_terminated_str(b"\0x").unwrap();
    assert_eq!(s, "");
    assert_eq!(rest, b"x");
}

#[test]
fn null_terminated_chunk_without_zero_fails_take_until() {
    let input: &[u8] = b"abc";
    assert_eq!(
        null_terminated_chunk(input),
        Err(ParseError { input, code: ErrorKind::TakeUntil })
    );
}

#[test]
fn fixed_length_str_takes_exactly_len_bytes() {
    let (rest, s) = fixed_length_str(b"1F9999LS", 6).unwrap();
    assert_eq!(s, "1F9999");
    assert_eq!(rest, b"LS");
    let (rest, s) = fixed_length_str(b"LSx", 2).unwrap();
    assert_eq!(s, "LS");
    assert_eq!(rest, b"x");
}

#[test]
fn fixed_length_str_short_input_fails_eof() {
    let input: &[u8] = b"1F99";
    assert_eq!(fixed_length_str(input, 6), Err(ParseError { input, code: ErrorKind::Eof }));
}

#[test]
fn map_block_wrong_name_fails_tag_at_start() {
    let input: &[u8] = b"Nap\0\x01\x02\x03\x04\x05\x06\x07\x08";
    assert_eq!(map_block(input), Err(ParseError { input, code: ErrorKind::Tag }));
    let short: &[u8] = b"Ma";
    assert_eq!(map_block(short), Err(ParseError { input: short, code: ErrorKind::Tag }));
}

#[test]
fn map_block_truncated_field_fails_eof_where_it_starts() {
    let data = b"Map\0\xc8\x00\x01";
    assert_eq!(map_block(data), Err(ParseError { input: &data[6..], code: ErrorKind::Eof }));
}

#[test]
fn map_block_count_of_one_has_no_entries() {
    let data = map_with(1, &[]);
    let (rest, map) = map_block(&data).unwrap();
    assert!(rest.is_empty());
    assert_eq!(map.block_count, 1);
    assert!(map.block_info.is_empty());
}

#[test]
fn map_block_count_below_one_runs_out_of_input() {
    let data = map_with(0, &[("A", 1), ("B", 2)]);
    let err = map_block(&data).unwrap_err();
    assert_eq!(err.code, ErrorKind::TakeUntil);
    assert!(err.input.is_empty());
}

#[test]
fn map_block_entry_count_is_count_minus_one() {
    let data = map_with(3, &[("A", 1), ("Bb", -2)]);
    let (_, map) = map_block(&data).unwrap();
    assert_eq!(map.block_info.len(), 2);
    assert_eq!(map.block_info[1].identifier, "Bb");
    assert_eq!(map.block_info[1].revision_number, 7);
    assert_eq!(map.block_info[1].size, -2);
}

#[test]
fn signed_fields_read_twos_complement() {
    let data = genparams(-2);
    let (rest, g) = general_parameters_block(&data).unwrap();
    assert!(rest.is_empty());
    assert_eq!(g.fiber_type, -2);
    assert_eq!(g.nominal_wavelength, 1310);
    assert_eq!(g.user_offset, -1);
    assert_eq!(g.user_offset_distance, 70000);
    assert_eq!(g.current_data_flag, "BC");
    assert_eq!(g.comment, "note");
}

#[test]
fn trailing_bytes_do_not_change_a_block() {
    let alone = genparams(652);
    let mut followed = alone.clone();
    followed.extend_from_slice(b"more bytes\0");
    let (rest_alone, a) = general_parameters_block(&alone).unwrap();
    let (rest_followed, b) = general_parameters_block(&followed).unwrap();
    assert_eq!(a, b);
    assert!(rest_alone.is_empty());
    assert_eq!(rest_followed, b"more bytes\0");
}

#[test]
fn parsed_block_leaves_a_tail_of_its_input() {
    let mut data = genparams(1);
    data.extend_from_slice(b"tail");
    let (rest, _) = general_parameters_block(&data).unwrap();
    assert_eq!(rest, &data[data.len() - rest.len()..]);
}

#[test]
fn supplier_block_missing_terminator_fails_take_until() {
    let data = b"SupParams\0name\0id";
    let err = supplier_parameters_block(data).unwrap_err();
    assert_eq!(err, ParseError { input: &data[15..], code: ErrorKind::TakeUntil });
}

#[test]
fn fixed_parameters_negative_pulse_count_runs_out_of_input() {
    let mut data = b"FxdParams\0".to_vec();
    data.extend_from_slice(&7u32.to_le_bytes());
    data.extend_from_slice(b"mt");
    data.extend_from_slice(&le16(1550));
    data.extend_from_slice(&le32(0));
    data.extend_from_slice(&le32(0));
    data.extend_from_slice(&le16(-1));
    data.extend_from_slice(&[1, 0, 2, 0, 3]);
    let err = fixed_parameters_block(&data).unwrap_err();
    assert_eq!(err.code, ErrorKind::Eof);
    assert_eq!(err.input, &[3u8][..]);
}

fn event(number: i16, comment: &str) -> Vec<u8> {
    let mut v = Vec::new();
    v.extend_from_slice(&le16(number));
    v.extend_from_slice(&le32(10));
    v.extend_from_slice(&le16(0));
    v.extend_from_slice(&le16(-3));
    v.extend_from_slice(&le32(-4));
    v.extend_from_slice(b"0F9999LS");
    for _ in 0..5 {
        v.extend_from_slice(&le32(0));
    }
    v.extend_from_slice(comment.as_bytes());
    v.push(0);
    v
}

#[test]
fn key_events_count_of_one_is_only_the_last() {
    let mut data = b"KeyEvents\0".to_vec();
    data.extend_from_slice(&le16(1));
    data.extend_from_slice(&event(1, "end"));
    data.extend_from_slice(&le32(5));
    data.extend_from_slice(&le32(6));
    data.extend_from_slice(&le32(7));
    data.extend_from_slice(&9u16.to_le_bytes());
    data.extend_from_slice(&le32(8));
    data.extend_from_slice(&le32(-9));
    let (rest, k) = key_events_block(&data).unwrap();
    assert!(rest.is_empty());
    assert!(k.key_events.is_empty());
    assert_eq!(k.last_key_event.comment, "end");
    assert_eq!(k.last_key_event.event_loss, -3);
    assert_eq!(k.last_key_event.optical_return_loss, 9);
    assert_eq!(k.last_key_event.optical_return_loss_marker_position_2, -9);
}

#[test]
fn key_events_truncated_last_event_fails_eof() {
    let mut data = b"KeyEvents\0".to_vec();
    data.extend_from_slice(&le16(2));
    data.extend_from_slice(&event(1, "a"));
    data.extend_from_slice(&event(2, "b"));
    data.extend_from_slice(&le32(5));
    let err = key_events_block(&data).unwrap_err();
    assert_eq!(err.code, ErrorKind::Eof);
    // the loss figure was read; the next field finds no bytes left
    assert!(err.input.is_empty());
}

#[test]
fn parse_file_stops_at_the_first_bad_block() {
    let mut data = map_with(1, &[]);
    let at = data.len();
    data.extend_from_slice(b"SupParams\0");
    let err = parse_file(&data).unwrap_err();
    assert_eq!(err, ParseError { input: &data[at..], code: ErrorKind::Tag });
}

#[test]
fn load_section_finds_named_block_by_map_sizes() {
    let mut data = map_with(3, &[("A", 3), ("B", 2)]);
    let start = data.len() as i32;
    data[6..10].copy_from_slice(&le32(start));
    data.extend_from_slice(b"aaabb");
    assert_eq!(test_load_file_section(&data, "B\0"), b"bb");
    assert_eq!(test_load_file_section(&data, "A\0"), b"aaa");
}

#[test]
fn load_section_without_name_is_after_all_blocks() {
    let mut data = map_with(3, &[("A", 1), ("B", 2)]);
    let start = data.len() as i32;
    data[6..10].copy_from_slice(&le32(start));
    data.extend_from_slice(b"abbXY");
    assert_eq!(test_load_file_section(&data, "Z\0"), b"XY");
}
