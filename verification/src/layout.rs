//! The layout written out as bytes: an encoding of each value, and laws that each
//! parser reads the encoding of any well-formed value back as that very value.

use vstd::prelude::*;
use vstd::utf8::{encode_utf8, valid_utf8, decode_utf8, encode_utf8_decode_utf8, encode_utf8_valid_utf8};
use vstd::string::StringSliceAdditionalSpecFns;
use crate::types::{
    ErrorKind,
    SpecBlockInfo, SpecMapBlock, SpecGeneralParametersBlock, SpecSupplierParametersBlock,
    SpecFixedParametersBlock, SpecKeyEvent, SpecLastKeyEvent, SpecKeyEvents, SpecSORFile,
};
use crate::spec::{
    spec_general_parameters_block, spec_supplier_parameters_block, BLOCK_ID_GENPARAMS,
    BLOCK_ID_SUPPARAMS, BLOCK_ID_KEYEVENTS, sp_key_event, sp_last_key_event, key_event_parser,
    spec_key_events_block, entries_before_last, entries, BLOCK_ID_MAP, BLOCK_ID_FXDPARAMS,
    sp_block_info, block_info_parser, i16_parser, i32_parser, spec_map_block,
    spec_fixed_parameters_block, spec_parse_file, locate_block, locate_block_fits, section_in_file,
    section_of, lemma_no_nul, sp_nul_terminated_chunk,
    Step, sp_tag, sp_u16, sp_i16, sp_u32, sp_i32, sp_nul_terminated_str, sp_fixed_length_str,
    sp_count, nul_free,
};
use crate::laws::law_null_terminated_chunk_reads;

verus! {

/// Joining bytes is associative.
pub broadcast proof fn lemma_join_assoc(a: Seq<u8>, b: Seq<u8>, c: Seq<u8>)
    ensures
        #[trigger] ((a + b) + c) == a + (b + c),
{
    assert((a + b) + c =~= a + (b + c));
}

/// A `u16` in two little-endian bytes.
pub open spec fn le_u16_bytes(v: u16) -> Seq<u8> {
    seq![(v % 0x100) as u8, (v / 0x100) as u8]
}

/// An `i16` in two little-endian bytes of two's complement.
pub open spec fn le_i16_bytes(v: i16) -> Seq<u8> {
    le_u16_bytes((if v < 0 { v + 0x1_0000 } else { v as int }) as u16)
}

/// A `u32` in four little-endian bytes.
pub open spec fn le_u32_bytes(v: u32) -> Seq<u8> {
    seq![(v % 0x100) as u8, (v / 0x100 % 0x100) as u8, (v / 0x1_0000 % 0x100) as u8, (v / 0x100_0000) as u8]
}

/// An `i32` in four little-endian bytes of two's complement.
pub open spec fn le_i32_bytes(v: i32) -> Seq<u8> {
    le_u32_bytes((if v < 0 { v + 0x1_0000_0000 } else { v as int }) as u32)
}

/// A string as its UTF-8 bytes followed by a zero byte.
pub open spec fn nul_terminated(c: Seq<char>) -> Seq<u8> {
    encode_utf8(c) + seq![0u8]
}

/// A string that can be stored zero-terminated: its UTF-8 bytes hold no zero byte.
pub open spec fn terminable(c: Seq<char>) -> bool {
    nul_free(encode_utf8(c))
}

/// A string that fills a field of `n` bytes exactly.
pub open spec fn fills(c: Seq<char>, n: nat) -> bool {
    encode_utf8(c).len() == n
}

pub proof fn law_tag_reads(pat: Seq<u8>, rest: Seq<u8>)
    ensures
        sp_tag(pat + rest, pat) == Step::Parsed(rest, ()),
{
    assert((pat + rest).take(pat.len() as int) =~= pat);
    assert((pat + rest).skip(pat.len() as int) =~= rest);
}

pub proof fn law_u16_reads(v: u16, rest: Seq<u8>)
    ensures
        sp_u16(le_u16_bytes(v) + rest) == Step::Parsed(rest, v),
{
    assert((le_u16_bytes(v) + rest).skip(2) =~= rest);
}

pub proof fn law_i16_reads(v: i16, rest: Seq<u8>)
    ensures
        sp_i16(le_i16_bytes(v) + rest) == Step::Parsed(rest, v),
{
    assert((le_i16_bytes(v) + rest).skip(2) =~= rest);
}

pub proof fn law_u32_reads(v: u32, rest: Seq<u8>)
    ensures
        sp_u32(le_u32_bytes(v) + rest) == Step::Parsed(rest, v),
{
    assert((le_u32_bytes(v) + rest).skip(4) =~= rest);
}

pub proof fn law_i32_reads(v: i32, rest: Seq<u8>)
    ensures
        sp_i32(le_i32_bytes(v) + rest) == Step::Parsed(rest, v),
{
    let u = (if v < 0 { v + 0x1_0000_0000 } else { v as int }) as u32;
    let s = le_i32_bytes(v) + rest;
    law_u32_reads(u, rest);
    assert(0 <= crate::outside::le4(s) < 0x1_0000_0000);
    assert(crate::outside::le4(s) == u as int);
    assert(s.skip(4) =~= rest);
}

pub proof fn law_nul_terminated_str_reads(c: Seq<char>, rest: Seq<u8>)
    requires
        terminable(c),
    ensures
        sp_nul_terminated_str(nul_terminated(c) + rest) == Step::Parsed(rest, c),
{
    reveal(sp_nul_terminated_str);
    law_null_terminated_chunk_reads(encode_utf8(c), rest);
    encode_utf8_valid_utf8(c);
    encode_utf8_decode_utf8(c);
}

pub proof fn law_fixed_length_str_reads(c: Seq<char>, n: nat, rest: Seq<u8>)
    requires
        fills(c, n),
    ensures
        sp_fixed_length_str(encode_utf8(c) + rest, n) == Step::Parsed(rest, c),
{
    reveal(sp_fixed_length_str);
    let s = encode_utf8(c) + rest;
    assert(s.take(n as int) =~= encode_utf8(c));
    assert(s.skip(n as int) =~= rest);
    encode_utf8_valid_utf8(c);
    encode_utf8_decode_utf8(c);
}


/// The bytes of a general parameters block.
pub open spec fn general_parameters_bytes(g: SpecGeneralParametersBlock) -> Seq<u8> {
    BLOCK_ID_GENPARAMS.spec_bytes()
        + encode_utf8(g.language_code)
        + nul_terminated(g.cable_id)
        + nul_terminated(g.fiber_id)
        + le_i16_bytes(g.fiber_type)
        + le_i16_bytes(g.nominal_wavelength)
        + nul_terminated(g.originating_location)
        + nul_terminated(g.terminating_location)
        + nul_terminated(g.cable_code)
        + encode_utf8(g.current_data_flag)
        + le_i32_bytes(g.user_offset)
        + le_i32_bytes(g.user_offset_distance)
        + nul_terminated(g.operator)
        + nul_terminated(g.comment)
}

/// A general parameters block that its bytes can hold: two-byte codes, and strings
/// without zero bytes.
pub open spec fn general_parameters_storable(g: SpecGeneralParametersBlock) -> bool {
    &&& fills(g.language_code, 2)
    &&& terminable(g.cable_id)
    &&& terminable(g.fiber_id)
    &&& terminable(g.originating_location)
    &&& terminable(g.terminating_location)
    &&& terminable(g.cable_code)
    &&& fills(g.current_data_flag, 2)
    &&& terminable(g.operator)
    &&& terminable(g.comment)
}

/// Each field of a general parameters block is read from its own place: the bytes of
/// any storable block, followed by anything, parse back to that block.
pub proof fn law_general_parameters_block_layout(g: SpecGeneralParametersBlock, rest: Seq<u8>)
    requires
        general_parameters_storable(g),
    ensures
        spec_general_parameters_block(general_parameters_bytes(g) + rest) == Step::Parsed(rest, g),
{
    reveal(spec_general_parameters_block);
    let r13 = nul_terminated(g.comment) + rest;
    law_nul_terminated_str_reads(g.comment, rest);
    let r12 = nul_terminated(g.operator) + r13;
    law_nul_terminated_str_reads(g.operator, r13);
    let r11 = le_i32_bytes(g.user_offset_distance) + r12;
    law_i32_reads(g.user_offset_distance, r12);
    let r10 = le_i32_bytes(g.user_offset) + r11;
    law_i32_reads(g.user_offset, r11);
    let r9 = encode_utf8(g.current_data_flag) + r10;
    law_fixed_length_str_reads(g.current_data_flag, 2, r10);
    let r8 = nul_terminated(g.cable_code) + r9;
    law_nul_terminated_str_reads(g.cable_code, r9);
    let r7 = nul_terminated(g.terminating_location) + r8;
    law_nul_terminated_str_reads(g.terminating_location, r8);
    let r6 = nul_terminated(g.originating_location) + r7;
    law_nul_terminated_str_reads(g.originating_location, r7);
    let r5 = le_i16_bytes(g.nominal_wavelength) + r6;
    law_i16_reads(g.nominal_wavelength, r6);
    let r4 = le_i16_bytes(g.fiber_type) + r5;
    law_i16_reads(g.fiber_type, r5);
    let r3 = nul_terminated(g.fiber_id) + r4;
    law_nul_terminated_str_reads(g.fiber_id, r4);
    let r2 = nul_terminated(g.cable_id) + r3;
    law_nul_terminated_str_reads(g.cable_id, r3);
    let r1 = encode_utf8(g.language_code) + r2;
    law_fixed_length_str_reads(g.language_code, 2, r2);
    law_tag_reads(BLOCK_ID_GENPARAMS.spec_bytes(), r1);
    lemma_general_parameters_bytes(g, rest);
}

/// The bytes of a supplier parameters block.
pub open spec fn supplier_parameters_bytes(p: SpecSupplierParametersBlock) -> Seq<u8> {
    BLOCK_ID_SUPPARAMS.spec_bytes()
        + nul_terminated(p.supplier_name)
        + nul_terminated(p.otdr_mainframe_id)
        + nul_terminated(p.otdr_mainframe_sn)
        + nul_terminated(p.optical_module_id)
        + nul_terminated(p.optical_module_sn)
        + nul_terminated(p.software_revision)
        + nul_terminated(p.other)
}

/// A supplier parameters block that its bytes can hold: strings without zero bytes.
pub open spec fn supplier_parameters_storable(p: SpecSupplierParametersBlock) -> bool {
    &&& terminable(p.supplier_name)
    &&& terminable(p.otdr_mainframe_id)
    &&& terminable(p.otdr_mainframe_sn)
    &&& terminable(p.optical_module_id)
    &&& terminable(p.optical_module_sn)
    &&& terminable(p.software_revision)
    &&& terminable(p.other)
}

/// The seven strings of a supplier parameters block are read in order, each as stored,
/// the empty string included: the bytes of any storable block, followed by anything,
/// parse back to that block.
pub proof fn law_supplier_parameters_block_layout(p: SpecSupplierParametersBlock, rest: Seq<u8>)
    requires
        supplier_parameters_storable(p),
    ensures
        spec_supplier_parameters_block(supplier_parameters_bytes(p) + rest) == Step::Parsed(rest, p),
{
    reveal(spec_supplier_parameters_block);
    let r7 = nul_terminated(p.other) + rest;
    law_nul_terminated_str_reads(p.other, rest);
    let r6 = nul_terminated(p.software_revision) + r7;
    law_nul_terminated_str_reads(p.software_revision, r7);
    let r5 = nul_terminated(p.optical_module_sn) + r6;
    law_nul_terminated_str_reads(p.optical_module_sn, r6);
    let r4 = nul_terminated(p.optical_module_id) + r5;
    law_nul_terminated_str_reads(p.optical_module_id, r5);
    let r3 = nul_terminated(p.otdr_mainframe_sn) + r4;
    law_nul_terminated_str_reads(p.otdr_mainframe_sn, r4);
    let r2 = nul_terminated(p.otdr_mainframe_id) + r3;
    law_nul_terminated_str_reads(p.otdr_mainframe_id, r3);
    let r1 = nul_terminated(p.supplier_name) + r2;
    law_nul_terminated_str_reads(p.supplier_name, r2);
    law_tag_reads(BLOCK_ID_SUPPARAMS.spec_bytes(), r1);
    lemma_supplier_parameters_bytes(p, rest);
}

/// The bytes after the name of a general parameters block, followed by `rest`, grouped
/// from the back.
spec fn general_parameters_fields(g: SpecGeneralParametersBlock, rest: Seq<u8>) -> Seq<u8> {
    let r13 = nul_terminated(g.comment) + rest;
    let r12 = nul_terminated(g.operator) + r13;
    let r11 = le_i32_bytes(g.user_offset_distance) + r12;
    let r10 = le_i32_bytes(g.user_offset) + r11;
    let r9 = encode_utf8(g.current_data_flag) + r10;
    let r8 = nul_terminated(g.cable_code) + r9;
    let r7 = nul_terminated(g.terminating_location) + r8;
    let r6 = nul_terminated(g.originating_location) + r7;
    let r5 = le_i16_bytes(g.nominal_wavelength) + r6;
    let r4 = le_i16_bytes(g.fiber_type) + r5;
    let r3 = nul_terminated(g.fiber_id) + r4;
    let r2 = nul_terminated(g.cable_id) + r3;
    encode_utf8(g.language_code) + r2
}

proof fn lemma_general_parameters_bytes(g: SpecGeneralParametersBlock, rest: Seq<u8>)
    ensures
        general_parameters_bytes(g) + rest == BLOCK_ID_GENPARAMS.spec_bytes() + general_parameters_fields(g, rest),
{
    broadcast use lemma_join_assoc;
}

/// The bytes after the name of a supplier parameters block, followed by `rest`, grouped
/// from the back.
spec fn supplier_parameters_fields(p: SpecSupplierParametersBlock, rest: Seq<u8>) -> Seq<u8> {
    let r7 = nul_terminated(p.other) + rest;
    let r6 = nul_terminated(p.software_revision) + r7;
    let r5 = nul_terminated(p.optical_module_sn) + r6;
    let r4 = nul_terminated(p.optical_module_id) + r5;
    let r3 = nul_terminated(p.otdr_mainframe_sn) + r4;
    let r2 = nul_terminated(p.otdr_mainframe_id) + r3;
    nul_terminated(p.supplier_name) + r2
}

proof fn lemma_supplier_parameters_bytes(p: SpecSupplierParametersBlock, rest: Seq<u8>)
    ensures
        supplier_parameters_bytes(p) + rest == BLOCK_ID_SUPPARAMS.spec_bytes() + supplier_parameters_fields(p, rest),
{
    broadcast use lemma_join_assoc;
}

/// Values one after the other, each in the bytes that `e` gives it.
pub open spec fn all_bytes<T>(e: spec_fn(T) -> Seq<u8>, vs: Seq<T>) -> Seq<u8>
    decreases vs.len(),
{
    if vs.len() == 0 {
        Seq::empty()
    } else {
        all_bytes(e, vs.drop_last()) + e(vs.last())
    }
}

/// A parser that reads back every value that `ok` admits from its bytes `e` reads back
/// a run of such values from their bytes one after the other.
pub proof fn law_count_reads_back<T>(
    p: spec_fn(Seq<u8>) -> Step<T>,
    e: spec_fn(T) -> Seq<u8>,
    ok: spec_fn(T) -> bool,
    vs: Seq<T>,
    rest: Seq<u8>,
)
    requires
        forall|v: T, r: Seq<u8>| ok(v) ==> #[trigger] p(e(v) + r) == Step::Parsed(r, v),
        forall|i: int| 0 <= i < vs.len() ==> ok(#[trigger] vs[i]),
    ensures
        sp_count(p, all_bytes(e, vs) + rest, vs.len()) == Step::Parsed(rest, vs),
    decreases vs.len(),
{
    if vs.len() == 0 {
        assert(all_bytes(e, vs) + rest =~= rest);
        assert(vs =~= Seq::<T>::empty());
    } else {
        let init = vs.drop_last();
        let last = vs.last();
        assert(all_bytes(e, vs) + rest =~= all_bytes(e, init) + (e(last) + rest));
        assert forall|i: int| 0 <= i < init.len() implies ok(#[trigger] init[i]) by {
            assert(init[i] == vs[i]);
        }
        law_count_reads_back(p, e, ok, init, e(last) + rest);
        assert(ok(vs[vs.len() - 1]));
        assert(init.push(last) =~= vs);
    }
}

/// The bytes of a key event.
pub open spec fn key_event_bytes(k: SpecKeyEvent) -> Seq<u8> {
    le_i16_bytes(k.event_number)
        + le_i32_bytes(k.event_propogation_time)
        + le_i16_bytes(k.attenuation_coefficient_lead_in_fiber)
        + le_i16_bytes(k.event_loss)
        + le_i32_bytes(k.event_reflectance)
        + encode_utf8(k.event_code)
        + encode_utf8(k.loss_measurement_technique)
        + le_i32_bytes(k.marker_location_1)
        + le_i32_bytes(k.marker_location_2)
        + le_i32_bytes(k.marker_location_3)
        + le_i32_bytes(k.marker_location_4)
        + le_i32_bytes(k.marker_location_5)
        + nul_terminated(k.comment)
}

/// A key event that its bytes can hold: a six-byte code, a two-byte technique and a
/// comment without zero bytes.
pub open spec fn key_event_storable(k: SpecKeyEvent) -> bool {
    &&& fills(k.event_code, 6)
    &&& fills(k.loss_measurement_technique, 2)
    &&& terminable(k.comment)
}

spec fn key_event_fields(k: SpecKeyEvent, rest: Seq<u8>) -> Seq<u8> {
    let r12 = nul_terminated(k.comment) + rest;
    let r11 = le_i32_bytes(k.marker_location_5) + r12;
    let r10 = le_i32_bytes(k.marker_location_4) + r11;
    let r9 = le_i32_bytes(k.marker_location_3) + r10;
    let r8 = le_i32_bytes(k.marker_location_2) + r9;
    let r7 = le_i32_bytes(k.marker_location_1) + r8;
    let r6 = encode_utf8(k.loss_measurement_technique) + r7;
    let r5 = encode_utf8(k.event_code) + r6;
    let r4 = le_i32_bytes(k.event_reflectance) + r5;
    let r3 = le_i16_bytes(k.event_loss) + r4;
    let r2 = le_i16_bytes(k.attenuation_coefficient_lead_in_fiber) + r3;
    let r1 = le_i32_bytes(k.event_propogation_time) + r2;
    le_i16_bytes(k.event_number) + r1
}

proof fn lemma_key_event_bytes(k: SpecKeyEvent, rest: Seq<u8>)
    ensures
        key_event_bytes(k) + rest == key_event_fields(k, rest),
{
    broadcast use lemma_join_assoc;
}

/// Each field of a key event is read from its own place, the five marker locations in
/// order: the bytes of any storable key event, followed by anything, parse back to it.
pub proof fn law_key_event_layout(k: SpecKeyEvent, rest: Seq<u8>)
    requires
        key_event_storable(k),
    ensures
        sp_key_event(key_event_bytes(k) + rest) == Step::Parsed(rest, k),
{
    reveal(sp_key_event);
    let r12 = nul_terminated(k.comment) + rest;
    law_nul_terminated_str_reads(k.comment, rest);
    let r11 = le_i32_bytes(k.marker_location_5) + r12;
    law_i32_reads(k.marker_location_5, r12);
    let r10 = le_i32_bytes(k.marker_location_4) + r11;
    law_i32_reads(k.marker_location_4, r11);
    let r9 = le_i32_bytes(k.marker_location_3) + r10;
    law_i32_reads(k.marker_location_3, r10);
    let r8 = le_i32_bytes(k.marker_location_2) + r9;
    law_i32_reads(k.marker_location_2, r9);
    let r7 = le_i32_bytes(k.marker_location_1) + r8;
    law_i32_reads(k.marker_location_1, r8);
    let r6 = encode_utf8(k.loss_measurement_technique) + r7;
    law_fixed_length_str_reads(k.loss_measurement_technique, 2, r7);
    let r5 = encode_utf8(k.event_code) + r6;
    law_fixed_length_str_reads(k.event_code, 6, r6);
    let r4 = le_i32_bytes(k.event_reflectance) + r5;
    law_i32_reads(k.event_reflectance, r5);
    let r3 = le_i16_bytes(k.event_loss) + r4;
    law_i16_reads(k.event_loss, r4);
    let r2 = le_i16_bytes(k.attenuation_coefficient_lead_in_fiber) + r3;
    law_i16_reads(k.attenuation_coefficient_lead_in_fiber, r3);
    let r1 = le_i32_bytes(k.event_propogation_time) + r2;
    law_i32_reads(k.event_propogation_time, r2);
    law_i16_reads(k.event_number, r1);
    lemma_key_event_bytes(k, rest);
}

/// The bytes of the last key event.
pub open spec fn last_key_event_bytes(l: SpecLastKeyEvent) -> Seq<u8> {
    key_event_bytes(l.event)
        + le_i32_bytes(l.end_to_end_loss)
        + le_i32_bytes(l.end_to_end_marker_position_1)
        + le_i32_bytes(l.end_to_end_marker_position_2)
        + le_u16_bytes(l.optical_return_loss)
        + le_i32_bytes(l.optical_return_loss_marker_position_1)
        + le_i32_bytes(l.optical_return_loss_marker_position_2)
}

spec fn last_key_event_fields(l: SpecLastKeyEvent, rest: Seq<u8>) -> Seq<u8> {
    let r6 = le_i32_bytes(l.optical_return_loss_marker_position_2) + rest;
    let r5 = le_i32_bytes(l.optical_return_loss_marker_position_1) + r6;
    let r4 = le_u16_bytes(l.optical_return_loss) + r5;
    let r3 = le_i32_bytes(l.end_to_end_marker_position_2) + r4;
    let r2 = le_i32_bytes(l.end_to_end_marker_position_1) + r3;
    let r1 = le_i32_bytes(l.end_to_end_loss) + r2;
    key_event_bytes(l.event) + r1
}

proof fn lemma_last_key_event_bytes(l: SpecLastKeyEvent, rest: Seq<u8>)
    ensures
        last_key_event_bytes(l) + rest == last_key_event_fields(l, rest),
{
    broadcast use lemma_join_assoc;
}

/// The fields of the last key event are read from their own places: the bytes of any
/// last key event whose event is storable, followed by anything, parse back to it.
pub proof fn law_last_key_event_layout(l: SpecLastKeyEvent, rest: Seq<u8>)
    requires
        key_event_storable(l.event),
    ensures
        sp_last_key_event(last_key_event_bytes(l) + rest) == Step::Parsed(rest, l),
{
    reveal(sp_last_key_event);
    let r6 = le_i32_bytes(l.optical_return_loss_marker_position_2) + rest;
    law_i32_reads(l.optical_return_loss_marker_position_2, rest);
    let r5 = le_i32_bytes(l.optical_return_loss_marker_position_1) + r6;
    law_i32_reads(l.optical_return_loss_marker_position_1, r6);
    let r4 = le_u16_bytes(l.optical_return_loss) + r5;
    law_u16_reads(l.optical_return_loss, r5);
    let r3 = le_i32_bytes(l.end_to_end_marker_position_2) + r4;
    law_i32_reads(l.end_to_end_marker_position_2, r4);
    let r2 = le_i32_bytes(l.end_to_end_marker_position_1) + r3;
    law_i32_reads(l.end_to_end_marker_position_1, r3);
    let r1 = le_i32_bytes(l.end_to_end_loss) + r2;
    law_i32_reads(l.end_to_end_loss, r2);
    law_key_event_layout(l.event, r1);
    lemma_last_key_event_bytes(l, rest);
}

/// `key_event_bytes` as a value.
pub open spec fn key_event_encoder() -> spec_fn(SpecKeyEvent) -> Seq<u8> {
    |k: SpecKeyEvent| key_event_bytes(k)
}

/// The bytes of a key events block.
pub open spec fn key_events_block_bytes(k: SpecKeyEvents) -> Seq<u8> {
    BLOCK_ID_KEYEVENTS.spec_bytes()
        + le_i16_bytes(k.number_of_key_events)
        + all_bytes(key_event_encoder(), k.key_events)
        + last_key_event_bytes(k.last_key_event)
}

/// A key events block that its bytes can hold: a count of one more than the events
/// before the last, and storable events.
pub open spec fn key_events_block_storable(k: SpecKeyEvents) -> bool {
    &&& k.number_of_key_events >= 1
    &&& k.key_events.len() == k.number_of_key_events - 1
    &&& forall|i: int| 0 <= i < k.key_events.len() ==> key_event_storable(#[trigger] k.key_events[i])
    &&& key_event_storable(k.last_key_event.event)
}

/// A key events block reads its count, then that many events less one, then the last
/// event, each from its own place: the bytes of any storable block, followed by
/// anything, parse back to that block.
pub proof fn law_key_events_block_layout(k: SpecKeyEvents, rest: Seq<u8>)
    requires
        key_events_block_storable(k),
    ensures
        spec_key_events_block(key_events_block_bytes(k) + rest) == Step::Parsed(rest, k),
{
    reveal(spec_key_events_block);
    let r3 = last_key_event_bytes(k.last_key_event) + rest;
    law_last_key_event_layout(k.last_key_event, rest);
    let r2 = all_bytes(key_event_encoder(), k.key_events) + r3;
    lemma_key_events_read_back(k.key_events, r3);
    assert(entries_before_last(k.number_of_key_events) == k.key_events.len());
    let r1 = le_i16_bytes(k.number_of_key_events) + r2;
    law_i16_reads(k.number_of_key_events, r2);
    law_tag_reads(BLOCK_ID_KEYEVENTS.spec_bytes(), r1);
    lemma_key_events_block_bytes(k, rest);
}

spec fn key_events_block_fields(k: SpecKeyEvents, rest: Seq<u8>) -> Seq<u8> {
    let r3 = last_key_event_bytes(k.last_key_event) + rest;
    let r2 = all_bytes(key_event_encoder(), k.key_events) + r3;
    le_i16_bytes(k.number_of_key_events) + r2
}

proof fn lemma_key_events_block_bytes(k: SpecKeyEvents, rest: Seq<u8>)
    ensures
        key_events_block_bytes(k) + rest == BLOCK_ID_KEYEVENTS.spec_bytes() + key_events_block_fields(k, rest),
{
    broadcast use lemma_join_assoc;
}

/// Every storable key event is read back from its bytes, whatever follows them.
proof fn lemma_key_events_read_back(vs: Seq<SpecKeyEvent>, rest: Seq<u8>)
    requires
        forall|i: int| 0 <= i < vs.len() ==> key_event_storable(#[trigger] vs[i]),
    ensures
        sp_count(key_event_parser(), all_bytes(key_event_encoder(), vs) + rest, vs.len()) == Step::Parsed(rest, vs),
{
    let ok = |v: SpecKeyEvent| key_event_storable(v);
    assert forall|v: SpecKeyEvent, r: Seq<u8>| ok(v) implies
        #[trigger] key_event_parser()(key_event_encoder()(v) + r) == Step::Parsed(r, v) by {
        law_key_event_layout(v, r);
    }
    assert forall|i: int| 0 <= i < vs.len() implies ok(#[trigger] vs[i]) by {}
    law_count_reads_back(key_event_parser(), key_event_encoder(), ok, vs, rest);
}

/// The bytes of one map entry.
pub open spec fn block_info_bytes(e: SpecBlockInfo) -> Seq<u8> {
    nul_terminated(e.identifier) + le_u16_bytes(e.revision_number) + le_i32_bytes(e.size)
}

/// A map entry reads its name, revision and size from their own places.
pub proof fn law_block_info_layout(e: SpecBlockInfo, rest: Seq<u8>)
    requires
        terminable(e.identifier),
    ensures
        sp_block_info(block_info_bytes(e) + rest) == Step::Parsed(rest, e),
{
    reveal(sp_block_info);
    broadcast use lemma_join_assoc;
    let r2 = le_i32_bytes(e.size) + rest;
    law_i32_reads(e.size, rest);
    let r1 = le_u16_bytes(e.revision_number) + r2;
    law_u16_reads(e.revision_number, r2);
    law_nul_terminated_str_reads(e.identifier, r1);
}

/// `block_info_bytes` as a value.
pub open spec fn block_info_encoder() -> spec_fn(SpecBlockInfo) -> Seq<u8> {
    |e: SpecBlockInfo| block_info_bytes(e)
}

/// The bytes of a map block.
pub open spec fn map_block_bytes(m: SpecMapBlock) -> Seq<u8> {
    BLOCK_ID_MAP.spec_bytes()
        + le_u16_bytes(m.revision_number)
        + le_i32_bytes(m.block_size)
        + le_i16_bytes(m.block_count)
        + all_bytes(block_info_encoder(), m.block_info)
}

/// A map block that its bytes can hold: a count of one more than its entries, and
/// entry names without zero bytes.
pub open spec fn map_block_storable(m: SpecMapBlock) -> bool {
    &&& m.block_count >= 1
    &&& m.block_info.len() == m.block_count - 1
    &&& forall|i: int| 0 <= i < m.block_info.len() ==> terminable(#[trigger] m.block_info[i].identifier)
}

proof fn lemma_block_infos_read_back(vs: Seq<SpecBlockInfo>, rest: Seq<u8>)
    requires
        forall|i: int| 0 <= i < vs.len() ==> terminable(#[trigger] vs[i].identifier),
    ensures
        sp_count(block_info_parser(), all_bytes(block_info_encoder(), vs) + rest, vs.len()) == Step::Parsed(rest, vs),
{
    let ok = |v: SpecBlockInfo| terminable(v.identifier);
    assert forall|v: SpecBlockInfo, r: Seq<u8>| ok(v) implies
        #[trigger] block_info_parser()(block_info_encoder()(v) + r) == Step::Parsed(r, v) by {
        law_block_info_layout(v, r);
    }
    assert forall|i: int| 0 <= i < vs.len() implies ok(#[trigger] vs[i]) by {}
    law_count_reads_back(block_info_parser(), block_info_encoder(), ok, vs, rest);
}

/// A map block reads its own revision, size and count, then one entry for each block
/// that the count announces besides itself, each from its own place: the bytes of any
/// storable map block, followed by anything, parse back to that map block.
pub proof fn law_map_block_layout(m: SpecMapBlock, rest: Seq<u8>)
    requires
        map_block_storable(m),
    ensures
        spec_map_block(map_block_bytes(m) + rest) == Step::Parsed(rest, m),
{
    reveal(spec_map_block);
    broadcast use lemma_join_assoc;
    let r4 = all_bytes(block_info_encoder(), m.block_info) + rest;
    lemma_block_infos_read_back(m.block_info, rest);
    assert(entries_before_last(m.block_count) == m.block_info.len());
    let r3 = le_i16_bytes(m.block_count) + r4;
    law_i16_reads(m.block_count, r4);
    let r2 = le_i32_bytes(m.block_size) + r3;
    law_i32_reads(m.block_size, r3);
    let r1 = le_u16_bytes(m.revision_number) + r2;
    law_u16_reads(m.revision_number, r2);
    law_tag_reads(BLOCK_ID_MAP.spec_bytes(), r1);
}

/// `le_i16_bytes` as a value.
pub open spec fn i16_encoder() -> spec_fn(i16) -> Seq<u8> {
    |v: i16| le_i16_bytes(v)
}

/// `le_i32_bytes` as a value.
pub open spec fn i32_encoder() -> spec_fn(i32) -> Seq<u8> {
    |v: i32| le_i32_bytes(v)
}

proof fn lemma_i16s_read_back(vs: Seq<i16>, rest: Seq<u8>)
    ensures
        sp_count(i16_parser(), all_bytes(i16_encoder(), vs) + rest, vs.len()) == Step::Parsed(rest, vs),
{
    let ok = |v: i16| true;
    assert forall|v: i16, r: Seq<u8>| ok(v) implies #[trigger] i16_parser()(i16_encoder()(v) + r) == Step::Parsed(r, v) by {
        law_i16_reads(v, r);
    }
    law_count_reads_back(i16_parser(), i16_encoder(), ok, vs, rest);
}

proof fn lemma_i32s_read_back(vs: Seq<i32>, rest: Seq<u8>)
    ensures
        sp_count(i32_parser(), all_bytes(i32_encoder(), vs) + rest, vs.len()) == Step::Parsed(rest, vs),
{
    let ok = |v: i32| true;
    assert forall|v: i32, r: Seq<u8>| ok(v) implies #[trigger] i32_parser()(i32_encoder()(v) + r) == Step::Parsed(r, v) by {
        law_i32_reads(v, r);
    }
    law_count_reads_back(i32_parser(), i32_encoder(), ok, vs, rest);
}

/// The bytes of a fixed parameters block: its name, then each field in order, the
/// pulse widths and data point counts as runs of values.
pub open spec fn fixed_parameters_bytes(f: SpecFixedParametersBlock) -> Seq<u8> {
    BLOCK_ID_FXDPARAMS.spec_bytes()
        + le_u32_bytes(f.date_time_stamp)
        + encode_utf8(f.units_of_distance)
        + le_i16_bytes(f.actual_wavelength)
        + le_i32_bytes(f.acquisition_offset)
        + le_i32_bytes(f.acquisition_offset_distance)
        + le_i16_bytes(f.total_n_pulse_widths_used)
        + all_bytes(i16_encoder(), f.pulse_widths_used)
        + le_i32_bytes(f.data_spacing)
        + all_bytes(i32_encoder(), f.n_data_points_for_pulse_widths_used)
        + le_i32_bytes(f.group_index)
        + le_i16_bytes(f.backscatter_coefficient)
        + le_i32_bytes(f.number_of_averages)
        + le_u16_bytes(f.averaging_time)
        + le_i32_bytes(f.acquisition_range)
        + le_i32_bytes(f.acquisition_range_distance)
        + le_i32_bytes(f.front_panel_offset)
        + le_u16_bytes(f.noise_floor_level)
        + le_i16_bytes(f.noise_floor_scale_factor)
        + le_u16_bytes(f.power_offset_first_point)
        + le_u16_bytes(f.loss_threshold)
        + le_u16_bytes(f.reflectance_threshold)
        + le_u16_bytes(f.end_of_fibre_threshold)
        + encode_utf8(f.trace_type)
        + le_i32_bytes(f.window_coordinate_1)
        + le_i32_bytes(f.window_coordinate_2)
        + le_i32_bytes(f.window_coordinate_3)
        + le_i32_bytes(f.window_coordinate_4)
}

/// A fixed parameters block that its bytes can hold: two-byte codes, and as many pulse
/// widths and data point counts as its count announces.
pub open spec fn fixed_parameters_storable(f: SpecFixedParametersBlock) -> bool {
    &&& fills(f.units_of_distance, 2)
    &&& fills(f.trace_type, 2)
    &&& f.total_n_pulse_widths_used >= 0
    &&& f.pulse_widths_used.len() == f.total_n_pulse_widths_used
    &&& f.n_data_points_for_pulse_widths_used.len() == f.total_n_pulse_widths_used
}

/// Each field of a fixed parameters block is read from its own place: the bytes of any
/// storable block, followed by anything, parse back to that block.
pub proof fn law_fixed_parameters_block_layout(f: SpecFixedParametersBlock, rest: Seq<u8>)
    requires
        fixed_parameters_storable(f),
    ensures
        spec_fixed_parameters_block(fixed_parameters_bytes(f) + rest) == Step::Parsed(rest, f),
{
    reveal(spec_fixed_parameters_block);
    assert(entries(f.total_n_pulse_widths_used) == f.pulse_widths_used.len());
    let r26 = le_i32_bytes(f.window_coordinate_4) + rest;
    law_i32_reads(f.window_coordinate_4, rest);
    let r25 = le_i32_bytes(f.window_coordinate_3) + r26;
    law_i32_reads(f.window_coordinate_3, r26);
    let r24 = le_i32_bytes(f.window_coordinate_2) + r25;
    law_i32_reads(f.window_coordinate_2, r25);
    let r23 = le_i32_bytes(f.window_coordinate_1) + r24;
    law_i32_reads(f.window_coordinate_1, r24);
    let r22 = encode_utf8(f.trace_type) + r23;
    law_fixed_length_str_reads(f.trace_type, 2, r23);
    let r21 = le_u16_bytes(f.end_of_fibre_threshold) + r22;
    law_u16_reads(f.end_of_fibre_threshold, r22);
    let r20 = le_u16_bytes(f.reflectance_threshold) + r21;
    law_u16_reads(f.reflectance_threshold, r21);
    let r19 = le_u16_bytes(f.loss_threshold) + r20;
    law_u16_reads(f.loss_threshold, r20);
    let r18 = le_u16_bytes(f.power_offset_first_point) + r19;
    law_u16_reads(f.power_offset_first_point, r19);
    let r17 = le_i16_bytes(f.noise_floor_scale_factor) + r18;
    law_i16_reads(f.noise_floor_scale_factor, r18);
    let r16 = le_u16_bytes(f.noise_floor_level) + r17;
    law_u16_reads(f.noise_floor_level, r17);
    let r15 = le_i32_bytes(f.front_panel_offset) + r16;
    law_i32_reads(f.front_panel_offset, r16);
    let r14 = le_i32_bytes(f.acquisition_range_distance) + r15;
    law_i32_reads(f.acquisition_range_distance, r15);
    let r13 = le_i32_bytes(f.acquisition_range) + r14;
    law_i32_reads(f.acquisition_range, r14);
    let r12 = le_u16_bytes(f.averaging_time) + r13;
    law_u16_reads(f.averaging_time, r13);
    let r11 = le_i32_bytes(f.number_of_averages) + r12;
    law_i32_reads(f.number_of_averages, r12);
    let r10 = le_i16_bytes(f.backscatter_coefficient) + r11;
    law_i16_reads(f.backscatter_coefficient, r11);
    let r9 = le_i32_bytes(f.group_index) + r10;
    law_i32_reads(f.group_index, r10);
    let r8 = all_bytes(i32_encoder(), f.n_data_points_for_pulse_widths_used) + r9;
    lemma_i32s_read_back(f.n_data_points_for_pulse_widths_used, r9);
    let r7 = le_i32_bytes(f.data_spacing) + r8;
    law_i32_reads(f.data_spacing, r8);
    let r6 = all_bytes(i16_encoder(), f.pulse_widths_used) + r7;
    lemma_i16s_read_back(f.pulse_widths_used, r7);
    let r5 = le_i16_bytes(f.total_n_pulse_widths_used) + r6;
    law_i16_reads(f.total_n_pulse_widths_used, r6);
    let r4 = le_i32_bytes(f.acquisition_offset_distance) + r5;
    law_i32_reads(f.acquisition_offset_distance, r5);
    let r3 = le_i32_bytes(f.acquisition_offset) + r4;
    law_i32_reads(f.acquisition_offset, r4);
    let r2 = le_i16_bytes(f.actual_wavelength) + r3;
    law_i16_reads(f.actual_wavelength, r3);
    let r1 = encode_utf8(f.units_of_distance) + r2;
    law_fixed_length_str_reads(f.units_of_distance, 2, r2);
    let r0 = le_u32_bytes(f.date_time_stamp) + r1;
    law_u32_reads(f.date_time_stamp, r1);
    law_tag_reads(BLOCK_ID_FXDPARAMS.spec_bytes(), r0);
    lemma_fixed_parameters_bytes(f, rest);
}


spec fn fixed_parameters_fields(f: SpecFixedParametersBlock, rest: Seq<u8>) -> Seq<u8> {
    let r26 = le_i32_bytes(f.window_coordinate_4) + rest;
    let r25 = le_i32_bytes(f.window_coordinate_3) + r26;
    let r24 = le_i32_bytes(f.window_coordinate_2) + r25;
    let r23 = le_i32_bytes(f.window_coordinate_1) + r24;
    let r22 = encode_utf8(f.trace_type) + r23;
    let r21 = le_u16_bytes(f.end_of_fibre_threshold) + r22;
    let r20 = le_u16_bytes(f.reflectance_threshold) + r21;
    let r19 = le_u16_bytes(f.loss_threshold) + r20;
    let r18 = le_u16_bytes(f.power_offset_first_point) + r19;
    let r17 = le_i16_bytes(f.noise_floor_scale_factor) + r18;
    let r16 = le_u16_bytes(f.noise_floor_level) + r17;
    let r15 = le_i32_bytes(f.front_panel_offset) + r16;
    let r14 = le_i32_bytes(f.acquisition_range_distance) + r15;
    let r13 = le_i32_bytes(f.acquisition_range) + r14;
    let r12 = le_u16_bytes(f.averaging_time) + r13;
    let r11 = le_i32_bytes(f.number_of_averages) + r12;
    let r10 = le_i16_bytes(f.backscatter_coefficient) + r11;
    let r9 = le_i32_bytes(f.group_index) + r10;
    let r8 = all_bytes(i32_encoder(), f.n_data_points_for_pulse_widths_used) + r9;
    let r7 = le_i32_bytes(f.data_spacing) + r8;
    let r6 = all_bytes(i16_encoder(), f.pulse_widths_used) + r7;
    let r5 = le_i16_bytes(f.total_n_pulse_widths_used) + r6;
    let r4 = le_i32_bytes(f.acquisition_offset_distance) + r5;
    let r3 = le_i32_bytes(f.acquisition_offset) + r4;
    let r2 = le_i16_bytes(f.actual_wavelength) + r3;
    let r1 = encode_utf8(f.units_of_distance) + r2;
    le_u32_bytes(f.date_time_stamp) + r1
}

proof fn lemma_fixed_parameters_bytes(f: SpecFixedParametersBlock, rest: Seq<u8>)
    ensures
        fixed_parameters_bytes(f) + rest == BLOCK_ID_FXDPARAMS.spec_bytes() + fixed_parameters_fields(f, rest),
{
    broadcast use lemma_join_assoc;
}

/// The bytes of the leading blocks of a file.
pub open spec fn file_bytes(f: SpecSORFile) -> Seq<u8> {
    map_block_bytes(f.map)
        + general_parameters_bytes(f.general_parameters)
        + supplier_parameters_bytes(f.supplier_parameters)
        + fixed_parameters_bytes(f.fixed_parameters)
}

/// Leading blocks that their bytes can hold.
pub open spec fn file_storable(f: SpecSORFile) -> bool {
    &&& map_block_storable(f.map)
    &&& general_parameters_storable(f.general_parameters)
    &&& supplier_parameters_storable(f.supplier_parameters)
    &&& fixed_parameters_storable(f.fixed_parameters)
}

/// The leading blocks of a file are read one after the other, each from its own bytes:
/// the bytes of any storable blocks, followed by anything, parse back to those blocks.
pub proof fn law_parse_file_layout(f: SpecSORFile, rest: Seq<u8>)
    requires
        file_storable(f),
    ensures
        spec_parse_file(file_bytes(f) + rest) == Step::Parsed(rest, f),
{
    reveal(spec_parse_file);
    let m = map_block_bytes(f.map);
    let g = general_parameters_bytes(f.general_parameters);
    let p = supplier_parameters_bytes(f.supplier_parameters);
    let x = fixed_parameters_bytes(f.fixed_parameters);
    lemma_join_assoc(m + g + p, x, rest);
    lemma_join_assoc(m + g, p, x + rest);
    lemma_join_assoc(m, g, p + (x + rest));
    let r3 = fixed_parameters_bytes(f.fixed_parameters) + rest;
    law_fixed_parameters_block_layout(f.fixed_parameters, rest);
    let r2 = supplier_parameters_bytes(f.supplier_parameters) + r3;
    law_supplier_parameters_block_layout(f.supplier_parameters, r3);
    let r1 = general_parameters_bytes(f.general_parameters) + r2;
    law_general_parameters_block_layout(f.general_parameters, r2);
    law_map_block_layout(f.map, r1);
}


/// Sections laid one after another.
pub open spec fn joined(secs: Seq<Seq<u8>>) -> Seq<u8>
    decreases secs.len(),
{
    if secs.len() == 0 {
        Seq::empty()
    } else {
        secs[0] + joined(secs.drop_first())
    }
}

/// The total length of the first `j` sections.
pub open spec fn lengths_before(secs: Seq<Seq<u8>>, j: int) -> int
    decreases j,
{
    if j <= 0 || secs.len() == 0 {
        0
    } else {
        secs[0].len() + lengths_before(secs.drop_first(), j - 1)
    }
}

/// Section `j` stands in the joined sections after the sections before it.
proof fn lemma_joined_section(secs: Seq<Seq<u8>>, j: int)
    requires
        0 <= j < secs.len(),
    ensures
        0 <= lengths_before(secs, j),
        lengths_before(secs, j) + secs[j].len() <= joined(secs).len(),
        joined(secs).subrange(lengths_before(secs, j), lengths_before(secs, j) + secs[j].len()) == secs[j],
    decreases j,
{
    let tail = secs.drop_first();
    if j == 0 {
        assert(joined(secs).subrange(0, secs[0].len() as int) =~= secs[0]);
    } else {
        lemma_joined_section(tail, j - 1);
        let a = lengths_before(tail, j - 1);
        assert(joined(secs) == secs[0] + joined(tail));
        assert(tail[j - 1] == secs[j]);
        assert(lengths_before(secs, j) == secs[0].len() + a);
        assert(joined(secs).subrange(secs[0].len() + a, secs[0].len() + a + secs[j].len())
            =~= joined(tail).subrange(a, a + tail[j - 1].len()));
    }
}

/// Scanning entries whose sizes are the lengths of the sections finds the first entry
/// named `name` after the sections before it.
proof fn lemma_locate_sections(infos: Seq<SpecBlockInfo>, secs: Seq<Seq<u8>>, name: Seq<char>, j: int, offset: int, len: int)
    requires
        infos.len() == secs.len(),
        forall|i: int| 0 <= i < infos.len() ==> 0 <= (#[trigger] infos[i]).size && infos[i].size == secs[i].len(),
        0 <= j < infos.len(),
        infos[j].identifier == name,
        forall|i: int| 0 <= i < j ==> (#[trigger] infos[i]).identifier != name,
        0 <= offset,
        offset + lengths_before(secs, j) <= usize::MAX,
    ensures
        locate_block(infos, name, offset, len) == (offset + lengths_before(secs, j), secs[j].len() as int),
        locate_block_fits(infos, name, offset),
    decreases j,
{
    if j > 0 {
        let ti = infos.drop_first();
        let ts = secs.drop_first();
        assert(infos[0].size == secs[0].len());
        assert forall|i: int| 0 <= i < ti.len() implies 0 <= (#[trigger] ti[i]).size && ti[i].size == ts[i].len() by {
            assert(ti[i] == infos[i + 1]);
        }
        assert forall|i: int| 0 <= i < j - 1 implies (#[trigger] ti[i]).identifier != name by {
            assert(ti[i] == infos[i + 1]);
        }
        lemma_locate_sections(ti, ts, name, j - 1, offset + secs[0].len(), secs[0].len() as int);
    }
}

/// A file laid out as a map block whose size is its own length, then the sections that
/// its entries list, each as long as its entry says, yields for the first entry named
/// `name` exactly that entry's section.
pub proof fn law_load_section_layout(m: SpecMapBlock, secs: Seq<Seq<u8>>, rest: Seq<u8>, j: int, name: Seq<char>)
    requires
        map_block_storable(m),
        m.block_size == map_block_bytes(m).len(),
        secs.len() == m.block_info.len(),
        forall|i: int| 0 <= i < secs.len() ==>
            0 <= (#[trigger] m.block_info[i]).size && m.block_info[i].size == secs[i].len(),
        0 <= j < secs.len(),
        m.block_info[j].identifier == name,
        forall|i: int| 0 <= i < j ==> (#[trigger] m.block_info[i]).identifier != name,
        map_block_bytes(m).len() + joined(secs).len() + rest.len() <= usize::MAX,
    ensures
        section_in_file(map_block_bytes(m) + joined(secs) + rest, name),
        section_of(map_block_bytes(m) + joined(secs) + rest, name) == secs[j],
{
    let bytes = map_block_bytes(m);
    let data = bytes + joined(secs) + rest;
    lemma_join_assoc(bytes, joined(secs), rest);
    law_map_block_layout(m, joined(secs) + rest);
    lemma_joined_section(secs, j);
    lemma_locate_sections(m.block_info, secs, name, j, bytes.len() as int, 0);
    let off = bytes.len() + lengths_before(secs, j);
    let whole = bytes + (joined(secs) + rest);
    assert(data == whole);
    assert(off + secs[j].len() <= whole.len());
    assert(data.subrange(off, off + secs[j].len()) =~= joined(secs).subrange(lengths_before(secs, j), lengths_before(secs, j) + secs[j].len()));
}


/// After a block's name, too few bytes for its first field fail with `Eof` where that
/// field begins; a supplier block whose first string has no terminator fails with
/// `TakeUntil` there.
pub proof fn law_first_field_errors(t: Seq<u8>)
    ensures
        t.len() < 2 ==> spec_map_block(BLOCK_ID_MAP.spec_bytes() + t)
            == Step::<SpecMapBlock>::Failed(t, ErrorKind::Eof),
        t.len() < 2 ==> spec_general_parameters_block(BLOCK_ID_GENPARAMS.spec_bytes() + t)
            == Step::<SpecGeneralParametersBlock>::Failed(t, ErrorKind::Eof),
        t.len() < 4 ==> spec_fixed_parameters_block(BLOCK_ID_FXDPARAMS.spec_bytes() + t)
            == Step::<SpecFixedParametersBlock>::Failed(t, ErrorKind::Eof),
        t.len() < 2 ==> spec_key_events_block(BLOCK_ID_KEYEVENTS.spec_bytes() + t)
            == Step::<SpecKeyEvents>::Failed(t, ErrorKind::Eof),
        nul_free(t) ==> spec_supplier_parameters_block(BLOCK_ID_SUPPARAMS.spec_bytes() + t)
            == Step::<SpecSupplierParametersBlock>::Failed(t, ErrorKind::TakeUntil),
{
    reveal(spec_map_block);
    reveal(spec_general_parameters_block);
    reveal(spec_fixed_parameters_block);
    reveal(spec_key_events_block);
    reveal(spec_supplier_parameters_block);
    reveal(sp_fixed_length_str);
    reveal(sp_nul_terminated_str);
    reveal(sp_nul_terminated_chunk);
    law_tag_reads(BLOCK_ID_MAP.spec_bytes(), t);
    law_tag_reads(BLOCK_ID_GENPARAMS.spec_bytes(), t);
    law_tag_reads(BLOCK_ID_FXDPARAMS.spec_bytes(), t);
    law_tag_reads(BLOCK_ID_KEYEVENTS.spec_bytes(), t);
    law_tag_reads(BLOCK_ID_SUPPARAMS.spec_bytes(), t);
    if nul_free(t) {
        lemma_no_nul(t);
    }
}

} // verus!
