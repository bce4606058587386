//! The executable parsers, each proved to compute its spec function.

use vstd::prelude::*;
use vstd::utf8::{valid_utf8, decode_utf8, encode_utf8_decode_utf8};
use vstd::string::{StringSliceAdditionalSpecFns, StrSliceExecFns};
use vstd::slice::slice_subrange;
use crate::types::{
    ErrorKind, ParseError, BlockInfo, MapBlock, GeneralParametersBlock, SupplierParametersBlock,
    FixedParametersBlock, KeyEvent, LastKeyEvent, KeyEvents, SORFile,
};
use crate::spec::{
    agrees, sp_tag, sp_take, sp_u16, sp_i16, sp_u32, sp_i32, sp_until_nul, sp_nul_terminated_chunk,
    sp_nul_terminated_str, sp_fixed_length_str, lemma_first_nul, lemma_no_nul, lemma_nul_bytes,
    lemma_bytes_deep_view, Step,
    sp_count, lemma_count_stops, sp_block_info, block_info_parser, spec_map_block,
    spec_general_parameters_block, spec_supplier_parameters_block, BLOCK_ID_MAP, BLOCK_ID_GENPARAMS,
    BLOCK_ID_SUPPARAMS, BLOCK_ID_FXDPARAMS, BLOCK_ID_KEYEVENTS, i16_parser, i32_parser, key_event_parser,
    sp_key_event, sp_last_key_event, spec_fixed_parameters_block, spec_key_events_block, spec_parse_file,
    locate_block, locate_block_fits, section_in_file, section_of,
};
use crate::outside::{
    nom_take, nom_take_until, nom_tag, nom_le_u16, nom_le_i16, nom_le_u32, nom_le_i32, str_from_utf8,
};

verus! {

/// Matches the bytes of `pattern`; on a mismatch the error is the one that `nom`'s
/// `tag` reports: the input where the match began, with the code `Tag`.
fn tag_step<'a>(pattern: &str, i: &'a [u8]) -> (res: Result<(&'a [u8], ()), ParseError<'a>>)
    ensures
        agrees(res, sp_tag(i@, pattern.spec_bytes())),
{
    match nom_tag(pattern, i) {
        Ok((rest, _)) => Ok((rest, ())),
        Err(_) => Err(ParseError { input: i, code: ErrorKind::Tag }),
    }
}

/// Reads a little-endian `u16`; with fewer than two bytes left the error is the one
/// that `nom` reports: the input where the field began, with the code `Eof`.
fn u16_step<'a>(i: &'a [u8]) -> (res: Result<(&'a [u8], u16), ParseError<'a>>)
    ensures
        agrees(res, sp_u16(i@)),
{
    match nom_le_u16(i) {
        Ok(p) => Ok(p),
        Err(_) => Err(ParseError { input: i, code: ErrorKind::Eof }),
    }
}

/// Reads a little-endian `i16`; errors as `u16_step`.
fn i16_step<'a>(i: &'a [u8]) -> (res: Result<(&'a [u8], i16), ParseError<'a>>)
    ensures
        agrees(res, sp_i16(i@)),
{
    match nom_le_i16(i) {
        Ok(p) => Ok(p),
        Err(_) => Err(ParseError { input: i, code: ErrorKind::Eof }),
    }
}

/// Reads a little-endian `u32`; errors as `u16_step`, with four bytes needed.
fn u32_step<'a>(i: &'a [u8]) -> (res: Result<(&'a [u8], u32), ParseError<'a>>)
    ensures
        agrees(res, sp_u32(i@)),
{
    match nom_le_u32(i) {
        Ok(p) => Ok(p),
        Err(_) => Err(ParseError { input: i, code: ErrorKind::Eof }),
    }
}

/// Reads a little-endian `i32`; errors as `u32_step`.
fn i32_step<'a>(i: &'a [u8]) -> (res: Result<(&'a [u8], i32), ParseError<'a>>)
    ensures
        agrees(res, sp_i32(i@)),
{
    match nom_le_i32(i) {
        Ok(p) => Ok(p),
        Err(_) => Err(ParseError { input: i, code: ErrorKind::Eof }),
    }
}

/// Reads the bytes of `input` as text; empty input is the empty string.
pub fn parse_string<'a>(input: &'a [u8]) -> (res: &'a str)
    requires
        valid_utf8(input@),
    ensures
        res@ == decode_utf8(input@),
{
    if input.len() > 0 {
        match str_from_utf8(input) {
            Some(s) => {
                proof { encode_utf8_decode_utf8(s@); }
                s
            },
            None => { unreached() },
        }
    } else {
        proof {
            reveal_strlit("");
            assert(input@ =~= Seq::<u8>::empty());
        }
        ""
    }
}

/// Takes `count` bytes; with fewer left the error is the one that `nom`'s `take`
/// reports: the input where the field began, with the code `Eof`.
fn take_step<'a>(count: usize, i: &'a [u8]) -> (res: Result<(&'a [u8], &'a [u8]), ParseError<'a>>)
    ensures
        agrees(res, sp_take(i@, count as nat)),
{
    match nom_take(count, i) {
        Ok((rest, taken)) => {
            proof { lemma_bytes_deep_view(taken); }
            Ok((rest, taken))
        },
        Err(_) => Err(ParseError { input: i, code: ErrorKind::Eof }),
    }
}

/// Takes the bytes before the first zero byte; without a zero byte the error is the
/// one that `nom`'s `take_until` reports: the input where the search began, with the
/// code `TakeUntil`.
fn until_nul_step<'a>(i: &'a [u8]) -> (res: Result<(&'a [u8], &'a [u8]), ParseError<'a>>)
    ensures
        agrees(res, sp_until_nul(i@)),
{
    proof { lemma_nul_bytes(); }
    match nom_take_until("\0", i) {
        Ok((rest, taken)) => {
            proof {
                lemma_first_nul(i@, taken@.len() as int);
                lemma_bytes_deep_view(taken);
            }
            Ok((rest, taken))
        },
        Err(_) => {
            proof {
                assert forall|j: int| 0 <= j < i@.len() implies i@[j] != 0 by {
                    if i@[j] == 0 {
                        assert(i@.contains(0u8));
                    }
                }
                lemma_no_nul(i@);
            }
            Err(ParseError { input: i, code: ErrorKind::TakeUntil })
        },
    }
}

/// Reads the bytes up to the first zero byte, and consumes that byte too.
pub fn null_terminated_chunk<'a>(i: &'a [u8]) -> (res: Result<(&'a [u8], &'a [u8]), ParseError<'a>>)
    ensures
        agrees(res, sp_nul_terminated_chunk(i@)),
{
    reveal(sp_nul_terminated_chunk);
    let (i, chunk) = until_nul_step(i)?;
    proof {
        lemma_nul_bytes();
        lemma_bytes_deep_view(chunk);
    }
    let (i, _) = tag_step("\0", i)?;
    Ok((i, chunk))
}

/// Reads a zero-terminated string.
pub fn null_terminated_str<'a>(i: &'a [u8]) -> (res: Result<(&'a [u8], &'a str), ParseError<'a>>)
    requires
        !(sp_nul_terminated_str(i@) is OutOfDomain),
    ensures
        agrees(res, sp_nul_terminated_str(i@)),
{
    reveal(sp_nul_terminated_str);
    let (i, seg) = null_terminated_chunk(i)?;
    proof { lemma_bytes_deep_view(seg); }
    let string = parse_string(seg);
    Ok((i, string))
}

/// Reads a string of `len` bytes; the layout has such strings of two and of six bytes.
pub fn fixed_length_str<'a>(i: &'a [u8], len: usize) -> (res: Result<(&'a [u8], &'a str), ParseError<'a>>)
    requires
        len == 2 || len == 6,
        !(sp_fixed_length_str(i@, len as nat) is OutOfDomain),
    ensures
        agrees(res, sp_fixed_length_str(i@, len as nat)),
{
    reveal(sp_fixed_length_str);
    let (i, seg) = take_step(len, i)?;
    proof { lemma_bytes_deep_view(seg); }
    let string = parse_string(seg);
    Ok((i, string))
}

/// Reads one entry of the map block.
fn map_block_info<'a>(i: &'a [u8]) -> (res: Result<(&'a [u8], BlockInfo<'a>), ParseError<'a>>)
    requires
        !(sp_block_info(i@) is OutOfDomain),
    ensures
        agrees(res, sp_block_info(i@)),
{
    reveal(sp_block_info);
    let (i, identifier) = null_terminated_str(i)?;
    let (i, revision_number) = u16_step(i)?;
    let (i, size) = i32_step(i)?;
    Ok((i, BlockInfo { identifier, revision_number, size }))
}

/// Reads `n` map entries one after the other.
fn block_infos<'a>(i: &'a [u8], n: usize) -> (res: Result<(&'a [u8], Vec<BlockInfo<'a>>), ParseError<'a>>)
    requires
        !(sp_count(block_info_parser(), i@, n as nat) is OutOfDomain),
    ensures
        agrees(res, sp_count(block_info_parser(), i@, n as nat)),
{
    let ghost p = block_info_parser();
    let mut input = i;
    let mut entries: Vec<BlockInfo<'a>> = Vec::new();
    let mut k: usize = 0;
    proof { assert(entries.deep_view() =~= Seq::<crate::types::SpecBlockInfo>::empty()); }
    while k < n
        invariant
            k <= n,
            p == block_info_parser(),
            !(sp_count(p, i@, n as nat) is OutOfDomain),
            sp_count(p, i@, k as nat) == Step::Parsed(input@, entries.deep_view()),
        decreases n - k,
    {
        proof {
            assert(sp_count(p, i@, (k + 1) as nat) == sp_count(p, i@, k as nat).and_then(|r: Seq<u8>, vs: Seq<crate::types::SpecBlockInfo>|
                p(r).and_then(|r2: Seq<u8>, v: crate::types::SpecBlockInfo| Step::Parsed(r2, vs.push(v)))));
            if sp_block_info(input@) is OutOfDomain {
                lemma_count_stops(p, i@, (k + 1) as nat, n as nat);
            }
        }
        match map_block_info(input) {
            Ok((rest, entry)) => {
                let ghost before = entries.deep_view();
                entries.push(entry);
                input = rest;
                k = k + 1;
                proof { assert(entries.deep_view() =~= before.push(entry.deep_view())); }
            },
            Err(e) => {
                proof { lemma_count_stops(p, i@, (k + 1) as nat, n as nat); }
                return Err(e);
            },
        }
    }
    Ok((input, entries))
}

/// Reads the map block: its name, revision, size and entry count, then one entry for
/// each block that follows it.
pub fn map_block<'a>(i: &'a [u8]) -> (res: Result<(&'a [u8], MapBlock<'a>), ParseError<'a>>)
    requires
        !(spec_map_block(i@) is OutOfDomain),
    ensures
        agrees(res, spec_map_block(i@)),
{
    reveal(spec_map_block);
    let (i, _) = tag_step(BLOCK_ID_MAP, i)?;
    let (i, revision_number) = u16_step(i)?;
    let (i, block_size) = i32_step(i)?;
    let (i, block_count) = i16_step(i)?;
    let blocks_to_read: usize = (block_count - 1) as usize;
    let (i, block_info) = block_infos(i, blocks_to_read)?;
    Ok((i, MapBlock { revision_number, block_count, block_size, block_info }))
}

/// Reads the general parameters block.
pub fn general_parameters_block<'a>(i: &'a [u8]) -> (res: Result<(&'a [u8], GeneralParametersBlock<'a>), ParseError<'a>>)
    requires
        !(spec_general_parameters_block(i@) is OutOfDomain),
    ensures
        agrees(res, spec_general_parameters_block(i@)),
{
    reveal(spec_general_parameters_block);
    let (i, _) = tag_step(BLOCK_ID_GENPARAMS, i)?;
    let (i, language_code) = fixed_length_str(i, 2)?;
    let (i, cable_id) = null_terminated_str(i)?;
    let (i, fiber_id) = null_terminated_str(i)?;
    let (i, fiber_type) = i16_step(i)?;
    let (i, nominal_wavelength) = i16_step(i)?;
    let (i, originating_location) = null_terminated_str(i)?;
    let (i, terminating_location) = null_terminated_str(i)?;
    let (i, cable_code) = null_terminated_str(i)?;
    let (i, current_data_flag) = fixed_length_str(i, 2)?;
    let (i, user_offset) = i32_step(i)?;
    let (i, user_offset_distance) = i32_step(i)?;
    let (i, operator) = null_terminated_str(i)?;
    let (i, comment) = null_terminated_str(i)?;
    Ok((i, GeneralParametersBlock {
        language_code, cable_id, fiber_id, fiber_type, nominal_wavelength,
        originating_location, terminating_location, cable_code, current_data_flag,
        user_offset, user_offset_distance, operator, comment,
    }))
}

/// Reads the supplier parameters block.
pub fn supplier_parameters_block<'a>(i: &'a [u8]) -> (res: Result<(&'a [u8], SupplierParametersBlock<'a>), ParseError<'a>>)
    requires
        !(spec_supplier_parameters_block(i@) is OutOfDomain),
    ensures
        agrees(res, spec_supplier_parameters_block(i@)),
{
    reveal(spec_supplier_parameters_block);
    let (i, _) = tag_step(BLOCK_ID_SUPPARAMS, i)?;
    let (i, supplier_name) = null_terminated_str(i)?;
    let (i, otdr_mainframe_id) = null_terminated_str(i)?;
    let (i, otdr_mainframe_sn) = null_terminated_str(i)?;
    let (i, optical_module_id) = null_terminated_str(i)?;
    let (i, optical_module_sn) = null_terminated_str(i)?;
    let (i, software_revision) = null_terminated_str(i)?;
    let (i, other) = null_terminated_str(i)?;
    Ok((i, SupplierParametersBlock {
        supplier_name, otdr_mainframe_id, otdr_mainframe_sn, optical_module_id,
        optical_module_sn, software_revision, other,
    }))
}

/// Reads `n` little-endian `i16` values one after the other.
fn i16_values<'a>(i: &'a [u8], n: usize) -> (res: Result<(&'a [u8], Vec<i16>), ParseError<'a>>)
    ensures
        agrees(res, sp_count(i16_parser(), i@, n as nat)),
{
    let ghost p = i16_parser();
    let mut input = i;
    let mut values: Vec<i16> = Vec::new();
    let mut k: usize = 0;
    proof { assert(values.deep_view() =~= Seq::<i16>::empty()); }
    while k < n
        invariant
            k <= n,
            p == i16_parser(),
            sp_count(p, i@, k as nat) == Step::Parsed(input@, values.deep_view()),
        decreases n - k,
    {
        proof {
            assert(sp_count(p, i@, (k + 1) as nat) == sp_count(p, i@, k as nat).and_then(|r: Seq<u8>, vs: Seq<i16>|
                p(r).and_then(|r2: Seq<u8>, v: i16| Step::Parsed(r2, vs.push(v)))));
        }
        match i16_step(input) {
            Ok((rest, value)) => {
                let ghost before = values.deep_view();
                values.push(value);
                input = rest;
                k = k + 1;
                proof { assert(values.deep_view() =~= before.push(value.deep_view())); }
            },
            Err(e) => {
                proof { lemma_count_stops(p, i@, (k + 1) as nat, n as nat); }
                return Err(e);
            },
        }
    }
    Ok((input, values))
}

/// Reads `n` little-endian `i32` values one after the other.
fn i32_values<'a>(i: &'a [u8], n: usize) -> (res: Result<(&'a [u8], Vec<i32>), ParseError<'a>>)
    ensures
        agrees(res, sp_count(i32_parser(), i@, n as nat)),
{
    let ghost p = i32_parser();
    let mut input = i;
    let mut values: Vec<i32> = Vec::new();
    let mut k: usize = 0;
    proof { assert(values.deep_view() =~= Seq::<i32>::empty()); }
    while k < n
        invariant
            k <= n,
            p == i32_parser(),
            sp_count(p, i@, k as nat) == Step::Parsed(input@, values.deep_view()),
        decreases n - k,
    {
        proof {
            assert(sp_count(p, i@, (k + 1) as nat) == sp_count(p, i@, k as nat).and_then(|r: Seq<u8>, vs: Seq<i32>|
                p(r).and_then(|r2: Seq<u8>, v: i32| Step::Parsed(r2, vs.push(v)))));
        }
        match i32_step(input) {
            Ok((rest, value)) => {
                let ghost before = values.deep_view();
                values.push(value);
                input = rest;
                k = k + 1;
                proof { assert(values.deep_view() =~= before.push(value.deep_view())); }
            },
            Err(e) => {
                proof { lemma_count_stops(p, i@, (k + 1) as nat, n as nat); }
                return Err(e);
            },
        }
    }
    Ok((input, values))
}

/// Reads `n` key events one after the other.
fn key_event_values<'a>(i: &'a [u8], n: usize) -> (res: Result<(&'a [u8], Vec<KeyEvent<'a>>), ParseError<'a>>)
    requires
        !(sp_count(key_event_parser(), i@, n as nat) is OutOfDomain),
    ensures
        agrees(res, sp_count(key_event_parser(), i@, n as nat)),
{
    let ghost p = key_event_parser();
    let mut input = i;
    let mut values: Vec<KeyEvent<'a>> = Vec::new();
    let mut k: usize = 0;
    proof { assert(values.deep_view() =~= Seq::<crate::types::SpecKeyEvent>::empty()); }
    while k < n
        invariant
            k <= n,
            p == key_event_parser(),
            !(sp_count(p, i@, n as nat) is OutOfDomain),
            sp_count(p, i@, k as nat) == Step::Parsed(input@, values.deep_view()),
        decreases n - k,
    {
        proof {
            assert(sp_count(p, i@, (k + 1) as nat) == sp_count(p, i@, k as nat).and_then(|r: Seq<u8>, vs: Seq<crate::types::SpecKeyEvent>|
                p(r).and_then(|r2: Seq<u8>, v: crate::types::SpecKeyEvent| Step::Parsed(r2, vs.push(v)))));
            if sp_key_event(input@) is OutOfDomain {
                lemma_count_stops(p, i@, (k + 1) as nat, n as nat);
            }
        }
        match key_event(input) {
            Ok((rest, value)) => {
                let ghost before = values.deep_view();
                values.push(value);
                input = rest;
                k = k + 1;
                proof { assert(values.deep_view() =~= before.push(value.deep_view())); }
            },
            Err(e) => {
                proof { lemma_count_stops(p, i@, (k + 1) as nat, n as nat); }
                return Err(e);
            },
        }
    }
    Ok((input, values))
}

/// Reads the fixed parameters block.
pub fn fixed_parameters_block<'a>(i: &'a [u8]) -> (res: Result<(&'a [u8], FixedParametersBlock<'a>), ParseError<'a>>)
    requires
        !(spec_fixed_parameters_block(i@) is OutOfDomain),
    ensures
        agrees(res, spec_fixed_parameters_block(i@)),
{
    reveal(spec_fixed_parameters_block);
    let (i, _) = tag_step(BLOCK_ID_FXDPARAMS, i)?;
    let (i, date_time_stamp) = u32_step(i)?;
    let (i, units_of_distance) = fixed_length_str(i, 2)?;
    let (i, actual_wavelength) = i16_step(i)?;
    let (i, acquisition_offset) = i32_step(i)?;
    let (i, acquisition_offset_distance) = i32_step(i)?;
    let (i, total_n_pulse_widths_used) = i16_step(i)?;
    let pulse_width_count: usize = total_n_pulse_widths_used as usize;
    let (i, pulse_widths_used) = i16_values(i, pulse_width_count)?;
    let (i, data_spacing) = i32_step(i)?;
    let (i, n_data_points_for_pulse_widths_used) = i32_values(i, pulse_width_count)?;
    let (i, group_index) = i32_step(i)?;
    let (i, backscatter_coefficient) = i16_step(i)?;
    let (i, number_of_averages) = i32_step(i)?;
    let (i, averaging_time) = u16_step(i)?;
    let (i, acquisition_range) = i32_step(i)?;
    let (i, acquisition_range_distance) = i32_step(i)?;
    let (i, front_panel_offset) = i32_step(i)?;
    let (i, noise_floor_level) = u16_step(i)?;
    let (i, noise_floor_scale_factor) = i16_step(i)?;
    let (i, power_offset_first_point) = u16_step(i)?;
    let (i, loss_threshold) = u16_step(i)?;
    let (i, reflectance_threshold) = u16_step(i)?;
    let (i, end_of_fibre_threshold) = u16_step(i)?;
    let (i, trace_type) = fixed_length_str(i, 2)?;
    let (i, window_coordinate_1) = i32_step(i)?;
    let (i, window_coordinate_2) = i32_step(i)?;
    let (i, window_coordinate_3) = i32_step(i)?;
    let (i, window_coordinate_4) = i32_step(i)?;
    Ok((i, FixedParametersBlock {
        date_time_stamp, units_of_distance, actual_wavelength, acquisition_offset,
        acquisition_offset_distance, total_n_pulse_widths_used, pulse_widths_used, data_spacing,
        n_data_points_for_pulse_widths_used, group_index, backscatter_coefficient,
        number_of_averages, averaging_time, acquisition_range, acquisition_range_distance,
        front_panel_offset, noise_floor_level, noise_floor_scale_factor, power_offset_first_point,
        loss_threshold, reflectance_threshold, end_of_fibre_threshold, trace_type,
        window_coordinate_1, window_coordinate_2, window_coordinate_3, window_coordinate_4,
    }))
}

/// Reads one key event.
fn key_event<'a>(i: &'a [u8]) -> (res: Result<(&'a [u8], KeyEvent<'a>), ParseError<'a>>)
    requires
        !(sp_key_event(i@) is OutOfDomain),
    ensures
        agrees(res, sp_key_event(i@)),
{
    reveal(sp_key_event);
    let (i, event_number) = i16_step(i)?;
    let (i, event_propogation_time) = i32_step(i)?;
    let (i, attenuation_coefficient_lead_in_fiber) = i16_step(i)?;
    let (i, event_loss) = i16_step(i)?;
    let (i, event_reflectance) = i32_step(i)?;
    let (i, event_code) = fixed_length_str(i, 6)?;
    let (i, loss_measurement_technique) = fixed_length_str(i, 2)?;
    let (i, marker_location_1) = i32_step(i)?;
    let (i, marker_location_2) = i32_step(i)?;
    let (i, marker_location_3) = i32_step(i)?;
    let (i, marker_location_4) = i32_step(i)?;
    let (i, marker_location_5) = i32_step(i)?;
    let (i, comment) = null_terminated_str(i)?;
    Ok((i, KeyEvent {
        event_number, event_propogation_time, attenuation_coefficient_lead_in_fiber, event_loss,
        event_reflectance, event_code, loss_measurement_technique, marker_location_1,
        marker_location_2, marker_location_3, marker_location_4, marker_location_5, comment,
    }))
}

/// Reads the last key event: the fields of a key event, then the loss figures of the
/// whole fibre.
fn last_key_event<'a>(i: &'a [u8]) -> (res: Result<(&'a [u8], LastKeyEvent<'a>), ParseError<'a>>)
    requires
        !(sp_last_key_event(i@) is OutOfDomain),
    ensures
        agrees(res, sp_last_key_event(i@)),
{
    reveal(sp_last_key_event);
    let (i, event) = key_event(i)?;
    let (i, end_to_end_loss) = i32_step(i)?;
    let (i, end_to_end_marker_position_1) = i32_step(i)?;
    let (i, end_to_end_marker_position_2) = i32_step(i)?;
    let (i, optical_return_loss) = u16_step(i)?;
    let (i, optical_return_loss_marker_position_1) = i32_step(i)?;
    let (i, optical_return_loss_marker_position_2) = i32_step(i)?;
    Ok((i, LastKeyEvent {
        event_number: event.event_number,
        event_propogation_time: event.event_propogation_time,
        attenuation_coefficient_lead_in_fiber: event.attenuation_coefficient_lead_in_fiber,
        event_loss: event.event_loss,
        event_reflectance: event.event_reflectance,
        event_code: event.event_code,
        loss_measurement_technique: event.loss_measurement_technique,
        marker_location_1: event.marker_location_1,
        marker_location_2: event.marker_location_2,
        marker_location_3: event.marker_location_3,
        marker_location_4: event.marker_location_4,
        marker_location_5: event.marker_location_5,
        comment: event.comment,
        end_to_end_loss,
        end_to_end_marker_position_1,
        end_to_end_marker_position_2,
        optical_return_loss,
        optical_return_loss_marker_position_1,
        optical_return_loss_marker_position_2,
    }))
}

/// Reads the key events block: the event count, all events but the last, then the last.
pub fn key_events_block<'a>(i: &'a [u8]) -> (res: Result<(&'a [u8], KeyEvents<'a>), ParseError<'a>>)
    requires
        !(spec_key_events_block(i@) is OutOfDomain),
    ensures
        agrees(res, spec_key_events_block(i@)),
{
    reveal(spec_key_events_block);
    let (i, _) = tag_step(BLOCK_ID_KEYEVENTS, i)?;
    let (i, number_of_key_events) = i16_step(i)?;
    let (i, key_events) = key_event_values(i, (number_of_key_events - 1) as usize)?;
    let (i, last_key_event) = last_key_event(i)?;
    Ok((i, KeyEvents { number_of_key_events, key_events, last_key_event }))
}

/// Reads the leading blocks of a file: the map, then the general, the supplier and the
/// fixed parameters.
pub fn parse_file<'a>(i: &'a [u8]) -> (res: Result<(&'a [u8], SORFile<'a>), ParseError<'a>>)
    requires
        !(spec_parse_file(i@) is OutOfDomain),
    ensures
        agrees(res, spec_parse_file(i@)),
{
    reveal(spec_parse_file);
    let (i, map) = map_block(i)?;
    let (i, general_parameters) = general_parameters_block(i)?;
    let (i, supplier_parameters) = supplier_parameters_block(i)?;
    let (i, fixed_parameters) = fixed_parameters_block(i)?;
    Ok((i, SORFile { map, general_parameters, supplier_parameters, fixed_parameters }))
}

/// Whether two strings hold the same characters, compared byte by byte.
fn same_text(a: &str, b: &str) -> (res: bool)
    ensures
        res == (a@ == b@),
{
    let x = a.as_bytes();
    let y = b.as_bytes();
    proof {
        encode_utf8_decode_utf8(a@);
        encode_utf8_decode_utf8(b@);
    }
    if x.len() != y.len() {
        return false;
    }
    let mut k: usize = 0;
    while k < x.len()
        invariant
            k <= x@.len(),
            x@.len() == y@.len(),
            x@ == a.spec_bytes(),
            y@ == b.spec_bytes(),
            decode_utf8(a.spec_bytes()) == a@,
            decode_utf8(b.spec_bytes()) == b@,
            forall|j: int| 0 <= j < k ==> x@[j] == y@[j],
        decreases x@.len() - k,
    {
        if x[k] != y[k] {
            return false;
        }
        k = k + 1;
    }
    proof { assert(x@ =~= y@); }
    true
}

/// Scans the map entries from `start` on for the entry named `name`, as
/// `locate_block` describes.
fn find_block(infos: &Vec<BlockInfo>, name: &str, start: usize) -> (res: (usize, usize))
    requires
        locate_block_fits(infos.deep_view(), name@, start as int),
    ensures
        (res.0 as int, res.1 as int) == locate_block(infos.deep_view(), name@, start as int, 0),
{
    let ghost all = infos.deep_view();
    let mut offset: usize = start;
    let mut len: usize = 0;
    let mut k: usize = 0;
    assert(all.skip(0) =~= all);
    while k < infos.len()
        invariant
            k <= all.len(),
            all == infos.deep_view(),
            all.len() == infos@.len(),
            locate_block(all, name@, start as int, 0)
                == locate_block(all.skip(k as int), name@, offset as int, len as int),
            locate_block_fits(all.skip(k as int), name@, offset as int),
        decreases all.len() - k,
    {
        let block = &infos[k];
        let ghost rest = all.skip(k as int);
        assert(rest[0] == block.deep_view());
        assert(rest.drop_first() =~= all.skip(k + 1));
        len = block.size as usize;
        if same_text(block.identifier, name) {
            return (offset, len);
        }
        offset = offset + block.size as usize;
        k = k + 1;
    }
    (offset, len)
}

/// Finds the bytes of the block named `header` in the file `data`, where `header` is a
/// block name with its terminating zero, as the `BLOCK_ID_..` constants give it. The
/// blocks are taken to follow the map block in the order and with the sizes that the
/// map lists; where no entry bears the name, the section after all listed blocks, as
/// long as the last one, comes back.
pub fn test_load_file_section<'a>(data: &'a [u8], header: &str) -> (res: &'a [u8])
    requires
        header@.len() > 0,
        (header@.last() as u32) < 0x80,
        section_in_file(data@, header@.drop_last()),
    ensures
        res@ == section_of(data@, header@.drop_last()),
{
    let (rest, map) = match map_block(data) {
        Ok(p) => p,
        Err(_) => { unreached() },
    };
    assert(spec_map_block(data@) == Step::Parsed(rest@, map.deep_view()));
    let ghost located = locate_block(map.block_info.deep_view(), header@.drop_last(), (map.block_size as usize) as int, 0);
    assert(located.0 + located.1 <= data@.len());
    let n = header.unicode_len();
    let name = header.substring_char(0, n - 1);
    assert(name@ =~= header@.drop_last());
    let start = map.block_size as usize;
    assert(start as int == (map.block_size as usize) as int);
    let (offset, len) = find_block(&map.block_info, name, start);
    assert((offset as int, len as int) == located);
    let total = data.len();
    assert(offset as int + len as int <= total);
    slice_subrange(data, offset, offset + len)
}

} // verus!
