//! The layout of the blocks, as spec functions from the input bytes to a parse outcome.

use vstd::prelude::*;
use vstd::utf8::{valid_utf8, decode_utf8};
use vstd::string::StringSliceAdditionalSpecFns;
use crate::types::{
    ErrorKind, ParseError, SpecBlockInfo, SpecMapBlock, SpecGeneralParametersBlock,
    SpecSupplierParametersBlock, SpecFixedParametersBlock, SpecKeyEvent, SpecLastKeyEvent,
    SpecKeyEvents, SpecSORFile,
};
use crate::outside::{le2, le4, signed16, signed32};

verus! {

/// What parsing a prefix of some input gives.
pub enum Step<T> {
    /// The prefix was read: the input after it, and the value read.
    Parsed(Seq<u8>, T),
    /// Parsing failed: the input left where the failing step began, and why.
    Failed(Seq<u8>, ErrorKind),
    /// The input lies outside what the parsers accept: a string field that is not
    /// well-formed UTF-8, or an entry count whose predecessor does not fit in an `i16`.
    OutOfDomain,
}

impl<T> Step<T> {
    /// Runs `k` on the rest and the value of a parsed step, and passes a failure on.
    pub open spec fn and_then<U>(self, k: spec_fn(Seq<u8>, T) -> Step<U>) -> Step<U> {
        match self {
            Step::Parsed(rest, v) => k(rest, v),
            Step::Failed(at, kind) => Step::Failed(at, kind),
            Step::OutOfDomain => Step::OutOfDomain,
        }
    }

    /// Reads one more field with `p` and stores it in the value with `set`.
    pub open spec fn read<U>(self, p: spec_fn(Seq<u8>) -> Step<U>, set: spec_fn(T, U) -> T) -> Step<T> {
        self.and_then(|s: Seq<u8>, t: T| p(s).and_then(|s2: Seq<u8>, u: U| Step::Parsed(s2, set(t, u))))
    }

    /// Reads one more field with `p`, which may depend on the fields read so far, and
    /// stores it in the value with `set`.
    pub open spec fn read_with<U>(self, p: spec_fn(Seq<u8>, T) -> Step<U>, set: spec_fn(T, U) -> T) -> Step<T> {
        self.and_then(|s: Seq<u8>, t: T| p(s, t).and_then(|s2: Seq<u8>, u: U| Step::Parsed(s2, set(t, u))))
    }
}

/// An executable result agrees with a parse outcome: `Ok` with the rest and the value
/// (by its view) of `Parsed`, `Err` with the input and code of `Failed`.
pub open spec fn agrees<'a, T: DeepView>(res: Result<(&'a [u8], T), ParseError<'a>>, st: Step<T::V>) -> bool {
    match res {
        Ok((rest, v)) => st == Step::Parsed(rest@, v.deep_view()),
        Err(e) => st == Step::<T::V>::Failed(e.input@, e.code),
    }
}

/// The bytes of `pat` start the input.
pub open spec fn sp_tag(s: Seq<u8>, pat: Seq<u8>) -> Step<()> {
    if pat.len() <= s.len() && s.take(pat.len() as int) == pat {
        Step::Parsed(s.skip(pat.len() as int), ())
    } else {
        Step::Failed(s, ErrorKind::Tag)
    }
}

/// The next `n` bytes.
pub open spec fn sp_take(s: Seq<u8>, n: nat) -> Step<Seq<u8>> {
    if n <= s.len() {
        Step::Parsed(s.skip(n as int), s.take(n as int))
    } else {
        Step::Failed(s, ErrorKind::Eof)
    }
}

/// A little-endian `u16`.
pub open spec fn sp_u16(s: Seq<u8>) -> Step<u16> {
    if 2 <= s.len() { Step::Parsed(s.skip(2), le2(s) as u16) } else { Step::Failed(s, ErrorKind::Eof) }
}

/// A little-endian `i16` in two's complement.
pub open spec fn sp_i16(s: Seq<u8>) -> Step<i16> {
    if 2 <= s.len() { Step::Parsed(s.skip(2), signed16(le2(s)) as i16) } else { Step::Failed(s, ErrorKind::Eof) }
}

/// A little-endian `u32`.
pub open spec fn sp_u32(s: Seq<u8>) -> Step<u32> {
    if 4 <= s.len() { Step::Parsed(s.skip(4), le4(s) as u32) } else { Step::Failed(s, ErrorKind::Eof) }
}

/// A little-endian `i32` in two's complement.
pub open spec fn sp_i32(s: Seq<u8>) -> Step<i32> {
    if 4 <= s.len() { Step::Parsed(s.skip(4), signed32(le4(s)) as i32) } else { Step::Failed(s, ErrorKind::Eof) }
}

/// No byte of `b` is zero.
pub open spec fn nul_free(b: Seq<u8>) -> bool {
    forall|j: int| 0 <= j < b.len() ==> b[j] != 0
}

/// The bytes up to the first zero byte, which is left in the rest.
#[verifier::opaque]
pub open spec fn sp_until_nul(s: Seq<u8>) -> Step<Seq<u8>> {
    if s.contains(0u8) {
        let k = choose|k: int| 0 <= k < s.len() && s[k] == 0 && forall|j: int| 0 <= j < k ==> s[j] != 0;
        Step::Parsed(s.skip(k), s.take(k))
    } else {
        Step::Failed(s, ErrorKind::TakeUntil)
    }
}

/// A zero-terminated chunk: the bytes up to the first zero byte, which is consumed too.
#[verifier::opaque]
pub open spec fn sp_nul_terminated_chunk(s: Seq<u8>) -> Step<Seq<u8>> {
    sp_until_nul(s).and_then(|r: Seq<u8>, chunk: Seq<u8>|
        sp_tag(r, seq![0u8]).and_then(|r2: Seq<u8>, _u: ()| Step::Parsed(r2, chunk)))
}

/// The characters of `bytes`, outside the domain where they are not UTF-8.
pub open spec fn sp_text(rest: Seq<u8>, bytes: Seq<u8>) -> Step<Seq<char>> {
    if valid_utf8(bytes) { Step::Parsed(rest, decode_utf8(bytes)) } else { Step::OutOfDomain }
}

/// A zero-terminated string.
#[verifier::opaque]
pub open spec fn sp_nul_terminated_str(s: Seq<u8>) -> Step<Seq<char>> {
    sp_nul_terminated_chunk(s).and_then(|r: Seq<u8>, chunk: Seq<u8>| sp_text(r, chunk))
}

/// A string of `n` bytes.
#[verifier::opaque]
pub open spec fn sp_fixed_length_str(s: Seq<u8>, n: nat) -> Step<Seq<char>> {
    sp_take(s, n).and_then(|r: Seq<u8>, chunk: Seq<u8>| sp_text(r, chunk))
}

/// `n` values read one after the other by `p`; the first failure stops the run.
pub open spec fn sp_count<T>(p: spec_fn(Seq<u8>) -> Step<T>, s: Seq<u8>, n: nat) -> Step<Seq<T>>
    decreases n,
{
    if n == 0 {
        Step::Parsed(s, Seq::empty())
    } else {
        sp_count(p, s, (n - 1) as nat).and_then(|r: Seq<u8>, vs: Seq<T>|
            p(r).and_then(|r2: Seq<u8>, v: T| Step::Parsed(r2, vs.push(v))))
    }
}

/// The number of entries that a count field announces when the count includes one
/// more entry stored apart: `count - 1` taken as a `usize`. A count below 1 wraps to
/// more entries than an input that fits in memory holds (see `law_map_block_entries`).
pub open spec fn entries_before_last(count: i16) -> nat {
    ((count - 1) as usize) as nat
}

/// The number of values that a count field announces: the count taken as a `usize`.
/// A negative count wraps to more values than an input that fits in memory holds (see
/// `law_fixed_parameters_counts`).
pub open spec fn entries(count: i16) -> nat {
    (count as usize) as nat
}

/// The names that start the blocks, each with its terminating zero byte.
pub const BLOCK_ID_MAP: &'static str = "Map\0";
pub const BLOCK_ID_GENPARAMS: &'static str = "GenParams\0";
pub const BLOCK_ID_SUPPARAMS: &'static str = "SupParams\0";
pub const BLOCK_ID_FXDPARAMS: &'static str = "FxdParams\0";
pub const BLOCK_ID_KEYEVENTS: &'static str = "KeyEvents\0";
pub const BLOCK_ID_LNKPARAMS: &'static str = "LnkParams\0";
pub const BLOCK_ID_DATAPTS: &'static str = "DataPts\0";
pub const BLOCK_ID_CHECKSUM: &'static str = "Cksum\0";

/// One entry of the map: a zero-terminated name, a revision and a size.
#[verifier::opaque]
pub open spec fn sp_block_info(s: Seq<u8>) -> Step<SpecBlockInfo> {
    sp_nul_terminated_str(s).and_then(|s: Seq<u8>, identifier: Seq<char>|
    sp_u16(s).and_then(|s: Seq<u8>, revision_number: u16|
    sp_i32(s).and_then(|s: Seq<u8>, size: i32|
    Step::Parsed(s, SpecBlockInfo { identifier, revision_number, size }))))
}

/// `sp_block_info` as a value.
pub open spec fn block_info_parser() -> spec_fn(Seq<u8>) -> Step<SpecBlockInfo> {
    |s: Seq<u8>| sp_block_info(s)
}

/// `sp_i16` as a value.
pub open spec fn i16_parser() -> spec_fn(Seq<u8>) -> Step<i16> {
    |s: Seq<u8>| sp_i16(s)
}

/// `sp_i32` as a value.
pub open spec fn i32_parser() -> spec_fn(Seq<u8>) -> Step<i32> {
    |s: Seq<u8>| sp_i32(s)
}

/// `sp_key_event` as a value.
pub open spec fn key_event_parser() -> spec_fn(Seq<u8>) -> Step<SpecKeyEvent> {
    |s: Seq<u8>| sp_key_event(s)
}

/// The map block: its name, revision, size and entry count, then the entries. The
/// count includes the map block itself, which has no entry.
#[verifier::opaque]
pub open spec fn spec_map_block(s: Seq<u8>) -> Step<SpecMapBlock> {
    sp_tag(s, BLOCK_ID_MAP.spec_bytes()).and_then(|s: Seq<u8>, _u: ()| Step::Parsed(s, arbitrary()))
        .read(|s| sp_u16(s), |b: SpecMapBlock, v| SpecMapBlock { revision_number: v, ..b })
        .read(|s| sp_i32(s), |b: SpecMapBlock, v| SpecMapBlock { block_size: v, ..b })
        .read(|s| sp_i16(s), |b: SpecMapBlock, v| SpecMapBlock { block_count: v, ..b })
        .read_with(
            |s, b: SpecMapBlock|
                if b.block_count == i16::MIN {
                    Step::OutOfDomain
                } else {
                    sp_count(block_info_parser(), s, entries_before_last(b.block_count))
                },
            |b: SpecMapBlock, v| SpecMapBlock { block_info: v, ..b },
        )
}

/// The general parameters block: its name, then its fields in order.
#[verifier::opaque]
pub open spec fn spec_general_parameters_block(s: Seq<u8>) -> Step<SpecGeneralParametersBlock> {
    sp_tag(s, BLOCK_ID_GENPARAMS.spec_bytes()).and_then(|s: Seq<u8>, _u: ()| Step::Parsed(s, arbitrary()))
        .read(|s| sp_fixed_length_str(s, 2), |b: SpecGeneralParametersBlock, v| SpecGeneralParametersBlock { language_code: v, ..b })
        .read(|s| sp_nul_terminated_str(s), |b: SpecGeneralParametersBlock, v| SpecGeneralParametersBlock { cable_id: v, ..b })
        .read(|s| sp_nul_terminated_str(s), |b: SpecGeneralParametersBlock, v| SpecGeneralParametersBlock { fiber_id: v, ..b })
        .read(|s| sp_i16(s), |b: SpecGeneralParametersBlock, v| SpecGeneralParametersBlock { fiber_type: v, ..b })
        .read(|s| sp_i16(s), |b: SpecGeneralParametersBlock, v| SpecGeneralParametersBlock { nominal_wavelength: v, ..b })
        .read(|s| sp_nul_terminated_str(s), |b: SpecGeneralParametersBlock, v| SpecGeneralParametersBlock { originating_location: v, ..b })
        .read(|s| sp_nul_terminated_str(s), |b: SpecGeneralParametersBlock, v| SpecGeneralParametersBlock { terminating_location: v, ..b })
        .read(|s| sp_nul_terminated_str(s), |b: SpecGeneralParametersBlock, v| SpecGeneralParametersBlock { cable_code: v, ..b })
        .read(|s| sp_fixed_length_str(s, 2), |b: SpecGeneralParametersBlock, v| SpecGeneralParametersBlock { current_data_flag: v, ..b })
        .read(|s| sp_i32(s), |b: SpecGeneralParametersBlock, v| SpecGeneralParametersBlock { user_offset: v, ..b })
        .read(|s| sp_i32(s), |b: SpecGeneralParametersBlock, v| SpecGeneralParametersBlock { user_offset_distance: v, ..b })
        .read(|s| sp_nul_terminated_str(s), |b: SpecGeneralParametersBlock, v| SpecGeneralParametersBlock { operator: v, ..b })
        .read(|s| sp_nul_terminated_str(s), |b: SpecGeneralParametersBlock, v| SpecGeneralParametersBlock { comment: v, ..b })
}

/// The supplier parameters block: its name, then seven zero-terminated strings.
#[verifier::opaque]
pub open spec fn spec_supplier_parameters_block(s: Seq<u8>) -> Step<SpecSupplierParametersBlock> {
    sp_tag(s, BLOCK_ID_SUPPARAMS.spec_bytes()).and_then(|s: Seq<u8>, _u: ()| Step::Parsed(s, arbitrary()))
        .read(|s| sp_nul_terminated_str(s), |b: SpecSupplierParametersBlock, v| SpecSupplierParametersBlock { supplier_name: v, ..b })
        .read(|s| sp_nul_terminated_str(s), |b: SpecSupplierParametersBlock, v| SpecSupplierParametersBlock { otdr_mainframe_id: v, ..b })
        .read(|s| sp_nul_terminated_str(s), |b: SpecSupplierParametersBlock, v| SpecSupplierParametersBlock { otdr_mainframe_sn: v, ..b })
        .read(|s| sp_nul_terminated_str(s), |b: SpecSupplierParametersBlock, v| SpecSupplierParametersBlock { optical_module_id: v, ..b })
        .read(|s| sp_nul_terminated_str(s), |b: SpecSupplierParametersBlock, v| SpecSupplierParametersBlock { optical_module_sn: v, ..b })
        .read(|s| sp_nul_terminated_str(s), |b: SpecSupplierParametersBlock, v| SpecSupplierParametersBlock { software_revision: v, ..b })
        .read(|s| sp_nul_terminated_str(s), |b: SpecSupplierParametersBlock, v| SpecSupplierParametersBlock { other: v, ..b })
}

/// The fixed parameters block: its name, then its fields in order; the pulse widths
/// and the data point counts are runs as long as the pulse width count announces.
#[verifier::opaque]
pub open spec fn spec_fixed_parameters_block(s: Seq<u8>) -> Step<SpecFixedParametersBlock> {
    sp_tag(s, BLOCK_ID_FXDPARAMS.spec_bytes()).and_then(|s: Seq<u8>, _u: ()| Step::Parsed(s, arbitrary()))
        .read(|s| sp_u32(s), |b: SpecFixedParametersBlock, v| SpecFixedParametersBlock { date_time_stamp: v, ..b })
        .read(|s| sp_fixed_length_str(s, 2), |b: SpecFixedParametersBlock, v| SpecFixedParametersBlock { units_of_distance: v, ..b })
        .read(|s| sp_i16(s), |b: SpecFixedParametersBlock, v| SpecFixedParametersBlock { actual_wavelength: v, ..b })
        .read(|s| sp_i32(s), |b: SpecFixedParametersBlock, v| SpecFixedParametersBlock { acquisition_offset: v, ..b })
        .read(|s| sp_i32(s), |b: SpecFixedParametersBlock, v| SpecFixedParametersBlock { acquisition_offset_distance: v, ..b })
        .read(|s| sp_i16(s), |b: SpecFixedParametersBlock, v| SpecFixedParametersBlock { total_n_pulse_widths_used: v, ..b })
        .read_with(
            |s, b: SpecFixedParametersBlock| sp_count(i16_parser(), s, entries(b.total_n_pulse_widths_used)),
            |b: SpecFixedParametersBlock, v| SpecFixedParametersBlock { pulse_widths_used: v, ..b },
        )
        .read(|s| sp_i32(s), |b: SpecFixedParametersBlock, v| SpecFixedParametersBlock { data_spacing: v, ..b })
        .read_with(
            |s, b: SpecFixedParametersBlock| sp_count(i32_parser(), s, entries(b.total_n_pulse_widths_used)),
            |b: SpecFixedParametersBlock, v| SpecFixedParametersBlock { n_data_points_for_pulse_widths_used: v, ..b },
        )
        .read(|s| sp_i32(s), |b: SpecFixedParametersBlock, v| SpecFixedParametersBlock { group_index: v, ..b })
        .read(|s| sp_i16(s), |b: SpecFixedParametersBlock, v| SpecFixedParametersBlock { backscatter_coefficient: v, ..b })
        .read(|s| sp_i32(s), |b: SpecFixedParametersBlock, v| SpecFixedParametersBlock { number_of_averages: v, ..b })
        .read(|s| sp_u16(s), |b: SpecFixedParametersBlock, v| SpecFixedParametersBlock { averaging_time: v, ..b })
        .read(|s| sp_i32(s), |b: SpecFixedParametersBlock, v| SpecFixedParametersBlock { acquisition_range: v, ..b })
        .read(|s| sp_i32(s), |b: SpecFixedParametersBlock, v| SpecFixedParametersBlock { acquisition_range_distance: v, ..b })
        .read(|s| sp_i32(s), |b: SpecFixedParametersBlock, v| SpecFixedParametersBlock { front_panel_offset: v, ..b })
        .read(|s| sp_u16(s), |b: SpecFixedParametersBlock, v| SpecFixedParametersBlock { noise_floor_level: v, ..b })
        .read(|s| sp_i16(s), |b: SpecFixedParametersBlock, v| SpecFixedParametersBlock { noise_floor_scale_factor: v, ..b })
        .read(|s| sp_u16(s), |b: SpecFixedParametersBlock, v| SpecFixedParametersBlock { power_offset_first_point: v, ..b })
        .read(|s| sp_u16(s), |b: SpecFixedParametersBlock, v| SpecFixedParametersBlock { loss_threshold: v, ..b })
        .read(|s| sp_u16(s), |b: SpecFixedParametersBlock, v| SpecFixedParametersBlock { reflectance_threshold: v, ..b })
        .read(|s| sp_u16(s), |b: SpecFixedParametersBlock, v| SpecFixedParametersBlock { end_of_fibre_threshold: v, ..b })
        .read(|s| sp_fixed_length_str(s, 2), |b: SpecFixedParametersBlock, v| SpecFixedParametersBlock { trace_type: v, ..b })
        .read(|s| sp_i32(s), |b: SpecFixedParametersBlock, v| SpecFixedParametersBlock { window_coordinate_1: v, ..b })
        .read(|s| sp_i32(s), |b: SpecFixedParametersBlock, v| SpecFixedParametersBlock { window_coordinate_2: v, ..b })
        .read(|s| sp_i32(s), |b: SpecFixedParametersBlock, v| SpecFixedParametersBlock { window_coordinate_3: v, ..b })
        .read(|s| sp_i32(s), |b: SpecFixedParametersBlock, v| SpecFixedParametersBlock { window_coordinate_4: v, ..b })
}

/// One key event.
#[verifier::opaque]
pub open spec fn sp_key_event(s: Seq<u8>) -> Step<SpecKeyEvent> {
    Step::Parsed(s, arbitrary())
        .read(|s| sp_i16(s), |b: SpecKeyEvent, v| SpecKeyEvent { event_number: v, ..b })
        .read(|s| sp_i32(s), |b: SpecKeyEvent, v| SpecKeyEvent { event_propogation_time: v, ..b })
        .read(|s| sp_i16(s), |b: SpecKeyEvent, v| SpecKeyEvent { attenuation_coefficient_lead_in_fiber: v, ..b })
        .read(|s| sp_i16(s), |b: SpecKeyEvent, v| SpecKeyEvent { event_loss: v, ..b })
        .read(|s| sp_i32(s), |b: SpecKeyEvent, v| SpecKeyEvent { event_reflectance: v, ..b })
        .read(|s| sp_fixed_length_str(s, 6), |b: SpecKeyEvent, v| SpecKeyEvent { event_code: v, ..b })
        .read(|s| sp_fixed_length_str(s, 2), |b: SpecKeyEvent, v| SpecKeyEvent { loss_measurement_technique: v, ..b })
        .read(|s| sp_i32(s), |b: SpecKeyEvent, v| SpecKeyEvent { marker_location_1: v, ..b })
        .read(|s| sp_i32(s), |b: SpecKeyEvent, v| SpecKeyEvent { marker_location_2: v, ..b })
        .read(|s| sp_i32(s), |b: SpecKeyEvent, v| SpecKeyEvent { marker_location_3: v, ..b })
        .read(|s| sp_i32(s), |b: SpecKeyEvent, v| SpecKeyEvent { marker_location_4: v, ..b })
        .read(|s| sp_i32(s), |b: SpecKeyEvent, v| SpecKeyEvent { marker_location_5: v, ..b })
        .read(|s| sp_nul_terminated_str(s), |b: SpecKeyEvent, v| SpecKeyEvent { comment: v, ..b })
}

/// The last key event: the fields of a key event, then the loss figures of the whole fibre.
#[verifier::opaque]
pub open spec fn sp_last_key_event(s: Seq<u8>) -> Step<SpecLastKeyEvent> {
    Step::Parsed(s, arbitrary())
        .read(|s| sp_key_event(s), |b: SpecLastKeyEvent, v| SpecLastKeyEvent { event: v, ..b })
        .read(|s| sp_i32(s), |b: SpecLastKeyEvent, v| SpecLastKeyEvent { end_to_end_loss: v, ..b })
        .read(|s| sp_i32(s), |b: SpecLastKeyEvent, v| SpecLastKeyEvent { end_to_end_marker_position_1: v, ..b })
        .read(|s| sp_i32(s), |b: SpecLastKeyEvent, v| SpecLastKeyEvent { end_to_end_marker_position_2: v, ..b })
        .read(|s| sp_u16(s), |b: SpecLastKeyEvent, v| SpecLastKeyEvent { optical_return_loss: v, ..b })
        .read(|s| sp_i32(s), |b: SpecLastKeyEvent, v| SpecLastKeyEvent { optical_return_loss_marker_position_1: v, ..b })
        .read(|s| sp_i32(s), |b: SpecLastKeyEvent, v| SpecLastKeyEvent { optical_return_loss_marker_position_2: v, ..b })
}

/// The key events block: its name and the event count, then all events but the last,
/// then the last event.
#[verifier::opaque]
pub open spec fn spec_key_events_block(s: Seq<u8>) -> Step<SpecKeyEvents> {
    sp_tag(s, BLOCK_ID_KEYEVENTS.spec_bytes()).and_then(|s: Seq<u8>, _u: ()| Step::Parsed(s, arbitrary()))
        .read(|s| sp_i16(s), |b: SpecKeyEvents, v| SpecKeyEvents { number_of_key_events: v, ..b })
        .read_with(
            |s, b: SpecKeyEvents|
                if b.number_of_key_events == i16::MIN {
                    Step::OutOfDomain
                } else {
                    sp_count(key_event_parser(), s, entries_before_last(b.number_of_key_events))
                },
            |b: SpecKeyEvents, v| SpecKeyEvents { key_events: v, ..b },
        )
        .read(|s| sp_last_key_event(s), |b: SpecKeyEvents, v| SpecKeyEvents { last_key_event: v, ..b })
}

/// The leading blocks of a file, one after the other: the map, then the general, the
/// supplier and the fixed parameters.
#[verifier::opaque]
pub open spec fn spec_parse_file(s: Seq<u8>) -> Step<SpecSORFile> {
    Step::Parsed(s, arbitrary())
        .read(|s| spec_map_block(s), |b: SpecSORFile, v| SpecSORFile { map: v, ..b })
        .read(|s| spec_general_parameters_block(s), |b: SpecSORFile, v| SpecSORFile { general_parameters: v, ..b })
        .read(|s| spec_supplier_parameters_block(s), |b: SpecSORFile, v| SpecSORFile { supplier_parameters: v, ..b })
        .read(|s| spec_fixed_parameters_block(s), |b: SpecSORFile, v| SpecSORFile { fixed_parameters: v, ..b })
}

/// Where the block named `name` lies, by the sizes that the map entries list: the
/// entries are scanned from `offset` on, each size taken as a `usize`; the result is the
/// offset of the first entry named `name` and its size, or, where no entry bears the
/// name, the offset after all entries and the last size seen (`len` if none).
pub open spec fn locate_block(infos: Seq<SpecBlockInfo>, name: Seq<char>, offset: int, len: int) -> (int, int)
    decreases infos.len(),
{
    if infos.len() == 0 {
        (offset, len)
    } else {
        let size = (infos[0].size as usize) as int;
        if infos[0].identifier == name {
            (offset, size)
        } else {
            locate_block(infos.drop_first(), name, offset + size, size)
        }
    }
}

/// No offset that the scan of `locate_block` forms exceeds `usize::MAX`.
pub open spec fn locate_block_fits(infos: Seq<SpecBlockInfo>, name: Seq<char>, offset: int) -> bool
    decreases infos.len(),
{
    infos.len() == 0 || infos[0].identifier == name || {
        let next = offset + (infos[0].size as usize) as int;
        next <= usize::MAX && locate_block_fits(infos.drop_first(), name, next)
    }
}

/// The map of `data` parses, and the block named `name` lies, by its entries, within
/// `data`; the blocks start after the map block, whose size is taken as a `usize`.
pub open spec fn section_in_file(data: Seq<u8>, name: Seq<char>) -> bool {
    match spec_map_block(data) {
        Step::Parsed(_, map) => {
            let start = (map.block_size as usize) as int;
            let (offset, len) = locate_block(map.block_info, name, start, 0);
            &&& locate_block_fits(map.block_info, name, start)
            &&& offset + len <= data.len()
        },
        _ => false,
    }
}

/// The bytes of the block named `name`, for a file where `section_in_file` holds.
pub open spec fn section_of(data: Seq<u8>, name: Seq<char>) -> Seq<u8> {
    match spec_map_block(data) {
        Step::Parsed(_, map) => {
            let (offset, len) = locate_block(map.block_info, name, (map.block_size as usize) as int, 0);
            data.subrange(offset, offset + len)
        },
        _ => Seq::empty(),
    }
}

} // verus!

verus! {

/// The first zero byte of `s` stands at `k`.
pub proof fn lemma_first_nul(s: Seq<u8>, k: int)
    requires
        0 <= k < s.len(),
        s[k] == 0,
        forall|j: int| 0 <= j < k ==> s[j] != 0,
    ensures
        sp_until_nul(s) == Step::Parsed(s.skip(k), s.take(k)),
{
    reveal(sp_until_nul);
    assert(s.contains(0u8));
    let c = choose|c: int| 0 <= c < s.len() && s[c] == 0 && forall|j: int| 0 <= j < c ==> s[j] != 0;
    if c < k {
        assert(s[c] != 0);
    } else if k < c {
        assert(s[k] != 0);
    }
}

/// The first zero byte at or before a known one.
pub proof fn first_zero(s: Seq<u8>, k: int) -> (first: int)
    requires
        0 <= k < s.len(),
        s[k] == 0,
    ensures
        0 <= first <= k,
        s[first] == 0,
        forall|j: int| 0 <= j < first ==> s[j] != 0,
    decreases k,
{
    if exists|j: int| 0 <= j < k && s[j] == 0 {
        let j = choose|j: int| 0 <= j < k && s[j] == 0;
        first_zero(s, j)
    } else {
        k
    }
}

/// Without a zero byte, the search for one fails where it began.
pub proof fn lemma_no_nul(s: Seq<u8>)
    requires
        forall|j: int| 0 <= j < s.len() ==> s[j] != 0,
    ensures
        sp_until_nul(s) == Step::<Seq<u8>>::Failed(s, ErrorKind::TakeUntil),
{
    reveal(sp_until_nul);
}

/// A byte slice is viewed deeply as its own bytes.
pub proof fn lemma_bytes_deep_view(b: &[u8])
    ensures
        b.deep_view() == b@,
{
    assert(b.deep_view() =~= b@);
}

/// Once a run of values stops parsing, longer runs stop in the same way.
pub proof fn lemma_count_stops<T>(p: spec_fn(Seq<u8>) -> Step<T>, s: Seq<u8>, j: nat, m: nat)
    requires
        j <= m,
        !(sp_count(p, s, j) is Parsed),
    ensures
        sp_count(p, s, m) == sp_count(p, s, j),
    decreases m,
{
    if m > j {
        lemma_count_stops(p, s, j, (m - 1) as nat);
    }
}

/// The bytes of the one-character string "\0".
pub proof fn lemma_nul_bytes()
    ensures
        "\0".spec_bytes() == seq![0u8],
{
    reveal_strlit("\0");
    vstd::string::is_ascii_spec_bytes("\0");
    assert("\0".spec_bytes() =~= seq![0u8]);
}

} // verus!
