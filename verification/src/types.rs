//! The values that the parsers produce, and the mathematical value of each.
//!
//! Each executable type has a `DeepView` into a `Spec..` type of the same shape, in
//! which a string slice is its sequence of characters and a vector its sequence of views.

use vstd::prelude::*;

verus! {

/// What made a parse fail.
#[derive(Debug, Clone, Copy, PartialEq, Eq)]
pub enum ErrorKind {
    /// The input did not start with the expected bytes.
    Tag,
    /// Fewer bytes were left than a field needs.
    Eof,
    /// A string ran to the end of the input without its terminating zero byte.
    TakeUntil,
}

/// A failed parse: the input that was left where the failing step began, and why it failed.
#[derive(Debug, Clone, Copy, PartialEq, Eq)]
pub struct ParseError<'a> {
    pub input: &'a [u8],
    pub code: ErrorKind,
}

/// One entry of the map block: the name, revision and size of a block of the file.
#[derive(Debug, PartialEq)]
pub struct BlockInfo<'a> {
    pub identifier: &'a str,
    pub revision_number: u16,
    pub size: i32,
}

pub struct SpecBlockInfo {
    pub identifier: Seq<char>,
    pub revision_number: u16,
    pub size: i32,
}

impl<'a> DeepView for BlockInfo<'a> {
    type V = SpecBlockInfo;

    open spec fn deep_view(&self) -> SpecBlockInfo {
        SpecBlockInfo {
            identifier: self.identifier@,
            revision_number: self.revision_number,
            size: self.size,
        }
    }
}

/// The map block, which starts the file and lists the blocks after it.
#[derive(Debug, PartialEq)]
pub struct MapBlock<'a> {
    pub revision_number: u16,
    pub block_count: i16,
    pub block_size: i32,
    pub block_info: Vec<BlockInfo<'a>>,
}

pub struct SpecMapBlock {
    pub revision_number: u16,
    pub block_count: i16,
    pub block_size: i32,
    pub block_info: Seq<SpecBlockInfo>,
}

impl<'a> DeepView for MapBlock<'a> {
    type V = SpecMapBlock;

    open spec fn deep_view(&self) -> SpecMapBlock {
        SpecMapBlock {
            revision_number: self.revision_number,
            block_count: self.block_count,
            block_size: self.block_size,
            block_info: self.block_info.deep_view(),
        }
    }
}

/// The general parameters block: the cable, fibre and locations of the measurement.
#[derive(Debug, PartialEq)]
pub struct GeneralParametersBlock<'a> {
    pub language_code: &'a str,
    pub cable_id: &'a str,
    pub fiber_id: &'a str,
    pub fiber_type: i16,
    pub nominal_wavelength: i16,
    pub originating_location: &'a str,
    pub terminating_location: &'a str,
    pub cable_code: &'a str,
    pub current_data_flag: &'a str,
    pub user_offset: i32,
    pub user_offset_distance: i32,
    pub operator: &'a str,
    pub comment: &'a str,
}

pub struct SpecGeneralParametersBlock {
    pub language_code: Seq<char>,
    pub cable_id: Seq<char>,
    pub fiber_id: Seq<char>,
    pub fiber_type: i16,
    pub nominal_wavelength: i16,
    pub originating_location: Seq<char>,
    pub terminating_location: Seq<char>,
    pub cable_code: Seq<char>,
    pub current_data_flag: Seq<char>,
    pub user_offset: i32,
    pub user_offset_distance: i32,
    pub operator: Seq<char>,
    pub comment: Seq<char>,
}

impl<'a> DeepView for GeneralParametersBlock<'a> {
    type V = SpecGeneralParametersBlock;

    open spec fn deep_view(&self) -> SpecGeneralParametersBlock {
        SpecGeneralParametersBlock {
            language_code: self.language_code@,
            cable_id: self.cable_id@,
            fiber_id: self.fiber_id@,
            fiber_type: self.fiber_type,
            nominal_wavelength: self.nominal_wavelength,
            originating_location: self.originating_location@,
            terminating_location: self.terminating_location@,
            cable_code: self.cable_code@,
            current_data_flag: self.current_data_flag@,
            user_offset: self.user_offset,
            user_offset_distance: self.user_offset_distance,
            operator: self.operator@,
            comment: self.comment@,
        }
    }
}

/// The supplier parameters block: who made the instrument, and its serial numbers.
#[derive(Debug, PartialEq)]
pub struct SupplierParametersBlock<'a> {
    pub supplier_name: &'a str,
    pub otdr_mainframe_id: &'a str,
    pub otdr_mainframe_sn: &'a str,
    pub optical_module_id: &'a str,
    pub optical_module_sn: &'a str,
    pub software_revision: &'a str,
    pub other: &'a str,
}

pub struct SpecSupplierParametersBlock {
    pub supplier_name: Seq<char>,
    pub otdr_mainframe_id: Seq<char>,
    pub otdr_mainframe_sn: Seq<char>,
    pub optical_module_id: Seq<char>,
    pub optical_module_sn: Seq<char>,
    pub software_revision: Seq<char>,
    pub other: Seq<char>,
}

impl<'a> DeepView for SupplierParametersBlock<'a> {
    type V = SpecSupplierParametersBlock;

    open spec fn deep_view(&self) -> SpecSupplierParametersBlock {
        SpecSupplierParametersBlock {
            supplier_name: self.supplier_name@,
            otdr_mainframe_id: self.otdr_mainframe_id@,
            otdr_mainframe_sn: self.otdr_mainframe_sn@,
            optical_module_id: self.optical_module_id@,
            optical_module_sn: self.optical_module_sn@,
            software_revision: self.software_revision@,
            other: self.other@,
        }
    }
}

/// The fixed parameters block: how the trace was acquired.
#[derive(Debug, PartialEq)]
pub struct FixedParametersBlock<'a> {
    pub date_time_stamp: u32,
    pub units_of_distance: &'a str,
    pub actual_wavelength: i16,
    pub acquisition_offset: i32,
    pub acquisition_offset_distance: i32,
    pub total_n_pulse_widths_used: i16,
    pub pulse_widths_used: Vec<i16>,
    pub data_spacing: i32,
    pub n_data_points_for_pulse_widths_used: Vec<i32>,
    pub group_index: i32,
    pub backscatter_coefficient: i16,
    pub number_of_averages: i32,
    pub averaging_time: u16,
    pub acquisition_range: i32,
    pub acquisition_range_distance: i32,
    pub front_panel_offset: i32,
    pub noise_floor_level: u16,
    pub noise_floor_scale_factor: i16,
    pub power_offset_first_point: u16,
    pub loss_threshold: u16,
    pub reflectance_threshold: u16,
    pub end_of_fibre_threshold: u16,
    pub trace_type: &'a str,
    pub window_coordinate_1: i32,
    pub window_coordinate_2: i32,
    pub window_coordinate_3: i32,
    pub window_coordinate_4: i32,
}

pub struct SpecFixedParametersBlock {
    pub date_time_stamp: u32,
    pub units_of_distance: Seq<char>,
    pub actual_wavelength: i16,
    pub acquisition_offset: i32,
    pub acquisition_offset_distance: i32,
    pub total_n_pulse_widths_used: i16,
    pub pulse_widths_used: Seq<i16>,
    pub data_spacing: i32,
    pub n_data_points_for_pulse_widths_used: Seq<i32>,
    pub group_index: i32,
    pub backscatter_coefficient: i16,
    pub number_of_averages: i32,
    pub averaging_time: u16,
    pub acquisition_range: i32,
    pub acquisition_range_distance: i32,
    pub front_panel_offset: i32,
    pub noise_floor_level: u16,
    pub noise_floor_scale_factor: i16,
    pub power_offset_first_point: u16,
    pub loss_threshold: u16,
    pub reflectance_threshold: u16,
    pub end_of_fibre_threshold: u16,
    pub trace_type: Seq<char>,
    pub window_coordinate_1: i32,
    pub window_coordinate_2: i32,
    pub window_coordinate_3: i32,
    pub window_coordinate_4: i32,
}

impl<'a> DeepView for FixedParametersBlock<'a> {
    type V = SpecFixedParametersBlock;

    open spec fn deep_view(&self) -> SpecFixedParametersBlock {
        SpecFixedParametersBlock {
            date_time_stamp: self.date_time_stamp,
            units_of_distance: self.units_of_distance@,
            actual_wavelength: self.actual_wavelength,
            acquisition_offset: self.acquisition_offset,
            acquisition_offset_distance: self.acquisition_offset_distance,
            total_n_pulse_widths_used: self.total_n_pulse_widths_used,
            pulse_widths_used: self.pulse_widths_used.deep_view(),
            data_spacing: self.data_spacing,
            n_data_points_for_pulse_widths_used: self.n_data_points_for_pulse_widths_used.deep_view(),
            group_index: self.group_index,
            backscatter_coefficient: self.backscatter_coefficient,
            number_of_averages: self.number_of_averages,
            averaging_time: self.averaging_time,
            acquisition_range: self.acquisition_range,
            acquisition_range_distance: self.acquisition_range_distance,
            front_panel_offset: self.front_panel_offset,
            noise_floor_level: self.noise_floor_level,
            noise_floor_scale_factor: self.noise_floor_scale_factor,
            power_offset_first_point: self.power_offset_first_point,
            loss_threshold: self.loss_threshold,
            reflectance_threshold: self.reflectance_threshold,
            end_of_fibre_threshold: self.end_of_fibre_threshold,
            trace_type: self.trace_type@,
            window_coordinate_1: self.window_coordinate_1,
            window_coordinate_2: self.window_coordinate_2,
            window_coordinate_3: self.window_coordinate_3,
            window_coordinate_4: self.window_coordinate_4,
        }
    }
}

/// One key event of the trace (a splice, connector, bend or the fibre's end).
#[derive(Debug, PartialEq)]
pub struct KeyEvent<'a> {
    pub event_number: i16,
    pub event_propogation_time: i32,
    pub attenuation_coefficient_lead_in_fiber: i16,
    pub event_loss: i16,
    pub event_reflectance: i32,
    pub event_code: &'a str,
    pub loss_measurement_technique: &'a str,
    pub marker_location_1: i32,
    pub marker_location_2: i32,
    pub marker_location_3: i32,
    pub marker_location_4: i32,
    pub marker_location_5: i32,
    pub comment: &'a str,
}

pub struct SpecKeyEvent {
    pub event_number: i16,
    pub event_propogation_time: i32,
    pub attenuation_coefficient_lead_in_fiber: i16,
    pub event_loss: i16,
    pub event_reflectance: i32,
    pub event_code: Seq<char>,
    pub loss_measurement_technique: Seq<char>,
    pub marker_location_1: i32,
    pub marker_location_2: i32,
    pub marker_location_3: i32,
    pub marker_location_4: i32,
    pub marker_location_5: i32,
    pub comment: Seq<char>,
}

impl<'a> DeepView for KeyEvent<'a> {
    type V = SpecKeyEvent;

    open spec fn deep_view(&self) -> SpecKeyEvent {
        SpecKeyEvent {
            event_number: self.event_number,
            event_propogation_time: self.event_propogation_time,
            attenuation_coefficient_lead_in_fiber: self.attenuation_coefficient_lead_in_fiber,
            event_loss: self.event_loss,
            event_reflectance: self.event_reflectance,
            event_code: self.event_code@,
            loss_measurement_technique: self.loss_measurement_technique@,
            marker_location_1: self.marker_location_1,
            marker_location_2: self.marker_location_2,
            marker_location_3: self.marker_location_3,
            marker_location_4: self.marker_location_4,
            marker_location_5: self.marker_location_5,
            comment: self.comment@,
        }
    }
}

/// The last key event, which also carries the end-to-end loss and the optical return loss.
#[derive(Debug, PartialEq)]
pub struct LastKeyEvent<'a> {
    pub event_number: i16,
    pub event_propogation_time: i32,
    pub attenuation_coefficient_lead_in_fiber: i16,
    pub event_loss: i16,
    pub event_reflectance: i32,
    pub event_code: &'a str,
    pub loss_measurement_technique: &'a str,
    pub marker_location_1: i32,
    pub marker_location_2: i32,
    pub marker_location_3: i32,
    pub marker_location_4: i32,
    pub marker_location_5: i32,
    pub comment: &'a str,
    pub end_to_end_loss: i32,
    pub end_to_end_marker_position_1: i32,
    pub end_to_end_marker_position_2: i32,
    pub optical_return_loss: u16,
    pub optical_return_loss_marker_position_1: i32,
    pub optical_return_loss_marker_position_2: i32,
}

pub struct SpecLastKeyEvent {
    pub event: SpecKeyEvent,
    pub end_to_end_loss: i32,
    pub end_to_end_marker_position_1: i32,
    pub end_to_end_marker_position_2: i32,
    pub optical_return_loss: u16,
    pub optical_return_loss_marker_position_1: i32,
    pub optical_return_loss_marker_position_2: i32,
}

impl<'a> DeepView for LastKeyEvent<'a> {
    type V = SpecLastKeyEvent;

    open spec fn deep_view(&self) -> SpecLastKeyEvent {
        SpecLastKeyEvent {
            event: SpecKeyEvent {
                event_number: self.event_number,
                event_propogation_time: self.event_propogation_time,
                attenuation_coefficient_lead_in_fiber: self.attenuation_coefficient_lead_in_fiber,
                event_loss: self.event_loss,
                event_reflectance: self.event_reflectance,
                event_code: self.event_code@,
                loss_measurement_technique: self.loss_measurement_technique@,
                marker_location_1: self.marker_location_1,
                marker_location_2: self.marker_location_2,
                marker_location_3: self.marker_location_3,
                marker_location_4: self.marker_location_4,
                marker_location_5: self.marker_location_5,
                comment: self.comment@,
            },
            end_to_end_loss: self.end_to_end_loss,
            end_to_end_marker_position_1: self.end_to_end_marker_position_1,
            end_to_end_marker_position_2: self.end_to_end_marker_position_2,
            optical_return_loss: self.optical_return_loss,
            optical_return_loss_marker_position_1: self.optical_return_loss_marker_position_1,
            optical_return_loss_marker_position_2: self.optical_return_loss_marker_position_2,
        }
    }
}

/// The key events block: the number of events, all but the last, and the last.
#[derive(Debug, PartialEq)]
pub struct KeyEvents<'a> {
    pub number_of_key_events: i16,
    pub key_events: Vec<KeyEvent<'a>>,
    pub last_key_event: LastKeyEvent<'a>,
}

pub struct SpecKeyEvents {
    pub number_of_key_events: i16,
    pub key_events: Seq<SpecKeyEvent>,
    pub last_key_event: SpecLastKeyEvent,
}

impl<'a> DeepView for KeyEvents<'a> {
    type V = SpecKeyEvents;

    open spec fn deep_view(&self) -> SpecKeyEvents {
        SpecKeyEvents {
            number_of_key_events: self.number_of_key_events,
            key_events: self.key_events.deep_view(),
            last_key_event: self.last_key_event.deep_view(),
        }
    }
}

/// The leading blocks of a file: the map and the three parameter blocks.
#[derive(Debug, PartialEq)]
pub struct SORFile<'a> {
    pub map: MapBlock<'a>,
    pub general_parameters: GeneralParametersBlock<'a>,
    pub supplier_parameters: SupplierParametersBlock<'a>,
    pub fixed_parameters: FixedParametersBlock<'a>,
}

pub struct SpecSORFile {
    pub map: SpecMapBlock,
    pub general_parameters: SpecGeneralParametersBlock,
    pub supplier_parameters: SpecSupplierParametersBlock,
    pub fixed_parameters: SpecFixedParametersBlock,
}

impl<'a> DeepView for SORFile<'a> {
    type V = SpecSORFile;

    open spec fn deep_view(&self) -> SpecSORFile {
        SpecSORFile {
            map: self.map.deep_view(),
            general_parameters: self.general_parameters.deep_view(),
            supplier_parameters: self.supplier_parameters.deep_view(),
            fixed_parameters: self.fixed_parameters.deep_view(),
        }
    }
}

} // verus!
