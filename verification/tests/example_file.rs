use otdr_sor::parser::{
    fixed_parameters_block, general_parameters_block, key_events_block, map_block,
    null_terminated_chunk, parse_file, supplier_parameters_block, test_load_file_section,
};
use otdr_sor::spec::{BLOCK_ID_FXDPARAMS, BLOCK_ID_GENPARAMS, BLOCK_ID_KEYEVENTS, BLOCK_ID_SUPPARAMS};
use otdr_sor::{
    BlockInfo, FixedParametersBlock, GeneralParametersBlock, KeyEvent, KeyEvents, LastKeyEvent,
    MapBlock, SupplierParametersBlock,
};

// The example trace is rebuilt here from the values that the tests expect: the map
// block and the blocks that the tests read hold exactly those values, the other blocks
// are zero bytes of the sizes that the map lists.

fn put_u16(v: &mut Vec<u8>, x: u16) {
    v.extend_from_slice(&x.to_le_bytes());
}
fn put_i16(v: &mut Vec<u8>, x: i16) {
    v.extend_from_slice(&x.to_le_bytes());
}
fn put_u32(v: &mut Vec<u8>, x: u32) {
    v.extend_from_slice(&x.to_le_bytes());
}
fn put_i32(v: &mut Vec<u8>, x: i32) {
    v.extend_from_slice(&x.to_le_bytes());
}
fn put_str(v: &mut Vec<u8>, s: &str) {
    v.extend_from_slice(s.as_bytes());
}

const BLOCKS: [(&str, i32); 10] = [
    ("GenParams", 58),
    ("SupParams", 104),
    ("FxdParams", 92),
    ("FodParams", 266),
    ("KeyEvents", 166),
    ("Fod02Params", 38),
    ("Fod04Params", 166),
    ("Fod03Params", 26),
    ("DataPts", 60020),
    ("Cksum", 8),
];

fn map_bytes() -> Vec<u8> {
    let mut v = Vec::new();
    put_str(&mut v, "Map\0");
    put_u16(&mut v, 200);
    put_i32(&mut v, 172);
    put_i16(&mut v, 11);
    for (name, size) in BLOCKS.iter() {
        put_str(&mut v, name);
        put_str(&mut v, "\0");
        put_u16(&mut v, 200);
        put_i32(&mut v, *size);
    }
    v
}

fn genparams_bytes() -> Vec<u8> {
    let mut v = Vec::new();
    put_str(&mut v, "GenParams\0");
    put_str(&mut v, "EN");
    put_str(&mut v, "C001 \0");
    put_str(&mut v, "009\0");
    put_i16(&mut v, 652);
    put_i16(&mut v, 1550);
    put_str(&mut v, "CAB000 \0");
    put_str(&mut v, "CLS007 \0");
    put_str(&mut v, " \0");
    put_str(&mut v, "NC");
    put_i32(&mut v, 24641);
    put_i32(&mut v, 503);
    put_str(&mut v, " \0");
    put_str(&mut v, " \0");
    v
}

fn supparams_bytes() -> Vec<u8> {
    let mut v = Vec::new();
    put_str(&mut v, "SupParams\0");
    put_str(&mut v, "Noyes\0");
    put_str(&mut v, "OFL280C-100\0");
    put_str(&mut v, "2G14PT7552     \0");
    put_str(&mut v, "0.0.43 \0");
    put_str(&mut v, " \0");
    put_str(&mut v, "1.2.04b1011F \0");
    put_str(&mut v, "Last Calibration Date:  2019-03-25 \0");
    v
}

fn fxdparams_bytes() -> Vec<u8> {
    let mut v = Vec::new();
    put_str(&mut v, "FxdParams\0");
    put_u32(&mut v, 1569835674);
    put_str(&mut v, "mt");
    put_i16(&mut v, 1550);
    put_i32(&mut v, -2147);
    put_i32(&mut v, -42);
    put_i16(&mut v, 1);
    put_i16(&mut v, 30);
    put_i32(&mut v, 100000);
    put_i32(&mut v, 30000);
    put_i32(&mut v, 146750);
    put_i16(&mut v, 802);
    put_i32(&mut v, 2704);
    put_u16(&mut v, 3000);
    put_i32(&mut v, 300000);
    put_i32(&mut v, 6000);
    put_i32(&mut v, 2147);
    put_u16(&mut v, 30342);
    put_i16(&mut v, 1000);
    put_u16(&mut v, 0);
    put_u16(&mut v, 50);
    put_u16(&mut v, 65000);
    put_u16(&mut v, 3000);
    put_str(&mut v, "ST");
    for _ in 0..4 {
        put_i32(&mut v, 0);
    }
    v
}

fn put_event(v: &mut Vec<u8>, number: i16, time: i32, attenuation: i16, loss: i16, reflectance: i32, code: &str) {
    put_i16(v, number);
    put_i32(v, time);
    put_i16(v, attenuation);
    put_i16(v, loss);
    put_i32(v, reflectance);
    put_str(v, code);
    put_str(v, "LS");
    for _ in 0..5 {
        put_i32(v, 0);
    }
    put_str(v, " \0");
}

fn keyevents_bytes() -> Vec<u8> {
    let mut v = Vec::new();
    put_str(&mut v, "KeyEvents\0");
    put_i16(&mut v, 3);
    put_event(&mut v, 1, 0, 0, -215, -46671, "1F9999");
    put_event(&mut v, 2, 532, 0, 374, 0, "0F9999");
    put_event(&mut v, 3, 182802, 185, -950, -23027, "2E9999");
    put_i32(&mut v, 576);
    put_i32(&mut v, 0);
    put_i32(&mut v, 182809);
    put_u16(&mut v, 24516);
    put_i32(&mut v, 0);
    put_i32(&mut v, 182809);
    v
}

fn example_file() -> Vec<u8> {
    let mut data = map_bytes();
    assert_eq!(data.len(), 172);
    for (name, size) in BLOCKS.iter() {
        let block = match *name {
            "GenParams" => genparams_bytes(),
            "SupParams" => supparams_bytes(),
            "FxdParams" => fxdparams_bytes(),
            "KeyEvents" => keyevents_bytes(),
            _ => vec![0u8; *size as usize],
        };
        assert_eq!(block.len(), *size as usize);
        data.extend_from_slice(&block);
    }
    data
}

#[test]
fn test_parse_file() {
    let data = example_file();
    let res = parse_file(&data);
    let sor = res.unwrap().1;
    assert_eq!(sor.map.revision_number, 200);
}

#[test]
fn test_key_events_block() {
    let file = example_file();
    let data = test_load_file_section(&file, BLOCK_ID_KEYEVENTS);
    let res = key_events_block(data);
    assert_eq!(
        res.unwrap().1,
        KeyEvents { number_of_key_events: 3, key_events: vec![KeyEvent { event_number: 1, event_propogation_time: 0, attenuation_coefficient_lead_in_fiber: 0, event_loss: -215, event_reflectance: -46671, event_code: "1F9999", loss_measurement_technique: "LS", marker_location_1: 0, marker_location_2: 0, marker_location_3: 0, marker_location_4: 0, marker_location_5: 0, comment: " " }, KeyEvent { event_number: 2, event_propogation_time: 532, attenuation_coefficient_lead_in_fiber: 0, event_loss: 374, event_reflectance: 0, event_code: "0F9999", loss_measurement_technique: "LS", marker_location_1: 0, marker_location_2: 0, marker_location_3: 0, marker_location_4: 0, marker_location_5: 0, comment: " " }], last_key_event: LastKeyEvent { event_number: 3, event_propogation_time: 182802, attenuation_coefficient_lead_in_fiber: 185, event_loss:
            -950, event_reflectance: -23027, event_code: "2E9999", loss_measurement_technique: "LS", marker_location_1: 0, marker_location_2: 0, marker_location_3: 0, marker_location_4: 0, marker_location_5: 0, comment: " ", end_to_end_loss: 576, end_to_end_marker_position_1: 0, end_to_end_marker_position_2: 182809, optical_return_loss: 24516, optical_return_loss_marker_position_1: 0, optical_return_loss_marker_position_2: 182809 } }
    );
}

#[test]
fn test_fixparam_block() {
    let file = example_file();
    let data = test_load_file_section(&file, BLOCK_ID_FXDPARAMS);
    let res = fixed_parameters_block(data);
    assert_eq!(
        res.unwrap().1,
        FixedParametersBlock {
            date_time_stamp: 1569835674,
            units_of_distance: "mt",
            actual_wavelength: 1550,
            acquisition_offset: -2147,
            acquisition_offset_distance: -42,
            total_n_pulse_widths_used: 1,
            pulse_widths_used: vec![30],
            data_spacing: 100000,
            n_data_points_for_pulse_widths_used: vec![30000],
            group_index: 146750,
            backscatter_coefficient: 802,
            number_of_averages: 2704,
            averaging_time: 3000,
            acquisition_range: 300000,
            acquisition_range_distance: 6000,
            front_panel_offset: 2147,
            noise_floor_level: 30342,
            noise_floor_scale_factor: 1000,
            power_offset_first_point: 0,
            loss_threshold: 50,
            reflectance_threshold: 65000,
            end_of_fibre_threshold: 3000,
            trace_type: "ST",
            window_coordinate_1: 0,
            window_coordinate_2: 0,
            window_coordinate_3: 0,
            window_coordinate_4: 0
        },
    );
}

#[test]
fn test_supparam_block() {
    let file = example_file();
    let data = test_load_file_section(&file, BLOCK_ID_SUPPARAMS);
    let res = supplier_parameters_block(data);
    assert_eq!(
        res.unwrap().1,
        SupplierParametersBlock {
            supplier_name: "Noyes",
            otdr_mainframe_id: "OFL280C-100",
            otdr_mainframe_sn: "2G14PT7552     ",
            optical_module_id: "0.0.43 ",
            optical_module_sn: " ",
            software_revision: "1.2.04b1011F ",
            other: "Last Calibration Date:  2019-03-25 "
        }
    );
}

#[test]
fn test_genparam_block() {
    let file = example_file();
    let data = test_load_file_section(&file, BLOCK_ID_GENPARAMS);
    let res = general_parameters_block(data);
    assert_eq!(
        res.unwrap().1,
        GeneralParametersBlock {
            language_code: "EN",
            cable_id: "C001 ",
            fiber_id: "009",
            fiber_type: 652,
            nominal_wavelength: 1550,
            originating_location: "CAB000 ",
            terminating_location: "CLS007 ",
            cable_code: " ",
            current_data_flag: "NC",
            user_offset: 24641,
            user_offset_distance: 503,
            operator: " ",
            comment: " "
        }
    );
}

#[test]
fn test_map_block() {
    let data = example_file();
    let res = map_block(&data);
    assert_eq!(
        res.unwrap().1,
        MapBlock {
            revision_number: 200,
            block_size: 172,
            block_count: 11,
            block_info: vec![
                BlockInfo { identifier: "GenParams", revision_number: 200, size: 58 },
                BlockInfo { identifier: "SupParams", revision_number: 200, size: 104 },
                BlockInfo { identifier: "FxdParams", revision_number: 200, size: 92 },
                BlockInfo { identifier: "FodParams", revision_number: 200, size: 266 },
                BlockInfo { identifier: "KeyEvents", revision_number: 200, size: 166 },
                BlockInfo { identifier: "Fod02Params", revision_number: 200, size: 38 },
                BlockInfo { identifier: "Fod04Params", revision_number: 200, size: 166 },
                BlockInfo { identifier: "Fod03Params", revision_number: 200, size: 26 },
                BlockInfo { identifier: "DataPts", revision_number: 200, size: 60020 },
                BlockInfo { identifier: "Cksum", revision_number: 200, size: 8 }
            ]
        }
    );
}

#[test]
fn test_null_terminated_chunk() {
    let test_str = "abcdef\0";
    let res = null_terminated_chunk(test_str.as_bytes());
    let data = res.unwrap();
    assert_eq!(data.0, "".as_bytes()); // make sure we've consumed the null
    assert_eq!(data.1, "abcdef".as_bytes());
}
