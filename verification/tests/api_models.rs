use xsensor::api::ble::{ble_error, find_characteristic, get_service_name, list_ui_services, BleError};
use xsensor::api::uuid_text::{parse_uuid, uuid_to_text};
use xsensor::api::{
    devices_from_snapshots, make_ui_device, prop_flags_to_vec, rank_of, sort_devices,
    uuids_to_texts, CharacteristicInfo, PeripheralSnapshot, ServiceInfo, UiCharacteristic,
    UiDevice,
};

const SENSOR: u128 = 0x0000ffe0_0000_1000_8000_00805f9b34fb;
const PS_DATA: u128 = 0x0000ffe6_0000_1000_8000_00805f9b34fb;
const BATTERY: u128 = 0x0000180f_0000_1000_8000_00805f9b34fb;
const BATTERY_LEVEL: u128 = 0x00002a19_0000_1000_8000_00805f9b34fb;

fn device(id: &str, connected: bool, rssi: Option<i16>) -> UiDevice {
    UiDevice {
        id: id.to_string(),
        name: id.to_string(),
        is_connected: connected,
        rssi,
        services: Vec::new(),
    }
}

#[test]
fn prop_flags_names_in_order() {
    assert_eq!(prop_flags_to_vec(0), Vec::<String>::new());
    assert_eq!(prop_flags_to_vec(0x02), vec!["read".to_string()]);
    assert_eq!(
        prop_flags_to_vec(0x3e),
        vec!["read", "write", "write_without_response", "notify", "indicate"]
    );
    // broadcast, signed writes and extended properties are not listed
    assert_eq!(prop_flags_to_vec(0xc1), Vec::<String>::new());
    assert_eq!(prop_flags_to_vec(0x12), vec!["read", "notify"]);
}

#[test]
fn uuid_text_is_hyphenated_lower_case() {
    assert_eq!(uuid_to_text(SENSOR), "0000ffe0-0000-1000-8000-00805f9b34fb");
    assert_eq!(uuid_to_text(0), "00000000-0000-0000-0000-000000000000");
    assert_eq!(uuid_to_text(u128::MAX), "ffffffff-ffff-ffff-ffff-ffffffffffff");
}

#[test]
fn uuid_parse_round_trip_and_errors() {
    assert_eq!(parse_uuid(&uuid_to_text(PS_DATA)), Ok(PS_DATA));
    assert_eq!(parse_uuid("0000FFE0-0000-1000-8000-00805F9B34FB"), Ok(SENSOR));
    assert_eq!(parse_uuid(""), Err("invalid length: found 0".to_string()));
}

#[test]
fn characteristic_from_info() {
    let c = CharacteristicInfo { uuid: PS_DATA, service_uuid: SENSOR, properties: 0x0a };
    assert_eq!(
        UiCharacteristic::from_info(&c),
        UiCharacteristic {
            uuid: "0000ffe6-0000-1000-8000-00805f9b34fb".to_string(),
            service_uuid: "0000ffe0-0000-1000-8000-00805f9b34fb".to_string(),
            property: vec!["read".to_string(), "write".to_string()],
        }
    );
}

#[test]
fn service_names() {
    assert_eq!(get_service_name("0000180f-0000-1000-8000-00805f9b34fb"), "Battery Service");
    assert_eq!(get_service_name("00001800-0000-1000-8000-00805f9b34fb"), "Generic Access");
    assert_eq!(get_service_name("00001801-0000-1000-8000-00805f9b34fb"), "Generic Attribute");
    assert_eq!(get_service_name("0000180a-0000-1000-8000-00805f9b34fb"), "Device Information");
    assert_eq!(get_service_name("00001802-0000-1000-8000-00805f9b34fb"), "Immediate Alert");
    assert_eq!(get_service_name("0000ffe0-0000-1000-8000-00805f9b34fb"), "Unknown Service");
    assert_eq!(get_service_name("0000180F-0000-1000-8000-00805F9B34FB"), "Unknown Service");
}

#[test]
fn services_listed_under_their_uuid() {
    let services = vec![
        ServiceInfo {
            uuid: BATTERY,
            characteristics: vec![CharacteristicInfo {
                uuid: BATTERY_LEVEL,
                // the list shows the service's UUID, whatever the characteristic says
                service_uuid: SENSOR,
                properties: 0x12,
            }],
        },
        ServiceInfo { uuid: SENSOR, characteristics: vec![] },
    ];
    let list = list_ui_services(&services);
    assert_eq!(list.len(), 2);
    assert_eq!(list[0].uuid, "0000180f-0000-1000-8000-00805f9b34fb");
    assert_eq!(list[0].name, "Battery Service");
    assert_eq!(list[0].characteristic.len(), 1);
    assert_eq!(list[0].characteristic[0].uuid, "00002a19-0000-1000-8000-00805f9b34fb");
    assert_eq!(list[0].characteristic[0].service_uuid, "0000180f-0000-1000-8000-00805f9b34fb");
    assert_eq!(list[0].characteristic[0].property, vec!["read", "notify"]);
    assert_eq!(list[1].name, "Unknown Service");
    assert!(list[1].characteristic.is_empty());
}

#[test]
fn find_characteristic_cases() {
    let chars = vec![
        CharacteristicInfo { uuid: BATTERY_LEVEL, service_uuid: BATTERY, properties: 0x12 },
        CharacteristicInfo { uuid: PS_DATA, service_uuid: SENSOR, properties: 0x02 },
        CharacteristicInfo { uuid: PS_DATA, service_uuid: SENSOR, properties: 0x08 },
    ];
    let sensor = "0000ffe0-0000-1000-8000-00805f9b34fb";
    let ps = "0000ffe6-0000-1000-8000-00805f9b34fb";
    assert_eq!(find_characteristic(sensor, ps, &chars).unwrap(), 1);
    assert_eq!(
        find_characteristic("0000180f-0000-1000-8000-00805f9b34fb", "00002a19-0000-1000-8000-00805f9b34fb", &chars)
            .unwrap(),
        0
    );
    let e = find_characteristic("", ps, &chars).unwrap_err();
    assert_eq!(e.message(), "Invalid service UUID: invalid length: found 0");
    let e = find_characteristic(sensor, "", &chars).unwrap_err();
    assert_eq!(e.message(), "Invalid characteristic UUID: invalid length: found 0");
    let e = find_characteristic("0000180f-0000-1000-8000-00805f9b34fb", ps, &chars).unwrap_err();
    assert_eq!(e.message(), "Characteristic not found: 0000ffe6-0000-1000-8000-00805f9b34fb");
}

#[test]
fn ble_error_message() {
    assert_eq!(BleError::new("boom".to_string()).message(), "boom");
    assert_eq!(ble_error("Device not found").message(), "Device not found");
}

#[test]
fn unnamed_device_is_unknow() {
    let d = make_ui_device(PeripheralSnapshot {
        id: "AA:BB".to_string(),
        local_name: None,
        rssi: Some(-60),
        services: vec![SENSOR],
        is_connected: false,
    });
    assert_eq!(d.name, "Unknow");
    assert_eq!(d.id, "AA:BB");
    assert_eq!(d.rssi, Some(-60));
    assert_eq!(d.services, vec!["0000ffe0-0000-1000-8000-00805f9b34fb".to_string()]);
    assert!(!d.is_connected);
    let named = make_ui_device(PeripheralSnapshot {
        id: "CC".to_string(),
        local_name: Some("XSensor".to_string()),
        rssi: None,
        services: vec![],
        is_connected: true,
    });
    assert_eq!(named.name, "XSensor");
    assert!(named.is_connected);
    assert!(named.services.is_empty());
}

#[test]
fn uuid_texts_in_order() {
    assert_eq!(
        uuids_to_texts(&vec![BATTERY, SENSOR]),
        vec![
            "0000180f-0000-1000-8000-00805f9b34fb".to_string(),
            "0000ffe0-0000-1000-8000-00805f9b34fb".to_string()
        ]
    );
}

#[test]
fn rank_orders_connection_then_signal() {
    assert_eq!(rank_of(&device("a", false, None)), 0);
    assert_eq!(rank_of(&device("a", false, Some(0))), 32768);
    assert_eq!(rank_of(&device("a", true, Some(i16::MAX))), 65536 + 65535);
}

#[test]
fn sort_connected_first_then_strongest_stable() {
    let input = vec![
        device("weak", false, Some(-90)),
        device("unknown1", false, None),
        device("strong", false, Some(-40)),
        device("linked", true, Some(-95)),
        device("tie1", false, Some(-60)),
        device("unknown2", false, None),
        device("tie2", false, Some(-60)),
        device("min", false, Some(i16::MIN)),
    ];
    let out: Vec<String> = sort_devices(input).into_iter().map(|d| d.id).collect();
    assert_eq!(
        out,
        vec!["linked", "strong", "tie1", "tie2", "weak", "unknown1", "unknown2", "min"]
    );
    assert!(sort_devices(Vec::new()).is_empty());
}

#[test]
fn devices_from_reports_sorted() {
    let snaps = vec![
        PeripheralSnapshot { id: "a".into(), local_name: None, rssi: Some(-80), services: vec![], is_connected: false },
        PeripheralSnapshot { id: "b".into(), local_name: Some("B".into()), rssi: Some(-50), services: vec![], is_connected: false },
        PeripheralSnapshot { id: "c".into(), local_name: None, rssi: None, services: vec![SENSOR], is_connected: true },
    ];
    let out = devices_from_snapshots(snaps);
    let ids: Vec<&str> = out.iter().map(|d| d.id.as_str()).collect();
    assert_eq!(ids, vec!["c", "b", "a"]);
    assert_eq!(out[0].services, vec!["0000ffe0-0000-1000-8000-00805f9b34fb".to_string()]);
    assert_eq!(out[1].name, "B");
    assert_eq!(out[2].name, "Unknow");
}

#[test]
fn listed_characteristic_is_found_by_its_texts() {
    let chars = vec![
        CharacteristicInfo { uuid: BATTERY_LEVEL, service_uuid: SENSOR, properties: 0x02 },
        CharacteristicInfo { uuid: PS_DATA, service_uuid: SENSOR, properties: 0x02 },
    ];
    let services = vec![ServiceInfo { uuid: SENSOR, characteristics: chars.clone() }];
    let listed = list_ui_services(&services);
    for (j, c) in listed[0].characteristic.iter().enumerate() {
        assert_eq!(find_characteristic(&c.service_uuid, &c.uuid, &chars).unwrap(), j);
    }
}
