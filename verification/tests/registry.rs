use xsensor::api::ble::{
    access_next_step, access_start, AccessAction, AccessStep, PeripheralRegistry,
    PeripheralSource, RetryPolicy, StopScanAction,
};
use xsensor::api::{CharacteristicInfo, PeripheralSnapshot, ServiceInfo};

fn ids(v: &[&str]) -> Vec<String> {
    v.iter().map(|s| s.to_string()).collect()
}

fn snap(id: &str, connected: bool) -> PeripheralSnapshot {
    PeripheralSnapshot { id: id.to_string(), local_name: None, rssi: None, services: vec![], is_connected: connected }
}

#[test]
fn new_registry_is_empty() {
    let r = PeripheralRegistry::new();
    assert!(!r.is_known("a"));
    assert!(!r.is_marked_connected("a"));
    assert!(!r.is_scanning());
    assert!(r.known_ids().is_empty());
}

#[test]
fn connect_then_disconnect_keeps_known() {
    let mut r = PeripheralRegistry::new();
    r.mark_connected("dev");
    assert!(r.is_known("dev"));
    assert!(r.is_marked_connected("dev"));
    r.mark_connected("dev");
    assert_eq!(r.known_ids(), ids(&["dev"]));
    assert!(r.check_disconnect("dev").is_ok());
    r.mark_disconnected("dev");
    assert!(r.is_known("dev"));
    assert!(!r.is_marked_connected("dev"));
    assert_eq!(r.require_connected("dev").unwrap_err().message(), "Device not connected");
}

#[test]
fn disconnect_unknown_fails() {
    let r = PeripheralRegistry::new();
    assert_eq!(r.check_disconnect("ghost").unwrap_err().message(), "Peripheral not found");
}

#[test]
fn connect_source_prefers_fresh_then_known() {
    let mut r = PeripheralRegistry::new();
    let fresh = ids(&["x", "dev", "dev"]);
    assert_eq!(r.connect_source("dev", &fresh).unwrap(), PeripheralSource::Fresh(1));
    assert_eq!(r.connect_source("old", &fresh).unwrap_err().message(), "Device not found");
    r.mark_known("old");
    assert_eq!(r.connect_source("old", &fresh).unwrap(), PeripheralSource::Known);
    assert!(!r.is_marked_connected("old"));
}

#[test]
fn record_peripherals_adds_each_once() {
    let mut r = PeripheralRegistry::new();
    r.record_peripherals(&ids(&["a", "b", "a"]));
    r.record_peripherals(&ids(&["b", "c"]));
    let mut k = r.known_ids();
    k.sort();
    assert_eq!(k, ids(&["a", "b", "c"]));
    assert!(!r.is_marked_connected("a"));
}

#[test]
fn snapshots_update_connections_in_order() {
    let mut r = PeripheralRegistry::new();
    r.mark_connected("a");
    r.record_peripherals(&ids(&["b"]));
    r.apply_snapshots(&vec![snap("a", false), snap("b", true), snap("c", true), snap("c", false)]);
    assert!(!r.is_marked_connected("a"));
    assert!(r.is_known("a"));
    assert!(r.is_marked_connected("b"));
    assert!(!r.is_marked_connected("c"));
    assert!(r.is_known("c"));
}

#[test]
fn refresh_and_settle() {
    let mut r = PeripheralRegistry::new();
    assert_eq!(
        r.apply_refresh("d", false).unwrap_err().message(),
        "Device not found or disconnected"
    );
    assert!(!r.is_known("d"));
    assert!(r.apply_refresh("d", true).is_ok());
    assert!(r.is_marked_connected("d"));
    assert!(r.settle_connection("d", true));
    assert!(r.is_marked_connected("d"));
    assert!(!r.settle_connection("d", false));
    assert!(!r.is_marked_connected("d"));
    assert!(r.is_known("d"));
}

#[test]
fn scan_flag_and_stop_actions() {
    let mut r = PeripheralRegistry::new();
    assert_eq!(r.stop_scan_action(true), StopScanAction::Nothing);
    r.start_scan();
    assert!(r.is_scanning());
    assert_eq!(r.stop_scan_action(true), StopScanAction::StopAdapter);
    assert_eq!(r.stop_scan_action(false), StopScanAction::ClearFlag);
    r.finish_stop_scan();
    assert!(!r.is_scanning());
}

#[test]
fn list_characteristics_needs_connection() {
    let mut r = PeripheralRegistry::new();
    let services = vec![ServiceInfo {
        uuid: 0x0000180f_0000_1000_8000_00805f9b34fb,
        characteristics: vec![CharacteristicInfo {
            uuid: 0x00002a19_0000_1000_8000_00805f9b34fb,
            service_uuid: 0x0000180f_0000_1000_8000_00805f9b34fb,
            properties: 0x02,
        }],
    }];
    assert_eq!(r.list_characteristics("p", &services).unwrap_err().message(), "Device not connected");
    r.mark_connected("p");
    let list = r.list_characteristics("p", &services).unwrap();
    assert_eq!(list[0].name, "Battery Service");
    assert_eq!(list[0].characteristic[0].property, vec!["read"]);
}

fn run(policy: RetryPolicy, outcomes: &[bool]) -> Vec<AccessAction> {
    let (mut step, mut action) = access_start();
    let mut actions = vec![action];
    for &ok in outcomes {
        let next = access_next_step(policy, step, ok);
        step = next.0;
        action = next.1;
        actions.push(action);
        if step == AccessStep::Done {
            break;
        }
    }
    actions
}

#[test]
fn read_write_retry_paths() {
    assert_eq!(run(RetryPolicy::ReadWrite, &[true, true]), vec![AccessAction::Lookup, AccessAction::Operate, AccessAction::Succeed]);
    assert_eq!(
        run(RetryPolicy::ReadWrite, &[false, true, true, false, true, true, true]),
        vec![AccessAction::Lookup, AccessAction::Refresh, AccessAction::Lookup, AccessAction::Operate, AccessAction::Refresh, AccessAction::Lookup, AccessAction::Operate, AccessAction::Succeed]
    );
    assert_eq!(
        run(RetryPolicy::ReadWrite, &[false, false, false, false, false, false, false]),
        vec![AccessAction::Lookup, AccessAction::Refresh, AccessAction::Fail]
    );
    assert_eq!(
        run(RetryPolicy::ReadWrite, &[true, false, true, true, false]),
        vec![AccessAction::Lookup, AccessAction::Operate, AccessAction::Refresh, AccessAction::Lookup, AccessAction::Operate, AccessAction::Fail]
    );
}

#[test]
fn subscribe_refreshes_once() {
    assert_eq!(
        run(RetryPolicy::Subscribe, &[false, true, true, false]),
        vec![AccessAction::Lookup, AccessAction::Refresh, AccessAction::Lookup, AccessAction::Operate, AccessAction::Fail]
    );
    assert_eq!(
        run(RetryPolicy::Subscribe, &[true, false, true, true, true]),
        vec![AccessAction::Lookup, AccessAction::Operate, AccessAction::Refresh, AccessAction::Lookup, AccessAction::Operate, AccessAction::Succeed]
    );
}

#[test]
fn refresh_round_connected_are_reported_connected() {
    let mut r = PeripheralRegistry::new();
    r.mark_connected("old");
    r.mark_connected("gone");
    r.record_peripherals(&ids(&["new", "old"]));
    let known = r.known_ids();
    let snaps: Vec<PeripheralSnapshot> = known.iter().map(|id| snap(id, id == "new" || id == "old")).collect();
    r.apply_snapshots(&snaps);
    assert!(r.is_marked_connected("new"));
    assert!(r.is_marked_connected("old"));
    assert!(!r.is_marked_connected("gone"));
    let mut k = r.known_ids();
    k.sort();
    assert_eq!(k, ids(&["gone", "new", "old"]));
}
