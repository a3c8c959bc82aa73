use xsensor::api::ble::BleError;
use xsensor::api::ble_service::{
    settle_devices, settle_flag, settle_reply, worker_devices, worker_flag, worker_reply,
};

#[test]
fn replies_settle() {
    assert_eq!(settle_reply::<u8>(None), Err("Channel closed".to_string()));
    assert_eq!(settle_reply(Some(Ok::<u8, String>(3))), Ok(3));
    assert_eq!(settle_reply(Some(Err::<u8, String>("x".into()))), Err("x".to_string()));
    assert!(settle_devices(None).is_empty());
    assert!(!settle_flag(None));
    assert!(settle_flag(Some(true)));
    assert!(!settle_flag(Some(false)));
}

#[test]
fn worker_maps_errors_to_messages() {
    assert_eq!(worker_reply::<()>(Err(BleError::new("Device not found".into()))), Err("Device not found".to_string()));
    assert_eq!(worker_reply(Ok::<u8, BleError>(1)), Ok(1));
    assert!(worker_devices(Err(BleError::new("e".into()))).is_empty());
    assert!(!worker_flag(Err(BleError::new("e".into()))));
    assert!(worker_flag(Ok(true)));
}
