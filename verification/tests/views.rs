use xsensor::api::{UiDevice, UiService};
use xsensor::context::Theme;
use xsensor::text::{decimal_of, parse_i32};
use xsensor::views::connection::{
    auto_connect_target, device_status_badge, insert_id, scan_step, ScanAction, properties_text, remove_id, rssi_label,
    service_panel, should_refresh_devices, toggle_id, ServicePanel,
};
use xsensor::views::navbar::connection_lost;
use xsensor::views::parameters::{
    decode_threshold, encode_threshold, get_slider_colors, slider_threshold, threshold_uuid,
    typed_threshold, ParameterForm, Threshold,
};
use xsensor::views::status::{
    battery_from_read, decode_acc_bits, decode_ps_sample, freq_from_read, freq_input,
    get_battery_style, get_trigger_colors, has_service, is_release_value, keep_waiting,
    pack_freq_byte, trigger_card_class,
    poll_delay_ms, push_sample, sensor_value_color, unpack_freq_byte, TriggerCounter,
    BATTERY_SERVICE_UUID, SERVICE_UUID,
};

fn dev(id: &str, services: &[&str]) -> UiDevice {
    UiDevice {
        id: id.into(),
        name: id.into(),
        is_connected: false,
        rssi: None,
        services: services.iter().map(|s| s.to_string()).collect(),
    }
}

#[test]
fn theme_toggle_and_pick() {
    assert!(Theme::Dark.is_dark());
    assert!(!Theme::Light.is_dark());
    assert_eq!(Theme::Dark.toggle(), Theme::Light);
    assert_eq!(Theme::Light.toggle().toggle(), Theme::Light);
    assert_eq!(Theme::Dark.pick("text-gray-100", "text-gray-800"), "text-gray-100");
    assert_eq!(Theme::Light.pick(1, 2), 2);
}

#[test]
fn freq_byte_packing() {
    assert_eq!(pack_freq_byte(5, 5), 0x55);
    assert_eq!(pack_freq_byte(3, 7), 0x73);
    assert_eq!(pack_freq_byte(18, 1), 0x12);
    assert_eq!(pack_freq_byte(-1, 0), 0x0f);
    assert_eq!(unpack_freq_byte(0x73), (3, 7));
    assert_eq!(unpack_freq_byte(0xff), (15, 15));
    assert_eq!(freq_from_read(&vec![0x42, 9]), Some((2, 4)));
    assert_eq!(freq_from_read(&vec![]), None);
    for b in 0..=255u8 {
        let (ps, acc) = unpack_freq_byte(b);
        assert_eq!(pack_freq_byte(ps, acc), b);
    }
}

#[test]
fn sample_decoding() {
    assert_eq!(decode_ps_sample(&vec![0x34, 0x12]), Some(0x1234));
    assert_eq!(decode_ps_sample(&vec![0xff, 0xff, 7]), Some(65535));
    assert_eq!(decode_ps_sample(&vec![1]), None);
    assert_eq!(decode_acc_bits(&vec![0x00, 0x00, 0x80, 0x3f]), Some(0x3f80_0000));
    assert_eq!(f32::from_bits(decode_acc_bits(&vec![0x00, 0x00, 0x80, 0x3f]).unwrap()), 1.0f32);
    assert_eq!(decode_acc_bits(&vec![1, 2, 3]), None);
    assert_eq!(battery_from_read(&vec![87, 1]), Some(87));
    assert_eq!(battery_from_read(&vec![]), None);
}

#[test]
fn window_keeps_length() {
    let mut w = vec![0u16, 1, 2, 3];
    push_sample(&mut w, 9);
    assert_eq!(w, vec![1, 2, 3, 9]);
    let mut one = vec!['a'];
    push_sample(&mut one, 'b');
    assert_eq!(one, vec!['b']);
}

#[test]
fn poll_delays() {
    assert_eq!(poll_delay_ms(5), 200);
    assert_eq!(poll_delay_ms(3), 333);
    assert_eq!(poll_delay_ms(0), 500);
    assert_eq!(poll_delay_ms(-2), 500);
}

#[test]
fn release_values_are_not_counted() {
    let mut c = TriggerCounter::new();
    assert!(c.on_notification(&vec![1]));
    assert!(!c.on_notification(&vec![0]));
    assert!(c.on_notification(&vec![0, 2]));
    assert!(!c.on_notification(&vec![]));
    assert_eq!(c.count, 2);
    assert!(c.active);
    c.clear_active();
    assert!(!c.active);
    assert_eq!(c.count, 2);
    c.reset();
    assert_eq!(c.count, 0);
    assert!(is_release_value(&vec![0, 0]));
    assert!(!is_release_value(&vec![0, 1]));
}

#[test]
fn status_colours() {
    assert_eq!(get_battery_style(51), ("text-emerald-400", "bg-emerald-500"));
    assert_eq!(get_battery_style(50), ("text-yellow-400", "bg-yellow-500"));
    assert_eq!(get_battery_style(21), ("text-yellow-400", "bg-yellow-500"));
    assert_eq!(get_battery_style(20), ("text-red-400", "bg-red-500"));
    assert_eq!(get_trigger_colors("blue").0, "text-blue-400");
    assert_eq!(get_trigger_colors("emerald").3, "rgba(16, 185, 129, 0.6)");
    assert_eq!(get_trigger_colors("purple").1, "border-purple-500");
    assert_eq!(get_trigger_colors("pink").2, "bg-gray-500/20");
    assert_eq!(sensor_value_color("#60cd18"), "text-[#60cd18]");
    assert_eq!(sensor_value_color("#2d6cdf"), "text-[#2d6cdf]");
}

#[test]
fn service_discovery_check() {
    let services = vec![UiService {
        uuid: "0000180f-0000-1000-8000-00805f9b34fb".into(),
        name: "Battery Service".into(),
        characteristic: vec![],
    }];
    assert!(has_service(&services, BATTERY_SERVICE_UUID));
    assert!(!has_service(&services, SERVICE_UUID));
    assert!(!has_service(&vec![], SERVICE_UUID));
}

#[test]
fn freq_text_input() {
    assert_eq!(freq_input("7", 5), 7);
    assert_eq!(freq_input("", 5), 5);
    assert_eq!(freq_input("x", 3), 3);
    assert_eq!(freq_input("-2", 3), -2);
}

#[test]
fn integer_parsing_matches_std() {
    for s in ["0", "42", "+42", "-42", "007", "2147483647", "-2147483648", "2147483648",
              "-2147483649", "", "-", "+", "1a", " 1", "1 ", "99999999999999999999", "٣"] {
        assert_eq!(parse_i32(s), s.parse::<i32>().ok(), "input {:?}", s);
    }
}

#[test]
fn integer_formatting_matches_std() {
    for v in [0, 7, 10, -1, -10, 123456, i32::MAX, i32::MIN] {
        assert_eq!(decimal_of(v), v.to_string());
        assert_eq!(parse_i32(&decimal_of(v)), Some(v));
    }
}

#[test]
fn threshold_codec() {
    assert_eq!(encode_threshold(500), vec![0xf4, 0x01]);
    assert_eq!(encode_threshold(3000), vec![0xb8, 0x0b]);
    assert_eq!(encode_threshold(-1), vec![0xff, 0xff]);
    assert_eq!(encode_threshold(65536 + 2), vec![2, 0]);
    assert_eq!(decode_threshold(&vec![0xf4, 0x01]), Some(500));
    assert_eq!(decode_threshold(&vec![0xf4]), None);
    assert_eq!(decode_threshold(&encode_threshold(2047)), Some(2047));
    assert_eq!(threshold_uuid(Threshold::PsLow), "0000ffe1-0000-1000-8000-00805f9b34fb");
    assert_eq!(threshold_uuid(Threshold::PsHigh), "0000ffe2-0000-1000-8000-00805f9b34fb");
    assert_eq!(threshold_uuid(Threshold::Acc), "0000ffe3-0000-1000-8000-00805f9b34fb");
}

#[test]
fn threshold_inputs() {
    assert_eq!(typed_threshold("40", 40), Some(40));
    assert_eq!(typed_threshold("41", 40), None);
    assert_eq!(typed_threshold("-1", 40), None);
    assert_eq!(typed_threshold("abc", 40), None);
    assert_eq!(slider_threshold("1200"), Some(1200));
    assert_eq!(slider_threshold(""), None);
    assert_eq!(get_slider_colors("red").1, "text-red-400");
    assert_eq!(get_slider_colors("green").1, "text-gray-400");
    assert!(get_slider_colors("purple").0.starts_with("bg-purple-500 "));
}

#[test]
fn parameter_form_flow() {
    let mut f = ParameterForm::new();
    assert_eq!((f.threshold_low, f.threshold_high, f.accel_threshold), (500, 3000, 2000));
    assert!(f.needs_initial_load("dev"));
    assert!(!f.needs_initial_load(""));
    f.apply_read(Threshold::PsLow, &vec![100, 0]);
    f.apply_read(Threshold::PsHigh, &vec![1]);
    f.apply_read(Threshold::Acc, &vec![20, 0, 9]);
    f.finish_loading();
    assert!(!f.needs_initial_load("dev"));
    assert_eq!((f.get(Threshold::PsLow), f.get(Threshold::PsHigh), f.get(Threshold::Acc)), (100, 3000, 20));
    assert!(!f.has_changes);
    f.set_value(Threshold::PsHigh, 1800);
    assert!(f.has_changes);
    let writes = f.save();
    assert!(!f.has_changes);
    assert_eq!(writes.len(), 3);
    assert_eq!(writes[0].which, Threshold::PsLow);
    assert_eq!(writes[0].payload, vec![100, 0]);
    assert_eq!(writes[1].payload, vec![0x08, 0x07]);
    assert_eq!(writes[2].payload, vec![20, 0]);
    let mut reread = f.clone();
    for w in &writes {
        reread.apply_read(w.which, &w.payload);
    }
    assert_eq!(reread, f);
    f.set_value(Threshold::Acc, 30);
    f.begin_reset();
    assert!(!f.has_changes);
}

#[test]
fn auto_connect_picks_first_sensor() {
    let devices = vec![dev("a", &[]), dev("b", &[SERVICE_UUID]), dev("c", &["x", SERVICE_UUID])];
    assert_eq!(auto_connect_target(&devices, "", false), Some(1));
    assert_eq!(auto_connect_target(&devices, "b", false), None);
    assert_eq!(auto_connect_target(&devices, "", true), None);
    assert_eq!(auto_connect_target(&vec![dev("a", &[])], "", false), None);
}

#[test]
fn device_list_helpers() {
    assert!(should_refresh_devices(false, false));
    assert!(!should_refresh_devices(true, false));
    assert!(!should_refresh_devices(false, true));
    assert_eq!(rssi_label(Some(-67)), "-67 dBm");
    assert_eq!(rssi_label(Some(0)), "0 dBm");
    assert_eq!(rssi_label(None), "未知");
    assert_eq!(device_status_badge(true, Theme::Dark).0, "已连接");
    assert_eq!(device_status_badge(false, Theme::Light).1, "bg-slate-100 text-slate-600 border border-slate-300");
    assert_eq!(properties_text(&vec![]), "—");
    assert_eq!(properties_text(&vec!["read".to_string()]), "read");
    assert_eq!(properties_text(&vec!["read".into(), "notify".into()]), "read, notify");
    assert_eq!(service_panel(None), ServicePanel::Loading);
    assert_eq!(service_panel(Some(&vec![])), ServicePanel::NoServices);
}

#[test]
fn expanded_sets() {
    let mut set: Vec<String> = Vec::new();
    toggle_id(&mut set, "a");
    toggle_id(&mut set, "b");
    assert_eq!(set, vec!["a".to_string(), "b".to_string()]);
    toggle_id(&mut set, "a");
    assert_eq!(set, vec!["b".to_string()]);
    remove_id(&mut set, "zz");
    assert_eq!(set, vec!["b".to_string()]);
    remove_id(&mut set, "b");
    assert!(set.is_empty());
}

#[test]
fn navbar_watch() {
    assert!(connection_lost("dev", false));
    assert!(!connection_lost("dev", true));
    assert!(!connection_lost("", false));
}

#[test]
fn waiting_for_services() {
    assert!(keep_waiting(0, Some(20)));
    assert!(keep_waiting(19, Some(20)));
    assert!(!keep_waiting(20, Some(20)));
    assert!(keep_waiting(u32::MAX, None));
}

#[test]
fn trigger_card_classes() {
    assert_eq!(
        trigger_card_class(true, "border-blue-500", "bg-blue-500/20"),
        "rounded-lg border-2 border-blue-500 bg-blue-500/20 p-3 space-y-1 transition-all duration-150"
    );
    assert_eq!(
        trigger_card_class(false, "border-blue-500", "bg-blue-500/20"),
        "rounded-lg border border-[#2a2a2a] bg-[#191919] p-3 space-y-1 transition-all duration-150"
    );
}

#[test]
fn scan_loop_steps() {
    let devices = vec![dev("a", &[]), dev("b", &[SERVICE_UUID])];
    assert_eq!(scan_step(None, "", false), ScanAction::Stop);
    assert_eq!(scan_step(Some(&devices), "", false), ScanAction::ConnectTo(1));
    assert_eq!(scan_step(Some(&devices), "b", false), ScanAction::Show);
    assert_eq!(scan_step(Some(&devices), "", true), ScanAction::Show);
    assert_eq!(scan_step(Some(&vec![dev("a", &[])]), "", false), ScanAction::Show);
}

#[test]
fn inserting_ids() {
    let mut set: Vec<String> = Vec::new();
    insert_id(&mut set, "a");
    insert_id(&mut set, "a");
    insert_id(&mut set, "b");
    assert_eq!(set, vec!["a".to_string(), "b".to_string()]);
}
