use avio::patterns::prop_value;
use avio::usb::udev_rule::build_rule_content;
use avio::usb::usb_service::{dongle_fw_version, is_phone_candidate, UsbAction, UsbDeviceInfo, UsbService};

fn device(id: u64, vendor_id: u16, product_id: u16, class: u8, interfaces: Vec<u8>) -> UsbDeviceInfo {
    UsbDeviceInfo {
        id,
        vendor_id,
        product_id,
        class,
        interface_classes: interfaces,
        product_string: Some("Pixel".to_string()),
    }
}

fn phone(id: u64) -> UsbDeviceInfo {
    device(id, 0x18d1, 0x4ee7, 0x00, vec![0xff, 0x06])
}

#[test]
fn phone_candidates() {
    let vendors = vec![0x18d1u16, 0x04e8];
    assert!(is_phone_candidate(&phone(1), None));
    assert!(is_phone_candidate(&phone(1), Some(&vendors)));
    assert!(!is_phone_candidate(&device(1, 0x1234, 0x0001, 0x00, vec![0xff]), Some(&vendors)));
    assert!(!is_phone_candidate(&device(1, 0x18d1, 0x4ee7, 0x09, vec![0xff]), None));
    assert!(!is_phone_candidate(&device(1, 0x046d, 0xc52b, 0x00, vec![0x03, 0x03]), None));
    assert!(!is_phone_candidate(&device(1, 0x18d1, 0x4ee7, 0x00, vec![]), None));
    assert!(!is_phone_candidate(&device(1, 0x1314, 0x1520, 0x00, vec![0xff]), None));
}

#[test]
fn attach_starts_projection_once() {
    let mut svc = UsbService::new();
    let actions = svc.on_connect(phone(1), 10_000, None);
    assert_eq!(actions.len(), 2);
    assert!(matches!(&actions[0], UsbAction::ConnectWired(d) if d.id == 1));
    assert!(matches!(&actions[1], UsbAction::Broadcast { event_type: "attach", device } if device.id == 1));
    assert!(svc.last_phone_state);
    assert_eq!(svc.phone_suspend_until, 12_500);
    let second = svc.on_connect(phone(2), 20_000, None);
    assert_eq!(second.len(), 1);
    assert!(matches!(&second[0], UsbAction::Broadcast { .. }));
}

#[test]
fn reenumeration_inside_window_is_ignored() {
    let mut svc = UsbService::new();
    svc.on_connect(phone(1), 10_000, None);
    let detach = svc.on_disconnect(1);
    assert_eq!(detach.len(), 1);
    assert!(matches!(&detach[0], UsbAction::Broadcast { event_type: "detach", .. }));
    assert!(!svc.last_phone_state);
    let accessory = device(2, 0x18d1, 0x2d01, 0x00, vec![0xff]);
    let again = svc.on_connect(accessory, 11_000, None);
    assert_eq!(again.len(), 1);
    let later = svc.on_connect(phone(3), 13_000, None);
    assert!(matches!(&later[0], UsbAction::ConnectWired(d) if d.id == 3));
}

#[test]
fn dongle_is_tracked_but_not_reported() {
    let mut svc = UsbService::new();
    assert!(svc.on_connect(device(5, 0x1314, 0x1521, 0x00, vec![0xff]), 0, None).is_empty());
    assert_eq!(svc.known.len(), 1);
    assert!(svc.on_disconnect(5).is_empty());
    assert!(svc.known.is_empty());
    assert!(svc.on_disconnect(99).is_empty());
}

#[test]
fn shutdown_and_stop_silence_events() {
    let mut svc = UsbService::new();
    svc.begin_shutdown();
    assert!(svc.on_connect(phone(1), 0, None).is_empty());
    assert!(svc.known.is_empty());
    let mut svc = UsbService::new();
    assert!(svc.stop());
    assert!(!svc.stop());
    assert!(svc.on_connect(phone(1), 0, None).is_empty());
}

#[test]
fn startup_scan_takes_accessory_then_candidate() {
    let mut svc = UsbService::new();
    let devices = vec![
        device(1, 0x1314, 0x1520, 0x00, vec![0xff]),
        device(2, 0x18d1, 0x2d00, 0x00, vec![0xff]),
        phone(3),
    ];
    let actions = svc.init(&devices, 1_000, None);
    assert!(svc.last_dongle_state);
    assert_eq!(svc.known.len(), 3);
    assert_eq!(actions.len(), 2);
    assert!(matches!(&actions[0], UsbAction::ConnectWired(d) if d.id == 2));
    assert!(matches!(&actions[1], UsbAction::ConnectWired(d) if d.id == 2));
    assert!(svc.init(&devices, 2_000, None).is_empty());
}

#[test]
fn dongle_firmware_versions() {
    assert_eq!(dongle_fw_version(0x0203), "2.03");
    assert_eq!(dongle_fw_version(0x0110), "1.16");
    assert_eq!(dongle_fw_version(0), "Unknown");
}

#[test]
fn rule_content_names_the_user_everywhere() {
    assert_eq!(
        build_rule_content("OWNER=\"__USERNAME__\" GROUP=\"__USERNAME__\" __USERNAME", "bob"),
        "OWNER=\"bob\" GROUP=\"bob\" __USERNAME"
    );
}

#[test]
fn property_keys_are_matched_literally() {
    // The dot in the key is escaped: "api.alsa" does not match "apixalsa".
    assert_eq!(prop_value("\tapixalsa = 1\n\tapi.alsa = 2\n", "api.alsa").as_deref(), Some("2"));
}
