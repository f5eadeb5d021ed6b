use nvda_rust::hwports::{
    bthenum_lookup_address, bytes_to_addr_reversed, classify_port, com_port, finish_hid_info,
    hid_device_base, parse_bthenum_addr, parse_hex_u64, port_info, to_wide,
    toshiba_port_matches, trim_end_matches_char, trim_start_matches_char, usb_device,
    usb_id_from_hardware_id, wide_array_to_string, wide_bytes_to_string, widcomm_key_matches,
    widcomm_port_number, HidCache, HidExtra, HidProvider, OpenOutcome, PortInfo, PortSource,
};

fn le_bytes(s: &str) -> Vec<u8> {
    let mut out = Vec::new();
    for u in s.encode_utf16() {
        out.extend_from_slice(&u.to_le_bytes());
    }
    out
}

#[test]
fn to_wide_appends_nul() {
    assert_eq!(to_wide("COM1"), vec![0x43, 0x4F, 0x4D, 0x31, 0]);
    assert_eq!(to_wide(""), vec![0]);
}

#[test]
fn wide_bytes_stop_at_first_nul() {
    let mut buf = le_bytes("COM3");
    buf.extend_from_slice(&[0, 0]);
    buf.extend_from_slice(&le_bytes("junk"));
    assert_eq!(wide_bytes_to_string(&buf), "COM3");
}

#[test]
fn wide_bytes_without_nul_and_odd_tail() {
    let mut buf = le_bytes("ab");
    buf.push(0x41);
    assert_eq!(wide_bytes_to_string(&buf), "ab");
    assert_eq!(wide_bytes_to_string(&[]), "");
}

#[test]
fn wide_bytes_decode_surrogates_lossily() {
    let mut buf = le_bytes("a\u{1F600}b");
    assert_eq!(wide_bytes_to_string(&buf), "a\u{1F600}b");
    buf = vec![0x00, 0xD8, 0x41, 0x00];
    assert_eq!(wide_bytes_to_string(&buf), "\u{FFFD}A");
}

#[test]
fn wide_array_stops_at_nul() {
    let mut arr: Vec<u16> = "Keyboard".encode_utf16().collect();
    arr.push(0);
    arr.extend("xyz".encode_utf16());
    assert_eq!(wide_array_to_string(&arr), "Keyboard");
    assert_eq!(wide_array_to_string(&[0x41, 0x42]), "AB");
    assert_eq!(wide_array_to_string(&[0xDC00]), "\u{FFFD}");
}

#[test]
fn hex_parsing_follows_from_str_radix() {
    let c = |s: &str| s.chars().collect::<Vec<char>>();
    assert_eq!(parse_hex_u64(&c("ff")), Some(255));
    assert_eq!(parse_hex_u64(&c("+1A")), Some(26));
    assert_eq!(parse_hex_u64(&c("")), None);
    assert_eq!(parse_hex_u64(&c("+")), None);
    assert_eq!(parse_hex_u64(&c("-1")), None);
    assert_eq!(parse_hex_u64(&c("12g")), None);
    assert_eq!(parse_hex_u64(&c("ffffffffffffffff")), Some(u64::MAX));
    assert_eq!(parse_hex_u64(&c("10000000000000000")), None);
    for s in ["0", "dead", "BEEF", "+7", "x", "", "1_2"] {
        assert_eq!(parse_hex_u64(&c(s)), u64::from_str_radix(s, 16).ok(), "{s}");
    }
}

#[test]
fn bthenum_unique_id_address() {
    assert_eq!(
        parse_bthenum_addr("{00001101-0000-1000-8000-00805f9b34fb}_LOCALMFG&0002#001122AABBCC_C00000000"),
        Some(0x001122AABBCC)
    );
    assert_eq!(parse_bthenum_addr("prefix#00A0"), Some(0xA0));
    assert_eq!(parse_bthenum_addr("no hash here"), None);
    assert_eq!(parse_bthenum_addr("a#_rest"), None);
    assert_eq!(parse_bthenum_addr("a#zz_1"), None);
}

#[test]
fn lookup_address_skips_zero() {
    assert_eq!(bthenum_lookup_address(Some("x#000000000000_y")), None);
    assert_eq!(bthenum_lookup_address(Some("x#0A_y")), Some(10));
    assert_eq!(bthenum_lookup_address(None), None);
}

#[test]
fn address_bytes_are_big_endian() {
    assert_eq!(bytes_to_addr_reversed(vec![0x00, 0x11, 0x22, 0xAA, 0xBB, 0xCC]), 0x001122AABBCC);
    assert_eq!(bytes_to_addr_reversed(vec![]), 0);
    assert_eq!(bytes_to_addr_reversed(vec![0xFF; 8]), u64::MAX);
}

#[test]
fn ports_are_classified_by_hardware_id() {
    assert_eq!(classify_port("BTHENUM\\{00001101}"), PortSource::BthEnum);
    assert_eq!(classify_port("Bluetooth\\0004&0002"), PortSource::Toshiba);
    assert_eq!(
        classify_port("{95C7A0A0-3094-11D7-A202-00508B9D7D5A}\\BLUETOOTHPORT"),
        PortSource::Widcomm
    );
    assert_eq!(classify_port("USB\\VID_1234&PID_5678"), PortSource::Usb);
    assert_eq!(classify_port("FTDIBUS\\COMPORT&VID_0403&PID_6001"), PortSource::Usb);
    assert_eq!(classify_port("ACPI\\PNP0501"), PortSource::Other);
}

#[test]
fn usb_id_is_seventeen_bytes_from_vid() {
    assert_eq!(
        usb_id_from_hardware_id("USB\\VID_1234&PID_5678&REV_0100").as_deref(),
        Some("VID_1234&PID_5678")
    );
    assert_eq!(usb_id_from_hardware_id("USB\\VID_12"), None);
    assert_eq!(usb_id_from_hardware_id("USB\\PID_5678"), None);
}

#[test]
fn port_info_by_source() {
    let p = port_info(Some("COM5".to_string()), "BTHENUM\\x", Some("a#0A_b"), Some("Braille".to_string()), None).unwrap();
    assert_eq!(p.port, "COM5");
    assert_eq!(p.bluetooth_address, Some(10));
    assert_eq!(p.bluetooth_name.as_deref(), Some("Braille"));
    assert_eq!(p.usb_id, None);

    let zero = port_info(Some("COM5".to_string()), "BTHENUM\\x", Some("a#0_b"), Some("n".to_string()), None).unwrap();
    assert_eq!(zero.bluetooth_address, Some(0));
    assert_eq!(zero.bluetooth_name, None);

    let t = port_info(Some("COM6".to_string()), "Bluetooth\\0004&0002", None, None, Some((7, "Tosh".to_string()))).unwrap();
    assert_eq!(t.bluetooth_address, Some(7));
    assert_eq!(t.bluetooth_name.as_deref(), Some("Tosh"));

    let u = port_info(Some("COM7".to_string()), "USB\\VID_1234&PID_5678&X", None, None, None).unwrap();
    assert_eq!(u.usb_id.as_deref(), Some("VID_1234&PID_5678"));
    assert_eq!(u.bluetooth_address, None);

    let o = port_info(Some("COM1".to_string()), "ACPI\\PNP0501", None, None, None).unwrap();
    assert_eq!(o.bluetooth_address, None);
    assert_eq!(o.usb_id, None);

    assert!(port_info(None, "ACPI", None, None, None).is_none());
    assert!(port_info(Some(String::new()), "ACPI", None, None, None).is_none());
}

#[test]
fn com_port_friendly_name_falls_back_to_port() {
    let info = PortInfo { port: "COM9".to_string(), bluetooth_address: None, bluetooth_name: None, usb_id: None };
    let c = com_port(Some("ACPI".to_string()), info, None);
    assert_eq!(c.friendly_name, "COM9");
    assert_eq!(c.hardware_id.as_deref(), Some("ACPI"));
    let info = PortInfo { port: "COM9".to_string(), bluetooth_address: Some(1), bluetooth_name: None, usb_id: None };
    let c = com_port(None, info, Some("Serial (COM9)".to_string()));
    assert_eq!(c.friendly_name, "Serial (COM9)");
    assert_eq!(c.bluetooth_address, Some(1));
}

#[test]
fn stack_entry_matching() {
    assert_eq!(trim_end_matches_char("COM3\0\0", '\0'), "COM3");
    assert_eq!(trim_start_matches_char("0007", '0'), "7");
    assert_eq!(trim_start_matches_char("000", '0'), "");
    assert!(toshiba_port_matches("COM3\0", "COM3"));
    assert!(!toshiba_port_matches("COM30", "COM3"));
    assert_eq!(widcomm_port_number("COM12").as_deref(), Some("12"));
    assert_eq!(widcomm_port_number("CO"), None);
    assert!(widcomm_key_matches("0012", "12"));
    assert!(!widcomm_key_matches("0120", "12"));
}

#[test]
fn usb_device_entries() {
    let d = usb_device(Some("usb\\VID_1234&PID_5678&MI_00".to_string()), "\\\\?\\usb#1".to_string(), Some("Display".to_string()));
    assert_eq!(d.usb_id.as_deref(), Some("VID_1234&PID_5678"));
    assert_eq!(d.device_path.as_deref(), Some("\\\\?\\usb#1"));
    assert_eq!(d.bus_reported_device_description.as_deref(), Some("Display"));
    let short = usb_device(Some("usb\\VID".to_string()), "p".to_string(), None);
    assert_eq!(short.usb_id, None);
    assert_eq!(short.device_path.as_deref(), Some("p"));
    let none = usb_device(None, "p".to_string(), None);
    assert_eq!(none.hardware_id, None);
    assert_eq!(none.device_path, None);
    assert_eq!(none.usb_id, None);
}

#[test]
fn hid_providers() {
    let (d, p) = hid_device_base("HID\\VID_046D&PID_C52B&MI_00".to_string(), "path".to_string());
    assert_eq!(p, HidProvider::Usb);
    assert_eq!(d.provider.as_deref(), Some("usb"));
    assert_eq!(d.usb_id.as_deref(), Some("VID_046D&PID_C52B"));
    let (d, p) = hid_device_base("HID\\{00001124-0000-1000-8000-00805f9b34fb}_VID&0002".to_string(), "p".to_string());
    assert_eq!(p, HidProvider::Bluetooth);
    assert_eq!(d.provider.as_deref(), Some("bluetooth"));
    assert_eq!(d.usb_id, None);
    let (d, p) = hid_device_base("HID\\{00001812-0000-1000-8000-00805f9b34fb}".to_string(), "p".to_string());
    assert_eq!(p, HidProvider::Bluetooth);
    assert_eq!(d.provider.as_deref(), Some("bluetooth"));
    let (d, p) = hid_device_base("ACPI\\PNP0303".to_string(), "p".to_string());
    assert_eq!(p, HidProvider::Unknown);
    assert_eq!(d.provider, None);
    let (_, p) = hid_device_base("VID_1".to_string(), "p".to_string());
    assert_eq!(p, HidProvider::Usb);
}

fn extra() -> HidExtra {
    let mut e = HidExtra::new();
    e.vendor_id = Some(0x046D);
    e.product_id = Some(0xC52B);
    e.version_number = Some(3);
    e.manufacturer = Some("Logitech".to_string());
    e.product = Some("Receiver".to_string());
    e.hid_usage_page = Some(1);
    e
}

#[test]
fn in_use_device_reports_cached_details() {
    let mut cache = HidCache::new();
    let (d, _) = hid_device_base("HID\\VID_046D&PID_C52B".to_string(), "dev1".to_string());
    let opened = finish_hid_info(d, OpenOutcome::Opened(extra()), &mut cache);
    assert_eq!(opened.vendor_id, Some(0x046D));
    assert_eq!(opened.manufacturer.as_deref(), Some("Logitech"));
    let (d, _) = hid_device_base("HID\\VID_046D&PID_C52B".to_string(), "dev1".to_string());
    let again = finish_hid_info(d, OpenOutcome::InUse, &mut cache);
    assert_eq!(again.vendor_id, Some(0x046D));
    assert_eq!(again.product.as_deref(), Some("Receiver"));
    assert_eq!(again.hid_usage_page, Some(1));
    let (d, _) = hid_device_base("HID\\VID_046D&PID_C52B".to_string(), "other".to_string());
    let other = finish_hid_info(d, OpenOutcome::InUse, &mut cache);
    assert_eq!(other.vendor_id, None);
}

#[test]
fn failed_open_reports_no_details() {
    let mut cache = HidCache::new();
    let (d, _) = hid_device_base("HID\\VID_1".to_string(), "dev".to_string());
    let e = finish_hid_info(d, OpenOutcome::Opened(extra()), &mut cache);
    assert_eq!(e.version_number, Some(3));
    for outcome in [OpenOutcome::Failed, OpenOutcome::NoHandle] {
        let (d, _) = hid_device_base("HID\\VID_1".to_string(), "dev".to_string());
        let f = finish_hid_info(d, outcome, &mut cache);
        assert_eq!(f.vendor_id, None);
        assert_eq!(f.manufacturer, None);
    }
}
