use efact_printer_agent::config::{
    default_chunk_size, default_endpoint, default_port, AgentConfig, ConfigSource,
};
use efact_printer_agent::numfmt::{decimal_u8, decimal_usize, hex4_chars, parse_hex_chars};
use efact_printer_agent::printer::{
    device_label_text, is_known_vendor, parse_hex_id, PrinterManager,
};

fn config_with(vid: Option<&str>, pid: Option<&str>) -> AgentConfig {
    let mut c = AgentConfig::default();
    c.usb_vendor_id = vid.map(|s| s.to_string());
    c.usb_product_id = pid.map(|s| s.to_string());
    c
}

#[test]
fn defaults_match_the_documented_values() {
    assert_eq!(default_port(), 8765);
    assert_eq!(default_endpoint(), 0x01);
    assert_eq!(default_chunk_size(), 4096);
    let c = AgentConfig::default();
    assert_eq!(c.port, 8765);
    assert_eq!(c.usb_endpoint, 1);
    assert_eq!(c.chunk_size, 4096);
    assert!(c.usb_vendor_id.is_none());
    assert!(c.usb_product_id.is_none());
    assert!(c.system_printer_name.is_none());
    assert!(!c.prefer_system_backend);
}

#[test]
fn load_takes_the_first_valid_candidate() {
    let mut first = AgentConfig::default();
    first.port = 9000;
    let mut second = AgentConfig::default();
    second.port = 9100;
    let c = AgentConfig::load(vec![
        ConfigSource::Missing,
        ConfigSource::Invalid,
        ConfigSource::Parsed(first),
        ConfigSource::Parsed(second),
    ]);
    assert_eq!(c.port, 9000);
}

#[test]
fn load_falls_back_to_defaults() {
    let c = AgentConfig::load(vec![ConfigSource::Unreadable, ConfigSource::Invalid]);
    assert_eq!(c.port, 8765);
    assert_eq!(c.chunk_size, 4096);
    let c = AgentConfig::load(vec![]);
    assert_eq!(c.port, 8765);
}

#[test]
fn hex_ids_parse_like_from_str_radix() {
    assert_eq!(parse_hex_id("04b8"), 0x04B8);
    assert_eq!(parse_hex_id("04B8"), 0x04B8);
    assert_eq!(parse_hex_id("0x04b8"), 0x04B8);
    assert_eq!(parse_hex_id("0x0x1cbe"), 0x1CBE);
    assert_eq!(parse_hex_id("+1f"), 0x1F);
    assert_eq!(parse_hex_id("ffff"), 0xFFFF);
    assert_eq!(parse_hex_id("0000ffff"), 0xFFFF);
}

#[test]
fn bad_hex_ids_read_as_zero() {
    assert_eq!(parse_hex_id(""), 0);
    assert_eq!(parse_hex_id("0x"), 0);
    assert_eq!(parse_hex_id("+"), 0);
    assert_eq!(parse_hex_id("-1"), 0);
    assert_eq!(parse_hex_id("10000"), 0);
    assert_eq!(parse_hex_id("12345678"), 0);
    assert_eq!(parse_hex_id("04g8"), 0);
    assert_eq!(parse_hex_id(" 04b8"), 0);
    assert_eq!(parse_hex_id("0X04b8"), 0);
    let chars: Vec<char> = "0x2a".chars().collect();
    assert_eq!(parse_hex_chars(&chars), 0x2A);
}

#[test]
fn numbers_print_as_expected() {
    let s: String = hex4_chars(0x04B8).into_iter().collect();
    assert_eq!(s, "04B8");
    let s: String = hex4_chars(0xBEEF).into_iter().collect();
    assert_eq!(s, "BEEF");
    let s: String = hex4_chars(7).into_iter().collect();
    assert_eq!(s, "0007");
    let s: String = decimal_u8(0).into_iter().collect();
    assert_eq!(s, "0");
    let s: String = decimal_u8(255).into_iter().collect();
    assert_eq!(s, "255");
    let s: String = decimal_u8(40).into_iter().collect();
    assert_eq!(s, "40");
    let s: String = decimal_usize(1234567).into_iter().collect();
    assert_eq!(s, "1234567");
}

#[test]
fn listed_vendor_reads_back_as_target() {
    let label = device_label_text(&Some("Odd printer".to_string()), 0xABCD, 0x0001);
    assert_eq!(label, "Odd printer (VID:ABCD PID:0001)");
    let vid_text = &label["Odd printer (VID:".len().."Odd printer (VID:".len() + 4];
    assert_eq!(parse_hex_id(vid_text), 0xABCD);
    let pm = PrinterManager::new(config_with(Some(vid_text), None));
    assert!(pm.is_target_device(0xABCD, 0));
    assert!(!is_known_vendor(0xABCD));
}

#[test]
fn known_vendors_are_targets_by_default() {
    let pm = PrinterManager::new(AgentConfig::default());
    for vid in [0x04B8u16, 0x0519, 0x1504, 0x1CBE, 0x0DD4, 0x20D1, 0x0FE6, 0x6868] {
        assert!(is_known_vendor(vid));
        assert!(pm.is_target_device(vid, 0x1234));
    }
    assert!(!pm.is_target_device(0x1234, 0x04B8));
    assert!(!pm.is_target_device(0, 0));
}

#[test]
fn configured_vendor_replaces_known_list() {
    let pm = PrinterManager::new(config_with(Some("0x1234"), None));
    assert!(pm.is_target_device(0x1234, 0));
    assert!(!pm.is_target_device(0x04B8, 0));
    assert_eq!(pm.explicit_ids(), None);
    let pm = PrinterManager::new(config_with(Some("04b8"), Some("0202")));
    assert_eq!(pm.explicit_ids(), Some((0x04B8, 0x0202)));
    let pm = PrinterManager::new(config_with(None, Some("0202")));
    assert_eq!(pm.explicit_ids(), None);
}

#[test]
fn device_labels_name_unknown_products() {
    assert_eq!(
        device_label_text(&Some("TM-T20".to_string()), 0x04B8, 0x0202),
        "TM-T20 (VID:04B8 PID:0202)"
    );
    assert_eq!(device_label_text(&None, 0x0519, 0x0003), "Unknown (VID:0519 PID:0003)");
}
