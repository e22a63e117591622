use efact_printer_agent::config::AgentConfig;
use efact_printer_agent::printer::{DeviceSummary, PrinterError, PrinterManager};
use efact_printer_agent::server::{handle_print, PrintReply};
use hidapi::HidError;
use std::cell::RefCell;

fn dev(vid: u16, pid: u16, name: Option<&str>) -> DeviceSummary {
    DeviceSummary { vendor_id: vid, product_id: pid, product: name.map(|s| s.to_string()) }
}

fn manager(vid: Option<&str>, pid: Option<&str>, chunk_size: usize) -> PrinterManager {
    let mut c = AgentConfig::default();
    c.usb_vendor_id = vid.map(|s| s.to_string());
    c.usb_product_id = pid.map(|s| s.to_string());
    c.chunk_size = chunk_size;
    PrinterManager::new(c)
}

#[test]
fn explicit_ids_open_directly_without_scanning() {
    let pm = manager(Some("04b8"), Some("0x0202"), 4096);
    let devices = vec![dev(0x04B8, 0x0202, None)];
    let asked = RefCell::new(Vec::new());
    let r: Result<u32, PrinterError> = pm.open_device(
        &(),
        &devices,
        |_: &(), v: u16, p: u16| {
            asked.borrow_mut().push((v, p));
            Some(7)
        },
        |_: &(), _: usize| -> Option<u32> { panic!("no scan with both ids set") },
    );
    assert_eq!(r.unwrap(), 7);
    assert_eq!(asked.into_inner(), vec![(0x04B8, 0x0202)]);
    let r: Result<u32, PrinterError> =
        pm.open_device(&(), &devices, |_: &(), _: u16, _: u16| None, |_: &(), _: usize| Some(1));
    assert!(matches!(r, Err(PrinterError::NotFound)));
}

#[test]
fn scan_opens_first_target_that_opens() {
    let pm = manager(None, None, 4096);
    let devices = vec![
        dev(0x1234, 1, None),
        dev(0x04B8, 2, None),
        dev(0x0519, 3, None),
        dev(0x1504, 4, None),
    ];
    let tried = RefCell::new(Vec::new());
    let r: Result<usize, PrinterError> = pm.open_device(
        &(),
        &devices,
        |_: &(), _: u16, _: u16| -> Option<usize> { panic!("no ids configured") },
        |_: &(), i: usize| {
            tried.borrow_mut().push(i);
            if i == 1 { None } else { Some(i) }
        },
    );
    assert_eq!(r.unwrap(), 2);
    assert_eq!(tried.into_inner(), vec![1, 2]);
}

#[test]
fn scan_without_an_opening_target_is_not_found() {
    let pm = manager(None, None, 4096);
    let devices = vec![dev(0x04B8, 2, None), dev(0x9999, 3, None)];
    let r: Result<usize, PrinterError> =
        pm.open_device(&(), &devices, |_: &(), _: u16, _: u16| None, |_: &(), _: usize| None);
    assert!(matches!(r, Err(PrinterError::NotFound)));
}

#[test]
fn pinned_vendor_skips_other_vendors() {
    let pm = manager(Some("0x1504"), None, 4096);
    let devices = vec![dev(0x04B8, 0x0202, None), dev(0x1504, 0x0011, None)];
    let r: Result<usize, PrinterError> =
        pm.open_device(&(), &devices, |_: &(), _: u16, _: u16| None, |_: &(), i: usize| Some(i));
    assert_eq!(r.unwrap(), 1);
}

#[test]
fn pinned_product_selects_that_product() {
    let pm = manager(None, Some("0202"), 4096);
    assert!(pm.is_target_device(0x04B8, 0x0202));
    assert!(!pm.is_target_device(0x04B8, 0x0E15));
    assert!(!pm.is_target_device(0x1234, 0x0202));
    let devices = vec![dev(0x04B8, 0x0E15, None), dev(0x04B8, 0x0202, None)];
    let r: Result<usize, PrinterError> =
        pm.open_device(&(), &devices, |_: &(), _: u16, _: u16| None, |_: &(), i: usize| Some(i));
    assert_eq!(r.unwrap(), 1);
    assert_eq!(
        pm.device_labels(&devices),
        vec!["Unknown (VID:04B8 PID:0E15)".to_string(), "Unknown (VID:04B8 PID:0202)".to_string()]
    );
    assert!(pm.is_target_vendor(0x04B8));
    let pinned = manager(Some("1504"), Some("0202"), 4096);
    assert_eq!(
        pinned.device_labels(&[dev(0x1504, 0x0011, None), dev(0x04B8, 0x0202, None)]),
        vec!["Unknown (VID:1504 PID:0011)".to_string()]
    );
}

#[test]
fn writes_follow_the_reports_and_stop_at_an_error() {
    let pm = manager(None, None, 4);
    let written = RefCell::new(Vec::new());
    let r = pm.write_all(&(), &[1, 2, 3, 4, 5, 6, 7], |_: &(), b: &[u8]| {
        written.borrow_mut().push(b.to_vec());
        if b[1] == 4 { Err(HidError::HidApiErrorEmpty) } else { Ok(b.len()) }
    });
    assert!(matches!(r, Err(PrinterError::Hid(HidError::HidApiErrorEmpty))));
    assert_eq!(written.into_inner(), vec![vec![0, 1, 2, 3], vec![0, 4, 5, 6]]);
}

#[test]
fn whole_writes_succeed_and_short_ones_do_not() {
    let pm = manager(None, None, 4);
    let r = pm.write_all(&(), &[1, 2, 3, 4, 5, 6, 7], |_: &(), b: &[u8]| Ok(b.len()));
    assert!(r.is_ok());
    let r = pm.write_all(&(), &[1, 2, 3, 4, 5, 6, 7], |_: &(), _: &[u8]| Ok(2));
    match r {
        Err(PrinterError::IncompleteWrite { written, total }) => {
            assert_eq!((written, total), (3, 7));
        }
        other => panic!("unexpected {:?}", other),
    }
    let r = pm.write_all(&(), &[], |_: &(), _: &[u8]| -> Result<usize, HidError> {
        panic!("no write for an empty job")
    });
    assert!(r.is_ok());
}

#[test]
fn print_runs_start_open_and_write_in_turn() {
    let pm = manager(None, None, 3);
    let writes = RefCell::new(Vec::new());
    let r = pm.print_with(
        &[9, 8, 7],
        || Ok::<&str, HidError>("ctx"),
        |_: &&str| vec![dev(0x1234, 1, None), dev(0x0FE6, 2, Some("XP-58"))],
        |_: &&str, _: u16, _: u16| -> Option<u8> { panic!("no ids configured") },
        |_: &&str, i: usize| Some(i as u8),
        |d: &u8, b: &[u8]| {
            writes.borrow_mut().push((*d, b.to_vec()));
            Ok(b.len())
        },
    );
    assert!(r.is_ok());
    assert_eq!(writes.into_inner(), vec![(1, vec![0, 9, 8]), (1, vec![0, 7])]);
}

#[test]
fn print_failures_end_the_job() {
    let pm = manager(None, None, 4096);
    let never_write = |_: &u8, _: &[u8]| -> Result<usize, HidError> { panic!("no write") };
    let r = pm.print_with(
        &[1],
        || Err::<(), HidError>(HidError::InitializationError),
        |_: &()| -> Vec<DeviceSummary> { panic!("no list") },
        |_: &(), _: u16, _: u16| None,
        |_: &(), _: usize| None,
        never_write,
    );
    assert!(matches!(r, Err(PrinterError::Hid(HidError::InitializationError))));
    let r = pm.print_with(
        &[1],
        || Ok::<(), HidError>(()),
        |_: &()| vec![dev(0x04B8, 1, None)],
        |_: &(), _: u16, _: u16| None,
        |_: &(), _: usize| None,
        never_write,
    );
    assert!(matches!(r, Err(PrinterError::NotFound)));
}

#[test]
fn listing_labels_targets_or_is_empty() {
    let pm = manager(None, None, 4096);
    let labels = pm.list_with(
        || Ok::<(), HidError>(()),
        |_: &()| vec![dev(0x04B8, 0x0202, Some("TM-T20")), dev(0x1111, 1, Some("Mouse"))],
    );
    assert_eq!(labels, vec!["TM-T20 (VID:04B8 PID:0202)".to_string()]);
    let labels = pm.list_with(
        || Err::<(), HidError>(HidError::InitializationError),
        |_: &()| -> Vec<DeviceSummary> { panic!("no list") },
    );
    assert!(labels.is_empty());
}

#[test]
fn replies_follow_the_print_result() {
    let r = handle_print(&[1, 2], |job: &[u8]| {
        assert_eq!(job, &[1, 2]);
        Ok(())
    });
    assert!(matches!(r, PrintReply::Printed));
    let r = handle_print(&[1], |_: &[u8]| Err(PrinterError::IncompleteWrite { written: 0, total: 1 }));
    assert_eq!(r.status_code(), 500);
    assert_eq!(r.error_text(), Some("Write error: wrote 0 of 1 bytes".to_string()));
}
