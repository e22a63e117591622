use efact_printer_agent::config::AgentConfig;
use efact_printer_agent::printer::{tally_written, PrinterError, PrinterManager};
use efact_printer_agent::server::{handle_print, reply_for, PrintReply};

fn manager(chunk_size: usize) -> PrinterManager {
    let mut c = AgentConfig::default();
    c.chunk_size = chunk_size;
    PrinterManager::new(c)
}

#[test]
fn reports_carry_chunks_behind_report_id() {
    let pm = manager(4);
    assert_eq!(pm.payload_size(), 3);
    let reports = pm.hid_reports(&[1, 2, 3, 4, 5, 6, 7]);
    assert_eq!(reports, vec![vec![0, 1, 2, 3], vec![0, 4, 5, 6], vec![0, 7]]);
    for r in &reports {
        assert!(r.len() <= 4);
    }
}

#[test]
fn reports_of_default_chunk_size() {
    let pm = manager(4096);
    assert_eq!(pm.payload_size(), 4095);
    let data: Vec<u8> = (0..10000u32).map(|i| (i % 251) as u8).collect();
    let reports = pm.hid_reports(&data);
    assert_eq!(reports.len(), 3);
    assert_eq!(reports[0].len(), 4096);
    assert_eq!(reports[2].len(), 10000 - 2 * 4095 + 1);
    let joined: Vec<u8> = reports.iter().flat_map(|r| r[1..].to_vec()).collect();
    assert_eq!(joined, data);
}

#[test]
fn tiny_chunk_sizes_still_send_one_byte() {
    assert_eq!(manager(0).payload_size(), 1);
    assert_eq!(manager(1).payload_size(), 1);
    assert_eq!(manager(2).payload_size(), 1);
    assert_eq!(manager(1).hid_reports(&[9, 8]), vec![vec![0, 9], vec![0, 8]]);
}

#[test]
fn empty_job_has_no_reports() {
    assert!(manager(4096).hid_reports(&[]).is_empty());
    assert!(tally_written(&[], 0).is_ok());
}

#[test]
fn tally_counts_payload_bytes() {
    assert!(tally_written(&[4, 4, 2], 7).is_ok());
    assert!(tally_written(&[4, 4, 3], 7).is_ok());
    match tally_written(&[4, 1], 7) {
        Err(PrinterError::IncompleteWrite { written, total }) => {
            assert_eq!(written, 3);
            assert_eq!(total, 7);
        }
        other => panic!("unexpected {:?}", other),
    }
    match tally_written(&[0, 0], 2) {
        Err(PrinterError::IncompleteWrite { written, total }) => {
            assert_eq!(written, 0);
            assert_eq!(total, 2);
        }
        other => panic!("unexpected {:?}", other),
    }
    assert!(tally_written(&[usize::MAX, usize::MAX], 5).is_ok());
}

#[test]
fn printer_error_messages() {
    assert_eq!(
        PrinterError::NotFound.message(),
        "No USB thermal printer found. Check USB connection and config.toml."
    );
    assert_eq!(
        PrinterError::IncompleteWrite { written: 3, total: 7 }.message(),
        "Write error: wrote 3 of 7 bytes"
    );
}

#[test]
fn replies_carry_status_codes() {
    let ok: Result<(), PrinterError> = Ok(());
    let r = reply_for(&ok);
    assert!(matches!(r, PrintReply::Printed));
    assert_eq!(r.status_code(), 204);
    assert_eq!(r.error_text(), None);
    let failed: Result<(), PrinterError> = Err(PrinterError::NotFound);
    let r = reply_for(&failed);
    assert_eq!(r.status_code(), 500);
    assert_eq!(
        r.error_text(),
        Some("No USB thermal printer found. Check USB connection and config.toml.".to_string())
    );
}

#[test]
fn empty_body_is_refused() {
    let r = handle_print(&[], |_: &[u8]| -> Result<(), PrinterError> { panic!("no print for an empty body") });
    assert!(matches!(r, PrintReply::EmptyBody));
    assert_eq!(r.status_code(), 400);
    assert_eq!(r.error_text(), Some("empty body".to_string()));
}

#[test]
fn printing_without_a_printer_fails() {
    let pm = manager(4096);
    let r = pm.print(&[0x1B, 0x40]);
    assert!(matches!(r, Err(PrinterError::NotFound) | Err(PrinterError::Hid(_))));
    let reply = handle_print(&[0x1B, 0x40], |job: &[u8]| pm.print(job));
    assert_eq!(reply.status_code(), 500);
}

#[test]
fn listing_without_a_printer_is_empty() {
    let labels = manager(4096).list();
    assert!(labels.iter().all(|l| l.contains("(VID:")));
}
