use efact_printer_agent::config::AgentConfig;
use efact_printer_agent::platform::Os;
use efact_printer_agent::system_printer::{
    byte_list_text, escape_quotes_chars, is_virtual_printer_name, list_system_printers,
    lp_command_args, parse_printer_listing, print_with_system_backend, printers_from_output,
    CommandOutput, SystemCommand, SystemPrinterError, SystemPrinterManager, WINDOWS_SCRIPT_HEAD,
};
use std::cell::RefCell;

fn output(success: bool, stdout: &str, stderr: &str) -> CommandOutput {
    CommandOutput { success, stdout: stdout.to_string(), stderr: stderr.to_string() }
}

const LPSTAT: &str = "printer EPSON_TM20 is idle.  enabled since Mon 01 Jan\nprinter Fax_Line disabled since Tue\n\tsome detail\nprinter   Star_TSP100   is idle\nprinter \n";

#[test]
fn virtual_printers_are_recognised() {
    assert!(is_virtual_printer_name("Microsoft Print to PDF"));
    assert!(is_virtual_printer_name("  MICROSOFT XPS DOCUMENT WRITER "));
    assert!(is_virtual_printer_name("Fax"));
    assert!(is_virtual_printer_name("Send To OneNote 2016"));
    assert!(is_virtual_printer_name("office-fax-2"));
    assert!(!is_virtual_printer_name("EPSON TM-T20"));
    assert!(!is_virtual_printer_name(""));
    assert!(!is_virtual_printer_name("One Note"));
}

#[test]
fn lpstat_listing_names_real_printers() {
    let names = parse_printer_listing(Os::Linux, LPSTAT);
    assert_eq!(names, vec!["EPSON_TM20".to_string(), "Star_TSP100".to_string()]);
    assert_eq!(parse_printer_listing(Os::MacOs, LPSTAT), names);
    assert!(parse_printer_listing(Os::Linux, "").is_empty());
    assert!(parse_printer_listing(Os::Linux, "no printers\r\n").is_empty());
}

#[test]
fn windows_listing_names_real_printers() {
    let out = "  EPSON TM-T20  \r\n\r\nMicrosoft Print to PDF\r\nFax\r\nStar TSP100\r\n";
    let names = parse_printer_listing(Os::Windows, out);
    assert_eq!(names, vec!["EPSON TM-T20".to_string(), "Star TSP100".to_string()]);
}

#[test]
fn listing_outcomes() {
    match printers_from_output(Os::Linux, &output(false, "", "  lpstat: No destinations added.\n")) {
        Err(SystemPrinterError::CommandFailed(m)) => assert_eq!(m, "lpstat: No destinations added."),
        other => panic!("unexpected {:?}", other),
    }
    assert!(matches!(
        printers_from_output(Os::Linux, &output(true, "printer Fax is idle\n", "")),
        Err(SystemPrinterError::NotFound)
    ));
    assert_eq!(
        printers_from_output(Os::Linux, &output(true, LPSTAT, "")).unwrap(),
        vec!["EPSON_TM20".to_string(), "Star_TSP100".to_string()]
    );
}

#[test]
fn listing_runs_lpstat_or_powershell() {
    let seen: RefCell<Vec<(String, Vec<String>, bool)>> = RefCell::new(Vec::new());
    let run = |c: &SystemCommand| {
        seen.borrow_mut().push((c.program.clone(), c.args.clone(), c.stdin.is_some()));
        Ok(output(true, "printer Kitchen is idle\n", ""))
    };
    let r = list_system_printers(Os::Linux, &run).unwrap();
    assert_eq!(r, vec!["Kitchen".to_string()]);
    let _ = list_system_printers(Os::Windows, &run);
    let seen = seen.into_inner();
    assert_eq!(seen[0], ("lpstat".to_string(), vec!["-p".to_string()], false));
    assert_eq!(seen[1].0, "powershell");
    assert_eq!(
        seen[1].1,
        vec![
            "-NoProfile".to_string(),
            "-Command".to_string(),
            "Get-Printer | Select-Object -ExpandProperty Name".to_string()
        ]
    );
}

#[test]
fn listing_launch_failure_and_unsupported() {
    let fail = |_: &SystemCommand| -> Result<CommandOutput, std::io::Error> {
        Err(std::io::Error::new(std::io::ErrorKind::NotFound, "no lpstat"))
    };
    let r = list_system_printers(Os::Linux, fail);
    match r {
        Err(e @ SystemPrinterError::Command(_)) => {
            assert_eq!(e.message(), "Failed to start print command: no lpstat")
        }
        other => panic!("unexpected {:?}", other),
    }
    let never = |_: &SystemCommand| -> Result<CommandOutput, std::io::Error> {
        panic!("no command on this platform")
    };
    match list_system_printers(Os::Other, never) {
        Err(SystemPrinterError::CommandFailed(m)) => {
            assert_eq!(m, "unsupported print backend on this platform")
        }
        other => panic!("unexpected {:?}", other),
    }
    let manager = SystemPrinterManager::new(AgentConfig::default());
    assert!(manager.list(Os::Other, never).is_empty());
    assert!(manager.list(Os::Linux, fail).is_empty());
}

#[test]
fn lp_arguments() {
    assert_eq!(lp_command_args(None), vec!["-o".to_string(), "raw".to_string()]);
    assert_eq!(
        lp_command_args(Some("Kitchen")),
        vec!["-o".to_string(), "raw".to_string(), "-d".to_string(), "Kitchen".to_string()]
    );
}

#[test]
fn unix_print_feeds_lp() {
    let seen: RefCell<Option<(String, Vec<String>, Option<Vec<u8>>)>> = RefCell::new(None);
    let run = |c: &SystemCommand| {
        *seen.borrow_mut() = Some((c.program.clone(), c.args.clone(), c.stdin.clone()));
        Ok(output(true, "request id is Kitchen-1", ""))
    };
    let r = print_with_system_backend(&[0x1B, 0x40, 0x0A], Some("Kitchen"), Os::Linux, &run);
    assert!(r.is_ok());
    let (program, args, stdin) = seen.into_inner().unwrap();
    assert_eq!(program, "lp");
    assert_eq!(args, vec!["-o", "raw", "-d", "Kitchen"]);
    assert_eq!(stdin, Some(vec![0x1B, 0x40, 0x0A]));
}

#[test]
fn failed_print_reports_stderr() {
    let run = |_: &SystemCommand| Ok(output(false, "", "lp: The printer or class does not exist.\n"));
    match print_with_system_backend(&[1], None, Os::MacOs, run) {
        Err(e @ SystemPrinterError::CommandFailed(_)) => assert_eq!(
            e.message(),
            "Print command failed: lp: The printer or class does not exist."
        ),
        other => panic!("unexpected {:?}", other),
    }
}

#[test]
fn windows_print_script_holds_name_and_bytes() {
    let seen: RefCell<Option<(String, Vec<String>, bool)>> = RefCell::new(None);
    let run = |c: &SystemCommand| {
        *seen.borrow_mut() = Some((c.program.clone(), c.args.clone(), c.stdin.is_some()));
        Ok(output(true, "", ""))
    };
    assert!(print_with_system_backend(&[27, 64, 10], Some("O'Brien"), Os::Windows, &run).is_ok());
    let (program, args, has_stdin) = seen.into_inner().unwrap();
    assert_eq!(program, "powershell");
    assert!(!has_stdin);
    assert_eq!(args[0], "-NoProfile");
    assert_eq!(args[1], "-Command");
    let script = &args[2];
    assert!(script.starts_with("\n$printerName = 'O''Brien'\nif ([string]::IsNullOrWhiteSpace($printerName))"));
    assert!(script.contains("$bytes = [byte[]]@(27,64,10)\n"));
    assert!(script.contains("if ($written -ne $bytes.Length) { throw \"Partial write: $written / $($bytes.Length)\" }"));
    assert!(script.starts_with(WINDOWS_SCRIPT_HEAD));
}

#[test]
fn windows_default_printer_expression() {
    let seen: RefCell<String> = RefCell::new(String::new());
    let run = |c: &SystemCommand| {
        *seen.borrow_mut() = c.args[2].clone();
        Ok(output(true, "", ""))
    };
    let manager = SystemPrinterManager::new(AgentConfig::default());
    assert!(manager.print(&[], Os::Windows, &run).is_ok());
    assert!(seen.into_inner().starts_with(
        "\n$printerName = (Get-CimInstance Win32_Printer | Where-Object Default | Select-Object -First 1 -ExpandProperty Name)\n"
    ));
}

#[test]
fn print_on_unsupported_platform() {
    let never = |_: &SystemCommand| -> Result<CommandOutput, std::io::Error> { panic!("none") };
    let manager = SystemPrinterManager::new(AgentConfig::default());
    match manager.print(&[1, 2], Os::Other, never) {
        Err(SystemPrinterError::CommandFailed(m)) => {
            assert_eq!(m, "unsupported print backend on this platform")
        }
        other => panic!("unexpected {:?}", other),
    }
    assert_eq!(
        SystemPrinterError::NotFound.message(),
        "No system printer found. Install or select a default printer in the OS."
    );
}

#[test]
fn quotes_and_bytes_text() {
    let s: String = escape_quotes_chars(&"it's 'x'".chars().collect::<Vec<_>>()).into_iter().collect();
    assert_eq!(s, "it''s ''x''");
    let s: String = byte_list_text(&[]).into_iter().collect();
    assert_eq!(s, "");
    let s: String = byte_list_text(&[0, 255, 10]).into_iter().collect();
    assert_eq!(s, "0,255,10");
}
