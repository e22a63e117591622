//! Printing to a USB HID thermal printer: which devices count as printers,
//! how they are listed, which one is opened, and how a job is cut into HID
//! output reports.
use vstd::prelude::*;
use vstd::slice::slice_subrange;
use vstd::slice::slice_to_vec;
use crate::config::AgentConfig;
use crate::hid::{
    entry_view, hid_api_new, hid_device_infos, hid_device_list, hid_error_text, hid_open,
    hid_open_device, hid_write, open_by_ids, open_listed, open_session, write_report,
    HidDeviceEntry, HidSession,
};
use crate::numfmt::{decimal, decimal_usize, hex4, hex4_chars, hex_id_value, lemma_hex4_reads_back, parse_hex_chars};
use crate::text::{chars_of, opt_string_view, string_from_chars, string_views, views};

verus! {

/// USB vendor ids of known thermal printer makers: Epson, Star Micronics,
/// Bixolon, Citizen, Custom / Sewoo, Rongta, ICS / Xprinter, and Xprinter's
/// alternate id.
pub open spec fn known_vendor_ids() -> Seq<u16> {
    seq![0x04B8u16, 0x0519, 0x1504, 0x1CBE, 0x0DD4, 0x20D1, 0x0FE6, 0x6868]
}

/// Errors of the HID print path.
#[derive(Debug)]
pub enum PrinterError {
    /// No USB thermal printer found.
    NotFound,
    /// The HID library reported an error.
    Hid(hidapi::HidError),
    /// The device took fewer payload bytes than the job holds.
    IncompleteWrite { written: usize, total: usize },
}

/// The message for a missing USB printer.
pub const NO_USB_PRINTER: &'static str = "No USB thermal printer found. Check USB connection and config.toml.";

/// The message that describes a HID print error.
pub open spec fn printer_error_text(e: PrinterError, m: Seq<char>) -> bool {
    match e {
        PrinterError::NotFound => m == NO_USB_PRINTER@,
        PrinterError::Hid(_) => exists|detail: Seq<char>| m == "HID error: "@ + detail,
        PrinterError::IncompleteWrite { written, total } => m == "Write error: wrote "@ + decimal(
            written as nat,
        ) + " of "@ + decimal(total as nat) + " bytes"@,
    }
}

impl PrinterError {
    /// The message that describes the error.
    pub fn message(&self) -> (r: String)
        ensures
            printer_error_text(*self, r@),
    {
        match self {
            PrinterError::NotFound => String::from_str(NO_USB_PRINTER),
            PrinterError::Hid(e) => {
                let detail = hid_error_text(e);
                let mut out = String::from_str("HID error: ");
                out.append(detail.as_str());
                assert(out@ == "HID error: "@ + detail@);
                out
            },
            PrinterError::IncompleteWrite { written, total } => {
                let mut out = chars_of("Write error: wrote ");
                let mut part = decimal_usize(*written);
                out.append(&mut part);
                let mut part = chars_of(" of ");
                out.append(&mut part);
                let mut part = decimal_usize(*total);
                out.append(&mut part);
                let mut part = chars_of(" bytes");
                out.append(&mut part);
                string_from_chars(out.as_slice())
            },
        }
    }
}

/// A device is of a printer vendor to use: with a vendor id configured, of
/// that vendor, otherwise of a known thermal-printer vendor.
pub open spec fn targets_vendor(config: AgentConfig, vid: u16) -> bool {
    match config.usb_vendor_id {
        Some(t) => vid == hex_id_value(t@),
        None => known_vendor_ids().contains(vid),
    }
}

/// A device is a printer to open: of a printer vendor to use, and with a
/// product id configured, of that product.
pub open spec fn targets_device(config: AgentConfig, vid: u16, pid: u16) -> bool {
    &&& targets_vendor(config, vid)
    &&& match config.usb_product_id {
        Some(t) => pid == hex_id_value(t@),
        None => true,
    }
}

/// The vendor and product id to open directly, when both are configured.
pub open spec fn explicit_ids(config: AgentConfig) -> Option<(u16, u16)> {
    match (config.usb_vendor_id, config.usb_product_id) {
        (Some(v), Some(p)) => Some((hex_id_value(v@), hex_id_value(p@))),
        _ => None,
    }
}

/// How a device is named in the printer list:
/// `"<product> (VID:XXXX PID:XXXX)"`, with `"Unknown"` for a device without
/// a product string.
pub open spec fn device_label(product: Option<Seq<char>>, vid: u16, pid: u16) -> Seq<char> {
    let name = match product {
        Some(p) => p,
        None => "Unknown"@,
    };
    name + " (VID:"@ + hex4(vid) + " PID:"@ + hex4(pid) + ")"@
}

/// The labels of the devices of the printer vendors to use, in order.
pub open spec fn device_labels(
    config: AgentConfig,
    devs: Seq<(u16, u16, Option<Seq<char>>)>,
) -> Seq<Seq<char>>
    decreases devs.len(),
{
    if devs.len() == 0 {
        Seq::empty()
    } else {
        let rest = device_labels(config, devs.drop_last());
        let d = devs.last();
        if targets_vendor(config, d.0) {
            rest.push(device_label(d.2, d.0, d.1))
        } else {
            rest
        }
    }
}

/// Payload bytes per HID write: one byte of the chunk size goes to the
/// report id, and at least one payload byte is always sent.
pub open spec fn payload_len(chunk_size: usize) -> nat {
    if chunk_size >= 2 {
        (chunk_size - 1) as nat
    } else {
        1
    }
}

/// The HID output reports that carry `data`: consecutive chunks of `k` bytes
/// (the last one shorter), each behind a report id of 0.
pub open spec fn hid_reports(data: Seq<u8>, k: nat) -> Seq<Seq<u8>>
    decreases data.len(),
{
    if k == 0 || data.len() == 0 {
        Seq::empty()
    } else {
        let m = if data.len() < k {
            data.len() as int
        } else {
            k as int
        };
        seq![seq![0u8] + data.take(m)] + hid_reports(data.skip(m), k)
    }
}

/// The payload of a sequence of reports: each without its report id, joined.
pub open spec fn report_payloads(reports: Seq<Seq<u8>>) -> Seq<u8>
    decreases reports.len(),
{
    if reports.len() == 0 {
        Seq::empty()
    } else {
        reports[0].drop_first() + report_payloads(reports.drop_first())
    }
}

/// Payload bytes that the device took, from the byte counts that its writes
/// reported (each count includes the report id).
pub open spec fn payload_written(reported: Seq<usize>) -> nat
    decreases reported.len(),
{
    if reported.len() == 0 {
        0
    } else {
        payload_written(reported.drop_last()) + if reported.last() >= 1 {
            (reported.last() - 1) as nat
        } else {
            0
        }
    }
}

/// The outcome of writing a job of `total` bytes, given the counts that the
/// writes reported.
pub open spec fn write_outcome(reported: Seq<usize>, total: nat) -> Result<(), PrinterError> {
    if payload_written(reported) >= total {
        Ok(())
    } else {
        Err(PrinterError::IncompleteWrite { written: payload_written(reported) as usize, total: total as usize })
    }
}

/// Reads a USB identifier written in hexadecimal (an optional `"0x"`
/// prefix); text that is no 16-bit hexadecimal number reads as 0.
pub fn parse_hex_id(s: &str) -> (r: u16)
    ensures
        r == hex_id_value(s@),
{
    let chars = chars_of(s);
    parse_hex_chars(chars.as_slice())
}

/// Is `vid` one of the known thermal-printer vendors?
pub fn is_known_vendor(vid: u16) -> (r: bool)
    ensures
        r == known_vendor_ids().contains(vid),
{
    let ids: [u16; 8] = [0x04B8, 0x0519, 0x1504, 0x1CBE, 0x0DD4, 0x20D1, 0x0FE6, 0x6868];
    assert(ids@ =~= known_vendor_ids());
    let mut i: usize = 0;
    while i < 8
        invariant
            i <= 8,
            ids@ == known_vendor_ids(),
            forall|j: int| 0 <= j < i ==> ids@[j] != vid,
        decreases 8 - i,
    {
        if ids[i] == vid {
            assert(known_vendor_ids()[i as int] == vid);
            return true;
        }
        i = i + 1;
    }
    false
}

/// The list label of a device: product name (or `"Unknown"`) and both ids in
/// four upper-case hexadecimal digits.
pub fn device_label_text(product: &Option<String>, vid: u16, pid: u16) -> (r: String)
    ensures
        r@ == device_label(opt_string_view(*product), vid, pid),
{
    let mut out: Vec<char> = match product {
        Some(p) => chars_of(p.as_str()),
        None => chars_of("Unknown"),
    };
    let mut part = chars_of(" (VID:");
    out.append(&mut part);
    let mut part = hex4_chars(vid);
    out.append(&mut part);
    let mut part = chars_of(" PID:");
    out.append(&mut part);
    let mut part = hex4_chars(pid);
    out.append(&mut part);
    let mut part = chars_of(")");
    out.append(&mut part);
    string_from_chars(out.as_slice())
}

/// The payload bytes that the device took, from the counts its writes
/// reported, and whether that covers a job of `total` bytes.
pub fn tally_written(reported: &[usize], total: usize) -> (r: Result<(), PrinterError>)
    ensures
        r == write_outcome(reported@, total as nat),
{
    let mut acc: usize = 0;
    let mut i: usize = 0;
    while i < reported.len()
        invariant
            i <= reported@.len(),
            acc == (if payload_written(reported@.take(i as int)) <= usize::MAX {
                payload_written(reported@.take(i as int))
            } else {
                usize::MAX as nat
            }),
        decreases reported@.len() - i,
    {
        assert(reported@.take(i + 1).drop_last() =~= reported@.take(i as int));
        let w = reported[i];
        let payload = if w >= 1 {
            w - 1
        } else {
            0
        };
        acc = if acc > usize::MAX - payload {
            usize::MAX
        } else {
            acc + payload
        };
        i = i + 1;
    }
    assert(reported@.take(reported@.len() as int) =~= reported@);
    if acc < total {
        Err(PrinterError::IncompleteWrite { written: acc, total })
    } else {
        Ok(())
    }
}

/// Unfolding `hid_reports` at an offset of the data.
proof fn lemma_reports_step(data: Seq<u8>, k: nat, off: int, m: int)
    requires
        k > 0,
        0 <= off < data.len(),
        m == (if data.len() - off < k {
            data.len() - off
        } else {
            k as int
        }),
    ensures
        hid_reports(data.skip(off), k) == seq![seq![0u8] + data.subrange(off, off + m)]
            + hid_reports(data.skip(off + m), k),
{
    let t = data.skip(off);
    assert(t.take(m) =~= data.subrange(off, off + m));
    assert(t.skip(m) =~= data.skip(off + m));
}

/// Joining the payloads of the reports gives back the job, and each report
/// is a report id of 0 followed by between one and `k` payload bytes.
pub proof fn lemma_reports_carry_job(data: Seq<u8>, k: nat)
    requires
        k > 0,
    ensures
        report_payloads(hid_reports(data, k)) == data,
        forall|i: int|
            0 <= i < hid_reports(data, k).len() ==> {
                &&& (#[trigger] hid_reports(data, k)[i])[0] == 0u8
                &&& 2 <= hid_reports(data, k)[i].len() <= k + 1
            },
    decreases data.len(),
{
    if data.len() > 0 {
        let m = if data.len() < k {
            data.len() as int
        } else {
            k as int
        };
        let head = seq![0u8] + data.take(m);
        let rest = data.skip(m);
        lemma_reports_carry_job(rest, k);
        let rs = hid_reports(data, k);
        assert(rs == seq![head] + hid_reports(rest, k));
        assert(rs.drop_first() =~= hid_reports(rest, k));
        assert(head.drop_first() =~= data.take(m));
        assert(data.take(m) + rest =~= data);
        assert forall|i: int| 0 <= i < rs.len() implies {
            &&& (#[trigger] rs[i])[0] == 0u8
            &&& 2 <= rs[i].len() <= k + 1
        } by {
            if i > 0 {
                assert(rs[i] == hid_reports(rest, k)[i - 1]);
            }
        }
    }
}

/// Every report fits in the configured chunk size, when that size leaves
/// room for a report id and a payload byte.
pub proof fn lemma_reports_fit_chunk_size(data: Seq<u8>, chunk_size: usize)
    requires
        chunk_size >= 2,
    ensures
        forall|i: int|
            0 <= i < hid_reports(data, payload_len(chunk_size)).len() ==> (
            #[trigger] hid_reports(data, payload_len(chunk_size))[i]).len() <= chunk_size,
{
    lemma_reports_carry_job(data, payload_len(chunk_size));
}

/// The payload count of a first write, then the rest.
proof fn lemma_payload_written_prepend(a: usize, rest: Seq<usize>)
    ensures
        payload_written(seq![a] + rest) == payload_written(rest) + if a >= 1 {
            (a - 1) as nat
        } else {
            0
        },
    decreases rest.len(),
{
    if rest.len() > 0 {
        lemma_payload_written_prepend(a, rest.drop_last());
        assert((seq![a] + rest).drop_last() =~= seq![a] + rest.drop_last());
        assert((seq![a] + rest).last() == rest.last());
    } else {
        assert(seq![a] + rest =~= seq![a]);
        assert(seq![a].drop_last() =~= Seq::<usize>::empty());
        assert(payload_written(Seq::<usize>::empty()) == 0);
        assert(seq![a].last() == a);
    }
}

/// A device that takes every report whole has taken the whole job.
pub proof fn lemma_whole_reports_complete_job(data: Seq<u8>, k: nat, reported: Seq<usize>)
    requires
        k > 0,
        reported.len() == hid_reports(data, k).len(),
        forall|i: int|
            0 <= i < reported.len() ==> #[trigger] reported[i] == hid_reports(data, k)[i].len(),
    ensures
        payload_written(reported) == data.len(),
        write_outcome(reported, data.len()) == Ok::<(), PrinterError>(()),
    decreases data.len(),
{
    if data.len() == 0 {
        assert(reported =~= Seq::<usize>::empty());
    } else {
        let m = if data.len() < k {
            data.len() as int
        } else {
            k as int
        };
        let rest = data.skip(m);
        let rs = hid_reports(data, k);
        assert(rs == seq![seq![0u8] + data.take(m)] + hid_reports(rest, k));
        let tail = reported.drop_first();
        assert forall|i: int| 0 <= i < tail.len() implies #[trigger] tail[i] == hid_reports(
            rest,
            k,
        )[i].len() by {
            assert(tail[i] == reported[i + 1]);
            assert(rs[i + 1] == hid_reports(rest, k)[i]);
        }
        lemma_whole_reports_complete_job(rest, k, tail);
        assert(reported[0] == m + 1);
        assert(reported =~= seq![reported[0]] + tail);
        lemma_payload_written_prepend(reported[0], tail);
    }
}

/// The known thermal-printer vendors are exactly these eight: Epson, Star
/// Micronics, Bixolon, Citizen, Custom / Sewoo, Rongta, ICS / Xprinter and
/// Xprinter's alternate id. With no vendor configured, a device is of a
/// printer vendor to use exactly when it is of one of them.
pub proof fn lemma_known_vendors_are_these(config: AgentConfig, vid: u16)
    ensures
        known_vendor_ids().contains(vid) <==> (vid == 0x04B8 || vid == 0x0519 || vid == 0x1504
            || vid == 0x1CBE || vid == 0x0DD4 || vid == 0x20D1 || vid == 0x0FE6 || vid == 0x6868),
        config.usb_vendor_id is None ==> (targets_vendor(config, vid) <==> (vid == 0x04B8 || vid
            == 0x0519 || vid == 0x1504 || vid == 0x1CBE || vid == 0x0DD4 || vid == 0x20D1 || vid
            == 0x0FE6 || vid == 0x6868)),
{
    let ids = known_vendor_ids();
    assert(ids.len() == 8);
    if vid == 0x04B8 {
        assert(ids[0] == vid);
    } else if vid == 0x0519 {
        assert(ids[1] == vid);
    } else if vid == 0x1504 {
        assert(ids[2] == vid);
    } else if vid == 0x1CBE {
        assert(ids[3] == vid);
    } else if vid == 0x0DD4 {
        assert(ids[4] == vid);
    } else if vid == 0x20D1 {
        assert(ids[5] == vid);
    } else if vid == 0x0FE6 {
        assert(ids[6] == vid);
    } else if vid == 0x6868 {
        assert(ids[7] == vid);
    }
}

/// The ids shown in the printer list, written into the configuration, make
/// that device a target, known vendor or not.
pub proof fn lemma_listed_ids_select(config: AgentConfig, vid: u16, pid: u16)
    requires
        config.usb_vendor_id matches Some(t) && t@ == hex4(vid),
        config.usb_product_id is None || (config.usb_product_id matches Some(t) && t@ == hex4(
            pid,
        )),
    ensures
        targets_device(config, vid, pid),
{
    lemma_hex4_reads_back(vid);
    lemma_hex4_reads_back(pid);
}

/// A device as the printer logic sees it: its ids and its product string.
pub struct DeviceSummary {
    pub vendor_id: u16,
    pub product_id: u16,
    pub product: Option<String>,
}

/// What a device summary tells.
pub open spec fn summary_view(d: DeviceSummary) -> (u16, u16, Option<Seq<char>>) {
    (d.vendor_id, d.product_id, opt_string_view(d.product))
}

/// What a sequence of device summaries tells.
pub open spec fn summaries_view(s: Seq<DeviceSummary>) -> Seq<(u16, u16, Option<Seq<char>>)> {
    s.map_values(|d: DeviceSummary| summary_view(d))
}

/// Every target device before index `k` failed to open.
pub open spec fn targets_failed_before<C, D, FE: Fn(&C, usize) -> Option<D>>(
    config: AgentConfig,
    ctx: &C,
    devs: Seq<(u16, u16, Option<Seq<char>>)>,
    open_entry: FE,
    k: usize,
) -> bool {
    forall|j: usize|
        j < k && targets_device(config, devs[j as int].0, devs[j as int].1)
            ==> #[trigger] call_ensures(open_entry, (ctx, j), None::<D>)
}

/// The device `d` came from opening a target device, the first in list
/// order that opened.
pub open spec fn first_target_opened<C, D, FE: Fn(&C, usize) -> Option<D>>(
    config: AgentConfig,
    ctx: &C,
    devs: Seq<(u16, u16, Option<Seq<char>>)>,
    open_entry: FE,
    d: D,
) -> bool {
    exists|i: usize|
        #[trigger] call_ensures(open_entry, (ctx, i), Some(d)) && i < devs.len() && targets_device(
            config,
            devs[i as int].0,
            devs[i as int].1,
        ) && targets_failed_before(config, ctx, devs, open_entry, i)
}

/// No target device opened.
pub open spec fn no_target_opened<C, D, FE: Fn(&C, usize) -> Option<D>>(
    config: AgentConfig,
    ctx: &C,
    devs: Seq<(u16, u16, Option<Seq<char>>)>,
    open_entry: FE,
) -> bool {
    targets_failed_before::<C, D, FE>(config, ctx, devs, open_entry, devs.len() as usize)
}

/// How opening the printer ends, given how each open answered. With both
/// ids configured: one open with them, and its device or `NotFound`.
/// Otherwise: the first target device in list order that opens, every target
/// before it having failed to open; or `NotFound`, every target having
/// failed to open.
pub open spec fn open_outcome<C, D, FI: Fn(&C, u16, u16) -> Option<D>, FE: Fn(&C, usize) -> Option<D>>(
    config: AgentConfig,
    ctx: &C,
    devs: Seq<(u16, u16, Option<Seq<char>>)>,
    open_ids: FI,
    open_entry: FE,
    r: Result<D, PrinterError>,
) -> bool {
    match explicit_ids(config) {
        Some((v, p)) => exists|o: Option<D>|
            #[trigger] call_ensures(open_ids, (ctx, v, p), o) && r == match o {
                Some(d) => Ok::<D, PrinterError>(d),
                None => Err(PrinterError::NotFound),
            },
        None => match r {
            Ok(d) => first_target_opened(config, ctx, devs, open_entry, d),
            Err(e) => e is NotFound && no_target_opened(config, ctx, devs, open_entry),
        },
    }
}

/// The device answered `out` to a write of the bytes `report`.
pub open spec fn answered<D, W: Fn(&D, &[u8]) -> Result<usize, hidapi::HidError>>(
    write: W,
    device: &D,
    report: Seq<u8>,
    out: Result<usize, hidapi::HidError>,
) -> bool {
    exists|b: &[u8]| #[trigger] call_ensures(write, (device, b), out) && b@ == report
}

/// One run of writes: the reports were written in order, the device took
/// `counts[i]` bytes of report `i`; with `stop` the next write failed with
/// that error, which ends the job, and otherwise every report was written
/// and the counts decide the result.
pub open spec fn write_run<D, W: Fn(&D, &[u8]) -> Result<usize, hidapi::HidError>>(
    write: W,
    device: &D,
    reports: Seq<Seq<u8>>,
    total: nat,
    r: Result<(), PrinterError>,
    counts: Seq<usize>,
    stop: Option<hidapi::HidError>,
) -> bool {
    &&& counts.len() <= reports.len()
    &&& forall|i: int|
        0 <= i < counts.len() ==> #[trigger] answered(
            write,
            device,
            reports[i],
            Ok::<usize, hidapi::HidError>(counts[i]),
        )
    &&& match stop {
        Some(e) => counts.len() < reports.len() && answered(
            write,
            device,
            reports[counts.len() as int],
            Err(e),
        ) && r == Err::<(), PrinterError>(PrinterError::Hid(e)),
        None => counts.len() == reports.len() && r == write_outcome(counts, total),
    }
}

/// Writing the reports to the device ended in `r`.
pub open spec fn write_trace<D, W: Fn(&D, &[u8]) -> Result<usize, hidapi::HidError>>(
    write: W,
    device: &D,
    reports: Seq<Seq<u8>>,
    total: nat,
    r: Result<(), PrinterError>,
) -> bool {
    exists|counts: Seq<usize>, stop: Option<hidapi::HidError>|
        #[trigger] write_run(write, device, reports, total, r, counts, stop)
}

/// One run of a print job: the HID library started with `s` (or failed,
/// which ends the job), listed `devs`, opening the printer ended in `o` (a
/// failure ends the job), and the job's reports were written to the device.
pub open spec fn print_run<
    C,
    D,
    FS: Fn() -> Result<C, hidapi::HidError>,
    FL: Fn(&C) -> Vec<DeviceSummary>,
    FI: Fn(&C, u16, u16) -> Option<D>,
    FE: Fn(&C, usize) -> Option<D>,
    FW: Fn(&D, &[u8]) -> Result<usize, hidapi::HidError>,
>(
    config: AgentConfig,
    data: Seq<u8>,
    start: FS,
    list: FL,
    open_ids: FI,
    open_entry: FE,
    write: FW,
    r: Result<(), PrinterError>,
    s: Result<C, hidapi::HidError>,
    devs: Vec<DeviceSummary>,
    o: Result<D, PrinterError>,
) -> bool {
    &&& call_ensures(start, (), s)
    &&& match s {
        Err(e) => r == Err::<(), PrinterError>(PrinterError::Hid(e)),
        Ok(c) => {
            &&& call_ensures(list, (&c,), devs)
            &&& open_outcome(config, &c, summaries_view(devs@), open_ids, open_entry, o)
            &&& match o {
                Err(e) => r == Err::<(), PrinterError>(e),
                Ok(d) => write_trace(
                    write,
                    &d,
                    hid_reports(data, payload_len(config.chunk_size)),
                    data.len(),
                    r,
                ),
            }
        },
    }
}

/// One run of listing: the HID library started with `s` (a failure gives an
/// empty list) and listed `devs`, of which the targets are labelled.
pub open spec fn list_run<C, FS: Fn() -> Result<C, hidapi::HidError>, FL: Fn(&C) -> Vec<DeviceSummary>>(
    config: AgentConfig,
    start: FS,
    list: FL,
    r: Vec<String>,
    s: Result<C, hidapi::HidError>,
    devs: Vec<DeviceSummary>,
) -> bool {
    &&& call_ensures(start, (), s)
    &&& match s {
        Err(_) => r@.len() == 0,
        Ok(c) => call_ensures(list, (&c,), devs) && string_views(r@) == device_labels(
            config,
            summaries_view(devs@),
        ),
    }
}

/// The ids and product strings of the session's devices, in order.
pub fn session_devices(session: &HidSession) -> (r: Vec<DeviceSummary>)
    ensures
        summaries_view(r@) == session.entries().map_values(|e: HidDeviceEntry| entry_view(e)),
{
    let devices = session.devices();
    let mut out: Vec<DeviceSummary> = Vec::new();
    let mut i: usize = 0;
    while i < devices.len()
        invariant
            devices@ == session.entries(),
            i <= devices@.len(),
            summaries_view(out@) == devices@.take(i as int).map_values(
                |e: HidDeviceEntry| entry_view(e),
            ),
        decreases devices@.len() - i,
    {
        let e = &devices[i];
        let product = match &e.product {
            Some(p) => Some(p.clone()),
            None => None,
        };
        let ghost before = out@;
        out.push(DeviceSummary { vendor_id: e.vendor_id, product_id: e.product_id, product });
        assert(summaries_view(out@) =~= summaries_view(before).push(entry_view(*e)));
        assert(devices@.take(i + 1).map_values(|e: HidDeviceEntry| entry_view(e))
            =~= devices@.take(i as int).map_values(|e: HidDeviceEntry| entry_view(e)).push(
            entry_view(devices@[i as int]),
        ));
        i = i + 1;
    }
    assert(devices@.take(devices@.len() as int) =~= devices@);
    out
}

/// Sends print jobs to a USB HID thermal printer.
pub struct PrinterManager {
    config: AgentConfig,
}

impl PrinterManager {
    /// The configuration that the manager works with.
    pub closed spec fn config(&self) -> AgentConfig {
        self.config
    }

    /// A manager for the given configuration.
    pub fn new(config: AgentConfig) -> (r: Self)
        ensures
            r.config() == config,
    {
        PrinterManager { config }
    }

    /// Is `vid` a printer vendor to use?
    pub fn is_target_vendor(&self, vid: u16) -> (r: bool)
        ensures
            r == targets_vendor(self.config(), vid),
    {
        match &self.config.usb_vendor_id {
            Some(target) => vid == parse_hex_id(target.as_str()),
            None => is_known_vendor(vid),
        }
    }

    /// Is a device with these ids a printer to open?
    pub fn is_target_device(&self, vid: u16, pid: u16) -> (r: bool)
        ensures
            r == targets_device(self.config(), vid, pid),
    {
        let vendor_ok = self.is_target_vendor(vid);
        let product_ok = match &self.config.usb_product_id {
            Some(target) => pid == parse_hex_id(target.as_str()),
            None => true,
        };
        vendor_ok && product_ok
    }

    /// The vendor and product id to open directly, when both are configured.
    pub fn explicit_ids(&self) -> (r: Option<(u16, u16)>)
        ensures
            r == explicit_ids(self.config()),
    {
        match (&self.config.usb_vendor_id, &self.config.usb_product_id) {
            (Some(v), Some(p)) => Some((parse_hex_id(v.as_str()), parse_hex_id(p.as_str()))),
            _ => None,
        }
    }

    /// The labels of the devices of the printer vendors among `devices`, in
    /// order.
    pub fn device_labels(&self, devices: &[DeviceSummary]) -> (r: Vec<String>)
        ensures
            string_views(r@) == device_labels(self.config(), summaries_view(devices@)),
    {
        let ghost devs = summaries_view(devices@);
        let mut out: Vec<String> = Vec::new();
        let mut i: usize = 0;
        while i < devices.len()
            invariant
                i <= devices@.len(),
                devs == summaries_view(devices@),
                string_views(out@) == device_labels(self.config(), devs.take(i as int)),
            decreases devices@.len() - i,
        {
            assert(devs.take(i + 1).drop_last() =~= devs.take(i as int));
            assert(devs.take(i + 1).last() == summary_view(devices@[i as int]));
            let d = &devices[i];
            if self.is_target_vendor(d.vendor_id) {
                let label = device_label_text(&d.product, d.vendor_id, d.product_id);
                let ghost before = out@;
                out.push(label);
                assert(string_views(out@) =~= string_views(before).push(label@));
            }
            i = i + 1;
        }
        assert(devs.take(devices@.len() as int) =~= devs);
        out
    }

    /// The labels of the thermal printers that the HID library lists: empty
    /// when the library does not start.
    pub fn list_with<C, FS, FL>(&self, start: FS, list: FL) -> (r: Vec<String>) where
        FS: Fn() -> Result<C, hidapi::HidError>,
        FL: Fn(&C) -> Vec<DeviceSummary>,

        requires
            call_requires(start, ()),
            forall|c: &C| call_requires(list, (c,)),
        ensures
            exists|s: Result<C, hidapi::HidError>, devs: Vec<DeviceSummary>|
                #[trigger] list_run(self.config(), start, list, r, s, devs),
    {
        let s = start();
        match s {
            Err(e) => {
                let r: Vec<String> = Vec::new();
                let ghost devs: Vec<DeviceSummary> = vstd::pervasive::arbitrary();
                assert(list_run(self.config(), start, list, r, Err(e), devs));
                r
            },
            Ok(c) => {
                let devs = list(&c);
                let r = self.device_labels(devs.as_slice());
                assert(list_run(self.config(), start, list, r, Ok(c), devs));
                r
            },
        }
    }

    /// The detected thermal printers, as list labels. Empty when the HID
    /// library cannot start.
    pub fn list(&self) -> (r: Vec<String>)
        ensures
            exists|s: Result<HidSession, hidapi::HidError>, devs: Vec<DeviceSummary>|
                #[trigger] list_run(self.config(), open_session, session_devices, r, s, devs),
    {
        self.list_with(open_session, session_devices)
    }

    /// Opens the printer: with both ids configured, the device with those
    /// ids; otherwise the first target device in `devices` that opens.
    pub fn open_device<C, D, FI, FE>(
        &self,
        ctx: &C,
        devices: &[DeviceSummary],
        open_ids: FI,
        open_entry: FE,
    ) -> (r: Result<D, PrinterError>) where
        FI: Fn(&C, u16, u16) -> Option<D>,
        FE: Fn(&C, usize) -> Option<D>,

        requires
            forall|v: u16, p: u16| call_requires(open_ids, (ctx, v, p)),
            forall|i: usize| call_requires(open_entry, (ctx, i)),
        ensures
            open_outcome(self.config(), ctx, summaries_view(devices@), open_ids, open_entry, r),
            r matches Err(e) ==> e is NotFound,
    {
        match self.explicit_ids() {
            Some((vid, pid)) => {
                let o = open_ids(ctx, vid, pid);
                let r = match o {
                    Some(d) => Ok(d),
                    None => Err(PrinterError::NotFound),
                };
                return r;
            },
            None => {},
        }
        let ghost devs = summaries_view(devices@);
        let mut i: usize = 0;
        while i < devices.len()
            invariant
                i <= devices@.len(),
                devs == summaries_view(devices@),
                explicit_ids(self.config()) is None,
                forall|k: usize| call_requires(open_entry, (ctx, k)),
                forall|j: usize|
                    j < i && targets_device(self.config(), devs[j as int].0, devs[j as int].1)
                        ==> #[trigger] call_ensures(open_entry, (ctx, j), None::<D>),
            decreases devices@.len() - i,
        {
            let d = &devices[i];
            assert(devs[i as int].0 == d.vendor_id && devs[i as int].1 == d.product_id);
            if self.is_target_device(d.vendor_id, d.product_id) {
                let o = open_entry(ctx, i);
                let ghost og = o;
                match o {
                    Some(dev) => {
                        assert(og == Some(dev));
                        assert(call_ensures(open_entry, (ctx, i), Some(dev)));
                        assert(targets_device(self.config(), devs[i as int].0, devs[i as int].1));
                        assert(targets_failed_before(self.config(), ctx, devs, open_entry, i));
                        assert(first_target_opened(self.config(), ctx, devs, open_entry, dev));
                        return Ok(dev);
                    },
                    None => {},
                }
            }
            i = i + 1;
        }
        Err(PrinterError::NotFound)
    }

    /// Payload bytes per HID write.
    pub fn payload_size(&self) -> (r: usize)
        ensures
            r == payload_len(self.config().chunk_size),
    {
        let k = if self.config.chunk_size >= 1 {
            self.config.chunk_size - 1
        } else {
            0
        };
        if k >= 1 {
            k
        } else {
            1
        }
    }

    /// The HID output reports that carry `data`.
    pub fn hid_reports(&self, data: &[u8]) -> (r: Vec<Vec<u8>>)
        ensures
            views(r@) == hid_reports(data@, payload_len(self.config().chunk_size)),
    {
        let k = self.payload_size();
        let ghost kk = k as nat;
        let n = data.len();
        let mut out: Vec<Vec<u8>> = Vec::new();
        let mut off: usize = 0;
        assert(data@.skip(0) =~= data@);
        while off < n
            invariant
                off <= n,
                n == data@.len(),
                k >= 1,
                kk == k,
                kk == payload_len(self.config().chunk_size),
                views(out@) + hid_reports(data@.skip(off as int), kk) == hid_reports(data@, kk),
            decreases n - off,
        {
            let m = if n - off < k {
                n - off
            } else {
                k
            };
            proof {
                lemma_reports_step(data@, kk, off as int, m as int);
            }
            let mut report: Vec<u8> = Vec::new();
            report.push(0u8);
            let mut chunk = slice_to_vec(slice_subrange(data, off, off + m));
            report.append(&mut chunk);
            let ghost before = out@;
            out.push(report);
            assert(views(out@) =~= views(before).push(
                seq![0u8] + data@.subrange(off as int, off + m),
            ));
            off = off + m;
        }
        assert(data@.skip(n as int) =~= Seq::<u8>::empty());
        assert(views(out@) + hid_reports(data@.skip(n as int), kk) =~= views(out@));
        out
    }

    /// Writes `data` to the device as HID output reports, one write per
    /// report in order, stopping at the first failed write; then checks that
    /// the device took every payload byte.
    pub fn write_all<D, W>(&self, device: &D, data: &[u8], write: W) -> (r: Result<
        (),
        PrinterError,
    >) where W: Fn(&D, &[u8]) -> Result<usize, hidapi::HidError>
        requires
            forall|b: &[u8]| call_requires(write, (device, b)),
        ensures
            write_trace(
                write,
                device,
                hid_reports(data@, payload_len(self.config().chunk_size)),
                data@.len(),
                r,
            ),
            data@.len() == 0 ==> r is Ok,
            r matches Err(PrinterError::IncompleteWrite { written, total }) ==> total
                == data@.len() && written < total,
    {
        let reports = self.hid_reports(data);
        let ghost rs = hid_reports(data@, payload_len(self.config().chunk_size));
        assert(data@.len() == 0 ==> rs.len() == 0);
        let mut counts: Vec<usize> = Vec::new();
        let mut i: usize = 0;
        while i < reports.len()
            invariant
                i <= reports@.len(),
                counts@.len() == i,
                views(reports@) == rs,
                rs == hid_reports(data@, payload_len(self.config().chunk_size)),
                data@.len() == 0 ==> rs.len() == 0,
                forall|b: &[u8]| call_requires(write, (device, b)),
                forall|j: int|
                    0 <= j < i ==> #[trigger] answered(
                        write,
                        device,
                        rs[j],
                        Ok::<usize, hidapi::HidError>(counts@[j]),
                    ),
            decreases reports@.len() - i,
        {
            let buf = reports[i].as_slice();
            let out = write(device, buf);
            let ghost outg = out;
            assert(buf@ == rs[i as int]);
            assert(answered(write, device, rs[i as int], outg));
            match out {
                Ok(n) => {
                    let ghost before = counts@;
                    counts.push(n);
                    assert forall|j: int| 0 <= j < i + 1 implies #[trigger] answered(
                        write,
                        device,
                        rs[j],
                        Ok::<usize, hidapi::HidError>(counts@[j]),
                    ) by {
                        if j < i {
                            assert(counts@[j] == before[j]);
                        }
                    }
                },
                Err(e) => {
                    assert(outg == Err::<usize, hidapi::HidError>(e));
                    let r = Err(PrinterError::Hid(e));
                    assert(write_run(write, device, rs, data@.len(), r, counts@, Some(e)));
                    return r;
                },
            }
            i = i + 1;
        }
        let r = tally_written(counts.as_slice(), data.len());
        assert(write_run(write, device, rs, data@.len(), r, counts@, None));
        proof {
            if data@.len() == 0 {
                assert(rs.len() == 0);
                assert(counts@ =~= Seq::<usize>::empty());
            }
        }
        r
    }

    /// Prints the ESC/POS job `data`: starts the HID library, opens the
    /// printer among the devices it lists, and writes the job to it. The
    /// first failure ends the job.
    pub fn print_with<C, D, FS, FL, FI, FE, FW>(
        &self,
        data: &[u8],
        start: FS,
        list: FL,
        open_ids: FI,
        open_entry: FE,
        write: FW,
    ) -> (r: Result<(), PrinterError>) where
        FS: Fn() -> Result<C, hidapi::HidError>,
        FL: Fn(&C) -> Vec<DeviceSummary>,
        FI: Fn(&C, u16, u16) -> Option<D>,
        FE: Fn(&C, usize) -> Option<D>,
        FW: Fn(&D, &[u8]) -> Result<usize, hidapi::HidError>,

        requires
            call_requires(start, ()),
            forall|c: &C| call_requires(list, (c,)),
            forall|c: &C, v: u16, p: u16| call_requires(open_ids, (c, v, p)),
            forall|c: &C, i: usize| call_requires(open_entry, (c, i)),
            forall|d: &D, b: &[u8]| call_requires(write, (d, b)),
        ensures
            r matches Err(PrinterError::IncompleteWrite { written, total }) ==> total
                == data@.len() && written < total,
            exists|
                s: Result<C, hidapi::HidError>,
                devs: Vec<DeviceSummary>,
                o: Result<D, PrinterError>,
            |
                #[trigger] print_run(
                    self.config(),
                    data@,
                    start,
                    list,
                    open_ids,
                    open_entry,
                    write,
                    r,
                    s,
                    devs,
                    o,
                ),
    {
        let s = start();
        let ghost sg = s;
        match s {
            Err(e) => {
                let r = Err(PrinterError::Hid(e));
                let ghost devs: Vec<DeviceSummary> = vstd::pervasive::arbitrary();
                let ghost o: Result<D, PrinterError> = vstd::pervasive::arbitrary();
                assert(print_run(
                    self.config(),
                    data@,
                    start,
                    list,
                    open_ids,
                    open_entry,
                    write,
                    r,
                    sg,
                    devs,
                    o,
                ));
                r
            },
            Ok(c) => {
                let devs = list(&c);
                let o = self.open_device(&c, devs.as_slice(), open_ids, open_entry);
                let ghost og = o;
                let r = match o {
                    Err(e) => Err(e),
                    Ok(d) => self.write_all(&d, data, write),
                };
                assert(print_run(
                    self.config(),
                    data@,
                    start,
                    list,
                    open_ids,
                    open_entry,
                    write,
                    r,
                    sg,
                    devs,
                    og,
                ));
                r
            },
        }
    }

    /// Opens the printer and writes the ESC/POS job `data` to it, through
    /// the HID library.
    pub fn print(&self, data: &[u8]) -> (r: Result<(), PrinterError>)
        ensures
            r matches Err(PrinterError::IncompleteWrite { written, total }) ==> total
                == data@.len() && written < total,
            exists|
                s: Result<HidSession, hidapi::HidError>,
                devs: Vec<DeviceSummary>,
                o: Result<hidapi::HidDevice, PrinterError>,
            |
                #[trigger] print_run(
                    self.config(),
                    data@,
                    open_session,
                    session_devices,
                    open_by_ids,
                    open_listed,
                    write_report,
                    r,
                    s,
                    devs,
                    o,
                ),
    {
        self.print_with(data, open_session, session_devices, open_by_ids, open_listed, write_report)
    }
}

} // verus!
