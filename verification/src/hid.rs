//! The HID API of the `hidapi` crate, as the library sees it: its types, the
//! devices that a context has enumerated, and the calls that open and write.
use vstd::prelude::*;
use crate::text::opt_string_view;

verus! {

/// The `hidapi::HidApi` context type.
#[verifier::external_type_specification]
#[verifier::external_body]
pub struct ExHidApi(hidapi::HidApi);

/// The `hidapi::HidDevice` handle type.
#[verifier::external_type_specification]
#[verifier::external_body]
pub struct ExHidDevice(hidapi::HidDevice);

/// The `hidapi::HidError` error type.
#[verifier::external_type_specification]
#[verifier::external_body]
pub struct ExHidError(hidapi::HidError);

/// The `hidapi::DeviceInfo` type: what enumeration found of one device.
#[verifier::external_type_specification]
#[verifier::external_body]
pub struct ExDeviceInfo(hidapi::DeviceInfo);

/// The devices that a `HidApi` context holds in its device list, in order:
/// vendor id, product id and product string (where it converted to text).
pub uninterp spec fn hid_device_infos(api: hidapi::HidApi) -> Seq<(u16, u16, Option<Seq<char>>)>;

/// One enumerated HID device: its identifiers and product string, and the
/// device information to open it with.
pub struct HidDeviceEntry {
    pub vendor_id: u16,
    pub product_id: u16,
    pub product: Option<String>,
    pub info: hidapi::DeviceInfo,
}

/// What an entry tells of its device.
pub open spec fn entry_view(e: HidDeviceEntry) -> (u16, u16, Option<Seq<char>>) {
    (e.vendor_id, e.product_id, opt_string_view(e.product))
}

/// Calls `hidapi::HidApi::new`, which initialises the HID library and
/// enumerates the attached devices. Whether it succeeds, and what it finds,
/// depends on the machine: nothing is claimed of the result.
#[verifier::external_body]
pub(crate) fn hid_api_new() -> (r: Result<hidapi::HidApi, hidapi::HidError>) {
    hidapi::HidApi::new()
}

/// Calls `hidapi::HidApi::device_list` and takes from each `DeviceInfo` its
/// `vendor_id`, `product_id` and `product_string`. Claimed: the entries are
/// the context's device list, one for one and in order.
#[verifier::external_body]
pub(crate) fn hid_device_list(api: &hidapi::HidApi) -> (r: Vec<HidDeviceEntry>)
    ensures
        r@.map_values(|e: HidDeviceEntry| entry_view(e)) == hid_device_infos(*api),
{
    api.device_list().map(
        |d| HidDeviceEntry {
            vendor_id: d.vendor_id(),
            product_id: d.product_id(),
            product: d.product_string().map(|s| s.to_string()),
            info: d.clone(),
        },
    ).collect()
}

/// Calls `hidapi::HidApi::open` with a vendor and product id. Whether a
/// device opens depends on the machine: nothing is claimed of the result.
#[verifier::external_body]
pub(crate) fn hid_open(api: &hidapi::HidApi, vid: u16, pid: u16) -> (r: Result<
    hidapi::HidDevice,
    hidapi::HidError,
>) {
    api.open(vid, pid)
}

/// Calls `hidapi::DeviceInfo::open_device`. Whether the device opens depends
/// on the machine: nothing is claimed of the result.
#[verifier::external_body]
pub(crate) fn hid_open_device(info: &hidapi::DeviceInfo, api: &hidapi::HidApi) -> (r: Result<
    hidapi::HidDevice,
    hidapi::HidError,
>) {
    info.open_device(api)
}

/// Calls `hidapi::HidDevice::write`, which sends one output report (report
/// id first) and returns the number of bytes the device took. That number
/// depends on the device: nothing is claimed of it.
#[verifier::external_body]
pub(crate) fn hid_write(device: &hidapi::HidDevice, data: &[u8]) -> (r: Result<usize, hidapi::HidError>) {
    device.write(data)
}

/// The text of a HID error: calls `ToString::to_string`, which uses
/// `hidapi::HidError`'s `Display`. The text depends on the error's contents,
/// which Verus does not see: nothing is claimed of it.
#[verifier::external_body]
pub(crate) fn hid_error_text(e: &hidapi::HidError) -> (r: String) {
    e.to_string()
}

/// `HidApi::new` answered `r`.
pub closed spec fn hid_started(r: Result<hidapi::HidApi, hidapi::HidError>) -> bool {
    call_ensures(hid_api_new, (), r)
}

/// `HidApi::open` on `api`, with these vendor and product ids, answered `r`.
pub closed spec fn hid_opened_by_ids(
    api: hidapi::HidApi,
    vid: u16,
    pid: u16,
    r: Result<hidapi::HidDevice, hidapi::HidError>,
) -> bool {
    call_ensures(hid_open, (&api, vid, pid), r)
}

/// `DeviceInfo::open_device` of `info` on `api` answered `r`.
pub closed spec fn hid_opened_listed(
    info: hidapi::DeviceInfo,
    api: hidapi::HidApi,
    r: Result<hidapi::HidDevice, hidapi::HidError>,
) -> bool {
    call_ensures(hid_open_device, (&info, &api), r)
}

/// `HidDevice::write` of `report` to `device` answered `r`.
pub closed spec fn hid_wrote(
    device: &hidapi::HidDevice,
    report: &[u8],
    r: Result<usize, hidapi::HidError>,
) -> bool {
    call_ensures(hid_write, (device, report), r)
}

/// A started HID library: its context and the devices it enumerated.
pub struct HidSession {
    api: hidapi::HidApi,
    devices: Vec<HidDeviceEntry>,
}

impl HidSession {
    /// The HID context.
    pub closed spec fn api(&self) -> hidapi::HidApi {
        self.api
    }

    /// The enumerated devices, in the context's order.
    pub closed spec fn entries(&self) -> Seq<HidDeviceEntry> {
        self.devices@
    }

    /// The enumerated devices.
    pub fn devices(&self) -> (r: &Vec<HidDeviceEntry>)
        ensures
            r@ == self.entries(),
    {
        &self.devices
    }
}

/// The device that an open gave, if it gave one.
pub open spec fn opened<D>(res: Result<D, hidapi::HidError>) -> Option<D> {
    match res {
        Ok(d) => Some(d),
        Err(_) => None,
    }
}

/// Starts the HID library and takes its device list: the session holds the
/// context that `HidApi::new` gave, and that context's devices in order.
pub fn open_session() -> (r: Result<HidSession, hidapi::HidError>)
    ensures
        r matches Ok(s) ==> hid_started(Ok::<hidapi::HidApi, hidapi::HidError>(s.api()))
            && s.entries().map_values(|e: HidDeviceEntry| entry_view(e)) == hid_device_infos(
            s.api(),
        ),
        r matches Err(e) ==> hid_started(Err::<hidapi::HidApi, hidapi::HidError>(e)),
{
    let started = hid_api_new();
    let ghost sg = started;
    match started {
        Ok(api) => {
            let devices = hid_device_list(&api);
            let s = HidSession { api, devices };
            assert(sg == Ok::<hidapi::HidApi, hidapi::HidError>(s.api()));
            Ok(s)
        },
        Err(e) => {
            assert(sg == Err::<hidapi::HidApi, hidapi::HidError>(e));
            Err(e)
        },
    }
}

/// Opens the device with the given vendor and product id through
/// `HidApi::open` on the session's context.
pub fn open_by_ids(s: &HidSession, vid: u16, pid: u16) -> (r: Option<hidapi::HidDevice>)
    ensures
        exists|res: Result<hidapi::HidDevice, hidapi::HidError>|
            #[trigger] hid_opened_by_ids(s.api(), vid, pid, res) && r == opened(res),
{
    let res = hid_open(&s.api, vid, pid);
    let ghost rg = res;
    assert(hid_opened_by_ids(s.api(), vid, pid, rg));
    match res {
        Ok(d) => {
            assert(rg == Ok::<hidapi::HidDevice, hidapi::HidError>(d));
            Some(d)
        },
        Err(e) => {
            assert(rg == Err::<hidapi::HidDevice, hidapi::HidError>(e));
            None
        },
    }
}

/// Opens the session's device at index `i`, through
/// `DeviceInfo::open_device` on that entry's device information.
pub fn open_listed(s: &HidSession, i: usize) -> (r: Option<hidapi::HidDevice>)
    ensures
        i < s.entries().len() ==> exists|res: Result<hidapi::HidDevice, hidapi::HidError>|
            #[trigger] hid_opened_listed(s.entries()[i as int].info, s.api(), res) && r == opened(
                res,
            ),
        i >= s.entries().len() ==> r is None,
{
    if i < s.devices.len() {
        let res = hid_open_device(&s.devices[i].info, &s.api);
        let ghost rg = res;
        assert(hid_opened_listed(s.entries()[i as int].info, s.api(), rg));
        match res {
            Ok(d) => {
                assert(rg == Ok::<hidapi::HidDevice, hidapi::HidError>(d));
                Some(d)
            },
            Err(e) => {
                assert(rg == Err::<hidapi::HidDevice, hidapi::HidError>(e));
                None
            },
        }
    } else {
        None
    }
}

/// Writes one output report to the device through `HidDevice::write`.
pub fn write_report(device: &hidapi::HidDevice, report: &[u8]) -> (r: Result<
    usize,
    hidapi::HidError,
>)
    ensures
        hid_wrote(device, report, r),
{
    hid_write(device, report)
}

} // verus!
