use vstd::prelude::*;
use vstd::string::StringExecFns;
use crate::text::{dec_rep, hex_field, append_dec, append_hex_field};
use crate::version::{version_ok, version_value, parse_version};

verus! {

/// Classification code reported for a device whose second-stage bootloader is
/// absent (bootROM-only state).
pub const MASK_ROM: u16 = 0x01;

/// Classification code reported for a device running a first-stage recovery
/// bootloader.
pub const LOADER: u16 = 0x02;

/// The vendor identifier that marks a Rockchip device.
pub const USB_VENDOR_ID: u16 = 0x2207;

/// What one attached USB device reports during enumeration, reduced to the
/// plain values this library reads: the bus it sits on, its vendor and
/// product identifiers, and its specification release number written as a
/// dotted version string such as "2.00".
pub struct DeviceDescriptor {
    pub bus_number: u8,
    pub vendor_id: u16,
    pub product_id: u16,
    pub usb_version: String,
}

/// The mathematical content of a `DeviceDescriptor`.
pub ghost struct DescriptorView {
    pub bus_number: u8,
    pub vendor_id: u16,
    pub product_id: u16,
    pub usb_version: Seq<char>,
}

impl View for DeviceDescriptor {
    type V = DescriptorView;

    open spec fn view(&self) -> DescriptorView {
        DescriptorView {
            bus_number: self.bus_number,
            vendor_id: self.vendor_id,
            product_id: self.product_id,
            usb_version: self.usb_version@,
        }
    }
}

/// One matched Rockchip device, as recorded during a scan.
pub struct RKDevice {
    pub bus_number: u8,
    pub vendor_id: u16,
    pub product_id: u16,
    pub location: u16,
    pub location_string: String,
}

/// The mathematical content of an `RKDevice`.
pub ghost struct DeviceView {
    pub bus_number: u8,
    pub vendor_id: u16,
    pub product_id: u16,
    pub location: u16,
    pub label: Seq<char>,
}

impl View for RKDevice {
    type V = DeviceView;

    open spec fn view(&self) -> DeviceView {
        DeviceView {
            bus_number: self.bus_number,
            vendor_id: self.vendor_id,
            product_id: self.product_id,
            location: self.location,
            label: self.location_string@,
        }
    }
}

/// The result of one scan: the matched devices in enumeration order, and a
/// flag that is set exactly when at least one device was matched.
pub struct RKDevices {
    pub devices: Vec<RKDevice>,
    pub found: bool,
}

/// The mathematical content of an `RKDevices`.
pub ghost struct ScanView {
    pub devices: Seq<DeviceView>,
    pub found: bool,
}

impl View for RKDevices {
    type V = ScanView;

    open spec fn view(&self) -> ScanView {
        ScanView { devices: self.devices@.map_values(|d: RKDevice| d@), found: self.found }
    }
}

/// A device is kept when its vendor identifier is the Rockchip one and the
/// upper byte of its product identifier is non-zero.
pub open spec fn qualifies(vendor_id: u16, product_id: u16) -> bool {
    vendor_id == USB_VENDOR_ID && product_id >> 8 > 0
}

/// The classification derived from the version string: the least significant
/// bit of its digits read as a number decides between the two modes.
pub open spec fn classify(version: Seq<char>) -> u16 {
    if version_value(version) % 2 == 0 {
        MASK_ROM
    } else {
        LOADER
    }
}

/// The label that belongs to a classification code. The third label is never
/// reached: a classification is always one of the two codes.
pub open spec fn location_label(location: u16) -> Seq<char> {
    if location == MASK_ROM {
        "Mask-ROM mode"@
    } else if location == LOADER {
        "Loader mode"@
    } else {
        "Unknown"@
    }
}

/// The record a qualifying descriptor turns into.
pub open spec fn matched_view(d: DescriptorView) -> DeviceView {
    DeviceView {
        bus_number: d.bus_number,
        vendor_id: d.vendor_id,
        product_id: d.product_id,
        location: classify(d.usb_version),
        label: location_label(classify(d.usb_version)),
    }
}

/// The devices a scan of `ds` yields: the qualifying descriptors, in order,
/// each classified.
pub open spec fn scan_views(ds: Seq<DescriptorView>) -> Seq<DeviceView>
    decreases ds.len(),
{
    if ds.len() == 0 {
        Seq::empty()
    } else {
        let rest = scan_views(ds.drop_last());
        if qualifies(ds.last().vendor_id, ds.last().product_id) {
            rest.push(matched_view(ds.last()))
        } else {
            rest
        }
    }
}

/// The views of a list of descriptors.
pub open spec fn descriptor_views(ds: Seq<DeviceDescriptor>) -> Seq<DescriptorView> {
    ds.map_values(|d: DeviceDescriptor| d@)
}

pub proof fn lemma_scan_views_push(ds: Seq<DescriptorView>, d: DescriptorView)
    ensures
        scan_views(ds.push(d)) == if qualifies(d.vendor_id, d.product_id) {
            scan_views(ds).push(matched_view(d))
        } else {
            scan_views(ds)
        },
{
    assert(ds.push(d).drop_last() =~= ds);
}

/// One line of the report for one matched device.
pub open spec fn device_line(d: DeviceView) -> Seq<char> {
    "BusNum="@ + dec_rep(d.bus_number as nat) + " VID="@ + hex_field(d.vendor_id as nat)
        + " PID="@ + hex_field(d.product_id as nat) + " Mode="@ + d.label
}

/// The per-device lines, each preceded by a line break.
pub open spec fn device_lines(devs: Seq<DeviceView>) -> Seq<char>
    decreases devs.len(),
{
    if devs.len() == 0 {
        Seq::empty()
    } else {
        device_lines(devs.drop_last()) + "\n"@ + device_line(devs.last())
    }
}

pub proof fn lemma_device_lines_push(devs: Seq<DeviceView>, d: DeviceView)
    ensures
        device_lines(devs.push(d)) == device_lines(devs) + "\n"@ + device_line(d),
{
    assert(devs.push(d).drop_last() =~= devs);
}

/// The count line, with "device" in the singular exactly when one device was
/// found.
pub open spec fn header(n: nat) -> Seq<char> {
    "Found "@ + dec_rep(n) + " connected Rockchip USB "@ + (if n == 1 {
        "device"@
    } else {
        "devices"@
    })
}

/// The whole report of one scan.
pub open spec fn report(m: ScanView) -> Seq<char> {
    if m.found {
        header(m.devices.len()) + device_lines(m.devices)
    } else {
        "No devices found!"@
    }
}

impl RKDevices {
    /// The `found` flag is redundant: it must agree with non-emptiness of the
    /// device list.
    pub open spec fn wf(&self) -> bool {
        self.found <==> self.devices@.len() > 0
    }

    pub fn new() -> (r: Self)
        ensures
            r.wf(),
            r@.devices.len() == 0,
            !r.found,
    {
        RKDevices { devices: Vec::new(), found: false }
    }

    /// The classification code for one version string: the least significant
    /// bit of its digits, read as a decimal number, decides the mode.
    pub fn get_usb_type(&mut self, usb_version_raw: &str) -> (r: u16)
        requires
            version_ok(usb_version_raw@),
        ensures
            r == classify(usb_version_raw@),
            *final(self) == *old(self),
    {
        let usb_version_int = parse_version(usb_version_raw).unwrap();
        let temp = usb_version_int & 0x1;
        proof {
            assert(usb_version_int & 0x1 == usb_version_int % 2) by (bit_vector);
        }
        if temp == 0 {
            return MASK_ROM;
        }
        LOADER
    }

    /// Record the device if it qualifies: the vendor identifier must be the
    /// Rockchip one and the upper byte of the product identifier non-zero.
    /// Exactly then a classified record is appended and `found` is set.
    pub fn check_if_rockchip(
        &mut self,
        bus_number: u8,
        vendor_id: u16,
        product_id: u16,
        usb_version: &str,
    ) -> (r: bool)
        requires
            old(self).wf(),
            qualifies(vendor_id, product_id) ==> version_ok(usb_version@),
        ensures
            final(self).wf(),
            r == qualifies(vendor_id, product_id),
            r ==> final(self)@.devices == old(self)@.devices.push(
                matched_view(
                    DescriptorView { bus_number, vendor_id, product_id, usb_version: usb_version@ },
                ),
            ) && final(self).found,
            !r ==> *final(self) == *old(self),
    {
        if vendor_id == USB_VENDOR_ID && product_id >> 8 > 0 {
            let location = self.get_usb_type(usb_version);
            let location_string = if location == MASK_ROM {
                String::from_str("Mask-ROM mode")
            } else if location == LOADER {
                String::from_str("Loader mode")
            } else {
                String::from_str("Unknown")
            };
            let device = RKDevice { bus_number, vendor_id, product_id, location, location_string };
            proof {
                assert(device@ == matched_view(
                    DescriptorView { bus_number, vendor_id, product_id, usb_version: usb_version@ },
                ));
            }
            let ghost before = self.devices@;
            self.devices.push(device);
            self.found = true;
            proof {
                assert(self@.devices =~= before.map_values(|d: RKDevice| d@).push(device@));
            }
            return true;
        }
        false
    }

    /// Scan a list of descriptors in order: the qualifying ones are appended,
    /// classified, behind whatever the scan already held.
    pub fn search(&mut self, descriptors: &Vec<DeviceDescriptor>)
        requires
            old(self).wf(),
            forall|i: int|
                0 <= i < descriptors@.len() && qualifies(
                    (#[trigger] descriptors@[i]).vendor_id,
                    descriptors@[i].product_id,
                ) ==> version_ok(descriptors@[i].usb_version@),
        ensures
            final(self).wf(),
            final(self)@.devices == old(self)@.devices + scan_views(descriptor_views(descriptors@)),
            final(self).found == (old(self).found || scan_views(
                descriptor_views(descriptors@),
            ).len() > 0),
    {
        let ghost vs = descriptor_views(descriptors@);
        let ghost entry = self@.devices;
        let ghost entry_found = self.found;
        let n = descriptors.len();
        let mut i: usize = 0;
        while i < n
            invariant
                0 <= i <= n,
                n == descriptors@.len(),
                vs == descriptor_views(descriptors@),
                entry_found ==> entry.len() > 0,
                !entry_found ==> entry.len() == 0,
                forall|k: int|
                    0 <= k < descriptors@.len() && qualifies(
                        (#[trigger] descriptors@[k]).vendor_id,
                        descriptors@[k].product_id,
                    ) ==> version_ok(descriptors@[k].usb_version@),
                self.wf(),
                self@.devices == entry + scan_views(vs.take(i as int)),
                self.found == (entry_found || scan_views(vs.take(i as int)).len() > 0),
            decreases n - i,
        {
            let d = &descriptors[i];
            proof {
                assert(vs.take(i + 1) =~= vs.take(i as int).push(vs[i as int]));
                lemma_scan_views_push(vs.take(i as int), vs[i as int]);
            }
            let matched = self.check_if_rockchip(
                d.bus_number,
                d.vendor_id,
                d.product_id,
                d.usb_version.as_str(),
            );
            proof {
                if matched {
                    assert(self@.devices =~= entry + scan_views(vs.take(i + 1)));
                }
            }
            i = i + 1;
        }
        proof {
            assert(vs.take(n as int) =~= vs);
        }
    }

    /// The report of this scan: "No devices found!" when nothing was matched,
    /// else a count line followed by one line per device, in scan order.
    #[verifier::rlimit(100)]
    pub fn render(&self) -> (r: String)
        requires
            self.wf(),
        ensures
            r@ == report(self@),
    {
        if !self.found {
            return String::from_str("No devices found!");
        }
        let mut out = String::new();
        out.append("Found ");
        append_dec(&mut out, self.devices.len() as u64);
        out.append(" connected Rockchip USB ");
        if self.devices.len() == 1 {
            out.append("device");
        } else {
            out.append("devices");
        }
        proof {
            assert(out@ =~= header(self@.devices.len()));
            assert(self@.devices.take(0) =~= Seq::<DeviceView>::empty());
            assert(out@ =~= header(self@.devices.len()) + device_lines(self@.devices.take(0)));
        }
        let n = self.devices.len();
        let mut i: usize = 0;
        while i < n
            invariant
                0 <= i <= n,
                n == self.devices@.len(),
                self.wf(),
                out@ == header(self@.devices.len()) + device_lines(self@.devices.take(i as int)),
            decreases n - i,
        {
            let d = &self.devices[i];
            out.append("\n");
            out.append("BusNum=");
            append_dec(&mut out, d.bus_number as u64);
            out.append(" VID=");
            append_hex_field(&mut out, d.vendor_id as u64);
            out.append(" PID=");
            append_hex_field(&mut out, d.product_id as u64);
            out.append(" Mode=");
            out.append(d.location_string.as_str());
            proof {
                assert(self@.devices.take(i + 1) =~= self@.devices.take(i as int).push(
                    self@.devices[i as int],
                ));
                lemma_device_lines_push(self@.devices.take(i as int), self@.devices[i as int]);
                assert(out@ =~= header(self@.devices.len()) + device_lines(
                    self@.devices.take(i + 1),
                ));
            }
            i = i + 1;
        }
        proof {
            assert(self@.devices.take(n as int) =~= self@.devices);
        }
        out
    }
}

} // verus!
