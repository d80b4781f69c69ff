use rkscan::rk_devices::{DeviceDescriptor, RKDevices, LOADER, MASK_ROM, USB_VENDOR_ID};

fn descriptor(bus: u8, vendor: u16, product: u16, version: &str) -> DeviceDescriptor {
    DeviceDescriptor {
        bus_number: bus,
        vendor_id: vendor,
        product_id: product,
        usb_version: version.to_string(),
    }
}

#[test]
fn no_devices_renders_not_found() {
    let devices = RKDevices::new();
    assert_eq!(devices.render(), "No devices found!");
}

#[test]
fn non_matching_devices_render_not_found() {
    let mut devices = RKDevices::new();
    let list = vec![
        descriptor(1, 0x1d6b, 0x0002, "2.00"),
        descriptor(2, 0x046d, 0xc31c, "1.10"),
    ];
    devices.search(&list);
    assert!(!devices.found);
    assert_eq!(devices.devices.len(), 0);
    assert_eq!(devices.render(), "No devices found!");
}

#[test]
fn foreign_vendor_is_excluded() {
    let mut devices = RKDevices::new();
    let list = vec![descriptor(1, 0x2206, 0x1100, "2.00")];
    devices.search(&list);
    assert!(!devices.found);
    assert_eq!(devices.devices.len(), 0);
}

#[test]
fn zero_upper_product_byte_is_excluded() {
    let mut devices = RKDevices::new();
    let list = vec![descriptor(1, 0x2207, 0x0001, "2.00")];
    devices.search(&list);
    assert!(!devices.found);
    assert_eq!(devices.devices.len(), 0);
    assert_eq!(devices.render(), "No devices found!");
}

#[test]
fn even_version_is_mask_rom() {
    let mut devices = RKDevices::new();
    let list = vec![descriptor(3, 0x2207, 0x1100, "2.00")];
    devices.search(&list);
    assert!(devices.found);
    assert_eq!(devices.devices.len(), 1);
    assert_eq!(devices.devices[0].location, MASK_ROM);
    assert_eq!(devices.devices[0].location_string, "Mask-ROM mode");
    assert_eq!(
        devices.render(),
        "Found 1 connected Rockchip USB device\nBusNum=3 VID=0x2207 PID=0x1100 Mode=Mask-ROM mode"
    );
}

#[test]
fn odd_version_is_loader() {
    let mut devices = RKDevices::new();
    let list = vec![descriptor(3, 0x2207, 0x1100, "1.01")];
    devices.search(&list);
    assert!(devices.found);
    assert_eq!(devices.devices.len(), 1);
    assert_eq!(devices.devices[0].location, LOADER);
    assert_eq!(devices.devices[0].location_string, "Loader mode");
    assert_eq!(
        devices.render(),
        "Found 1 connected Rockchip USB device\nBusNum=3 VID=0x2207 PID=0x1100 Mode=Loader mode"
    );
}

#[test]
fn two_devices_render_in_enumeration_order() {
    let mut devices = RKDevices::new();
    let list = vec![
        descriptor(1, 0x2207, 0x1100, "2.00"),
        descriptor(4, 0x2207, 0x3300, "1.01"),
    ];
    devices.search(&list);
    assert!(devices.found);
    assert_eq!(devices.devices.len(), 2);
    assert_eq!(
        devices.render(),
        "Found 2 connected Rockchip USB devices\n\
         BusNum=1 VID=0x2207 PID=0x1100 Mode=Mask-ROM mode\n\
         BusNum=4 VID=0x2207 PID=0x3300 Mode=Loader mode"
    );
}

#[test]
fn mixed_list_keeps_only_qualifying_in_order() {
    let mut devices = RKDevices::new();
    let list = vec![
        descriptor(1, 0x1d6b, 0x0002, "2.00"),
        descriptor(2, 0x2207, 0x1100, "2.00"),
        descriptor(2, 0x2207, 0x0001, "2.00"),
        descriptor(5, 0x2207, 0x1200, "1.01"),
    ];
    devices.search(&list);
    assert_eq!(devices.devices.len(), 2);
    assert_eq!(devices.devices[0].bus_number, 2);
    assert_eq!(devices.devices[1].bus_number, 5);
}

#[test]
fn search_appends_to_earlier_matches() {
    let mut devices = RKDevices::new();
    devices.search(&vec![descriptor(1, 0x2207, 0x1100, "2.00")]);
    devices.search(&vec![descriptor(2, 0x2207, 0x3300, "1.01")]);
    assert_eq!(devices.devices.len(), 2);
    assert!(devices.found);
    assert_eq!(devices.devices[0].bus_number, 1);
    assert_eq!(devices.devices[1].bus_number, 2);
}

#[test]
fn check_if_rockchip_reports_match() {
    let mut devices = RKDevices::new();
    let matched = devices.check_if_rockchip(7, 0x2207, 0x1100, "2.00");
    assert!(matched);
    assert!(devices.found);
    assert_eq!(devices.devices.len(), 1);
    assert_eq!(devices.devices[0].bus_number, 7);
    assert_eq!(devices.devices[0].vendor_id, 0x2207);
    assert_eq!(devices.devices[0].product_id, 0x1100);
}

#[test]
fn check_if_rockchip_rejects_foreign_vendor() {
    let mut devices = RKDevices::new();
    let matched = devices.check_if_rockchip(7, 0x1d6b, 0x1100, "2.00");
    assert!(!matched);
    assert!(!devices.found);
    assert_eq!(devices.devices.len(), 0);
}

#[test]
fn get_usb_type_follows_parity() {
    let mut devices = RKDevices::new();
    assert_eq!(devices.get_usb_type("2.00"), MASK_ROM);
    assert_eq!(devices.get_usb_type("1.01"), LOADER);
    assert_eq!(devices.get_usb_type("3.2"), MASK_ROM);
    assert_eq!(devices.get_usb_type("1.11"), LOADER);
}

#[test]
fn vendor_constant_is_rockchip() {
    assert_eq!(USB_VENDOR_ID, 0x2207);
    assert_eq!(MASK_ROM, 0x01);
    assert_eq!(LOADER, 0x02);
}
