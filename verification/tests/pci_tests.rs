use beyond_os::pci::{
    scan, read_bar, enable_io_bus_master, config_address, Bar, BarKind, ConfigSpace,
    SyntheticConfigSpace,
};

#[test]
fn empty_config_space_scans_nothing() {
    // vendor id reads 0xFFFF everywhere: zero devices reported
    let cfg = SyntheticConfigSpace::new();
    let devices = scan(&cfg);
    assert_eq!(devices.len(), 0);
}

#[test]
fn scan_reports_single_function_device() {
    let mut cfg = SyntheticConfigSpace::new();
    // identity registers are read-only: all bits hardwired
    let a_id = config_address(0, 3, 0, 0x00);
    let a_class = config_address(0, 3, 0, 0x08);
    let a_header = config_address(0, 3, 0, 0x0c);
    cfg.add_register(a_id, 0, 0x1001_1af4, 0); // device id 0x1001, vendor 0x1af4
    cfg.add_register(a_class, 0, 0x0100_8002, 0); // class 1, subclass 0, prog-if 0x80, rev 2
    cfg.add_register(a_header, 0, 0x0000_0000, 0); // header type 0: single function

    let devices = scan(&cfg);
    assert_eq!(devices.len(), 1);
    let d = devices[0];
    assert_eq!(d.bus, 0);
    assert_eq!(d.device, 3);
    assert_eq!(d.function, 0);
    assert_eq!(d.vendor_id, 0x1af4);
    assert_eq!(d.device_id, 0x1001);
    assert_eq!(d.class_code, 0x01);
    assert_eq!(d.subclass, 0x00);
    assert_eq!(d.prog_if, 0x80);
    assert_eq!(d.revision_id, 0x02);
    assert_eq!(d.header_type, 0x00);
}

#[test]
fn bar_size_io_example() {
    // I/O BAR whose original dword reads 0x0000_0001; the size probe
    // reads back all-ones in the writable bits, masked to 0xFFFF_FFFC,
    // which decodes to a 4-byte window.
    let mut cfg = SyntheticConfigSpace::new();
    let a_bar = config_address(0, 1, 0, 0x10);
    cfg.add_register(a_bar, 0xffff_fffc, 0x0000_0001, 0);

    let bar = read_bar(&mut cfg, 0, 1, 0, 0).unwrap();
    assert_eq!(bar.kind, BarKind::Io);
    assert_eq!(bar.base, 0);
    assert_eq!(bar.size, Some(4));
}

#[test]
fn bar_probe_restores_register() {
    let mut cfg = SyntheticConfigSpace::new();
    let a_bar = config_address(0, 1, 0, 0x10);
    // 16-byte I/O window based at 0x c000
    cfg.add_register(a_bar, 0xffff_fff0, 0x0000_c001, 0x0000_c000);

    let before = cfg.read_dword(0, 1, 0, 0x10);
    let bar = read_bar(&mut cfg, 0, 1, 0, 0).unwrap();
    let after = cfg.read_dword(0, 1, 0, 0x10);
    assert_eq!(before, after);
    assert_eq!(bar.kind, BarKind::Io);
    assert_eq!(bar.base, 0xc000);
}

#[test]
fn unimplemented_bar_reads_none() {
    let mut cfg = SyntheticConfigSpace::new();
    let a_bar = config_address(0, 1, 0, 0x10);
    cfg.add_register(a_bar, 0, 0, 0); // reads zero: unimplemented
    assert!(read_bar(&mut cfg, 0, 1, 0, 0).is_none());
    // out-of-range index
    assert!(read_bar(&mut cfg, 0, 1, 0, 6).is_none());
}

#[test]
fn mmio32_bar_decodes() {
    let mut cfg = SyntheticConfigSpace::new();
    let a_bar = config_address(0, 2, 0, 0x14);
    // 32-bit memory BAR at 0xfebf0000, 64 KiB window
    cfg.add_register(a_bar, 0xffff_0000, 0xfebf_0000, 0xfebf_0000);
    let bar = read_bar(&mut cfg, 0, 2, 0, 1).unwrap();
    assert_eq!(bar.kind, BarKind::Mmio32);
    assert_eq!(bar.base, 0xfebf_0000);
    assert_eq!(bar.size, Some(0x10000));
}

#[test]
fn enable_io_bus_master_sets_command_bits() {
    let mut cfg = SyntheticConfigSpace::new();
    let a_cmd = config_address(0, 1, 0, 0x04);
    // status half hardwired, command half writable
    cfg.add_register(a_cmd, 0x0000_ffff, 0x0010_0000, 0);
    enable_io_bus_master(&mut cfg, 0, 1, 0);
    let v = cfg.read_dword(0, 1, 0, 0x04);
    assert_eq!(v & 0x1, 0x1); // I/O space enable
    assert_eq!(v & 0x4, 0x4); // bus master enable
    assert_eq!(v & 0xffff_0000, 0x0010_0000); // status half untouched
}

#[test]
fn bar_struct_fields() {
    let b = Bar { kind: BarKind::Mmio64, base: 0x1_0000_0000, size: None };
    assert_eq!(b.kind, BarKind::Mmio64);
    assert_eq!(b.base, 0x1_0000_0000);
    assert!(b.size.is_none());
}
