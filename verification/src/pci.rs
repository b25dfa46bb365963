//! PCI configuration-space enumeration and BAR decoding.
//!
//! Configuration Mechanism #1 addresses a register by an encoded dword
//! written to port 0xCF8, whose data is then read from port 0xCFC:
//! enable bit 31, bus bits 23:16, device bits 15:11, function bits 10:8,
//! dword-aligned register offset bits 7:2.  Absence of a device is reported
//! as vendor id 0xFFFF; if the header type of function 0 has bit 7 set the
//! device is multi-function and functions 0..8 are probed.
//!
//! The `ConfigSpace` trait abstracts the access mechanism so the decoding
//! logic is verified against an explicit register model; the hardware
//! backend goes through the real ports, and `SyntheticConfigSpace` is a
//! verified in-memory backend.

use vstd::prelude::*;

verus! {

pub const CONFIG_ENABLE: u32 = 0x8000_0000;
pub const BUS_SHIFT: u32 = 16;
pub const DEVICE_SHIFT: u32 = 11;
pub const FUNCTION_SHIFT: u32 = 8;
pub const OFFSET_ALIGN_MASK: u32 = 0xfc;

pub const COMMAND_STATUS_OFFSET: u8 = 0x04;
pub const CLASS_FIELDS_OFFSET: u8 = 0x08;
pub const HEADER_TYPE_OFFSET: u8 = 0x0c;
pub const BAR0_OFFSET: u8 = 0x10;

pub const VENDOR_ID_OFFSET: u8 = 0x00;
pub const DEVICE_ID_OFFSET: u8 = 0x02;

pub const INVALID_VENDOR_ID: u16 = 0xffff;
pub const MULTIFUNCTION_BIT: u8 = 0x80;

pub const COMMAND_IO_SPACE: u16 = 0x0001;
pub const COMMAND_BUS_MASTER: u16 = 0x0004;
pub const STATUS_MASK: u32 = 0xffff_0000;
pub const WORD_MASK: u32 = 0xffff;

pub const BAR_COUNT: u8 = 6;
pub const BAR_STRIDE: u8 = 4;
pub const BAR_UPPER_OFFSET: u8 = 4;
pub const LAST_BAR_INDEX: u8 = 5;
pub const BAR_SIZE_PROBE_VALUE: u32 = 0xffff_ffff;
pub const BAR_IO_SPACE_BIT: u32 = 0x1;
pub const BAR_IO_BASE_MASK: u32 = 0xffff_fffc;
pub const BAR_MEM_TYPE_MASK: u32 = 0x3;
pub const BAR_MEM_TYPE_64: u32 = 0x2;
pub const BAR_MEM_BASE_MASK: u32 = 0xffff_fff0;
pub const BAR_MEM_TYPE_SHIFT: u32 = 1;

/// Identity of one PCI function, as read during a scan.
#[derive(Debug, Clone, Copy, PartialEq, Eq, Structural)]
pub struct PciDevice {
    pub bus: u8,
    pub device: u8,
    pub function: u8,
    pub vendor_id: u16,
    pub device_id: u16,
    pub class_code: u8,
    pub subclass: u8,
    pub prog_if: u8,
    pub revision_id: u8,
    pub header_type: u8,
}

/// Resource window kind described by a Base Address Register.
#[derive(Debug, Clone, Copy, PartialEq, Eq, Structural)]
pub enum BarKind {
    Io,
    Mmio32,
    Mmio64,
}

/// Decoded Base Address Register.
#[derive(Debug, Clone, Copy, PartialEq)]
pub struct Bar {
    pub kind: BarKind,
    pub base: u64,
    pub size: Option<u64>,
}

/// Configuration Mechanism #1 address for a config-space register.
pub open spec fn spec_config_address(bus: u8, device: u8, function: u8, offset: u8) -> u32 {
    CONFIG_ENABLE | ((bus as u32) << BUS_SHIFT) | ((device as u32) << DEVICE_SHIFT) | ((
    function as u32) << FUNCTION_SHIFT) | (offset as u32 & OFFSET_ALIGN_MASK)
}

/// Encode bus/device/function and a dword-aligned offset for port 0xCF8.
pub fn config_address(bus: u8, device: u8, function: u8, offset: u8) -> (r: u32)
    ensures
        r == spec_config_address(bus, device, function, offset),
{
    CONFIG_ENABLE | ((bus as u32) << BUS_SHIFT) | ((device as u32) << DEVICE_SHIFT) | ((
    function as u32) << FUNCTION_SHIFT) | (offset as u32 & OFFSET_ALIGN_MASK)
}

/// PCI configuration space access.
///
/// The model is per config address: `dword(a)` is what a read returns, and
/// `response(a, v)` is what the register at `a` holds after `v` is written
/// to it (hardware may hardwire bits, which is what BAR size probing
/// exploits).  A read hands back a value the register would also hold after
/// writing it back — writing back what was read restores the register.
pub trait ConfigSpace: Sized {
    /// Current readable value of the dword register at config address `a`.
    spec fn dword(&self, a: u32) -> u32;

    /// Value the register at `a` holds after `v` is written to it.
    spec fn response(&self, a: u32, v: u32) -> u32;

    /// Read the 32-bit config register for `offset & 0xFC`.
    fn read_dword(&self, bus: u8, device: u8, function: u8, offset: u8) -> (r: u32)
        ensures
            r == self.dword(spec_config_address(bus, device, function, offset)),
            self.response(spec_config_address(bus, device, function, offset), r) == r,
    ;

    /// Write the 32-bit config register for `offset & 0xFC`.
    fn write_dword(&mut self, bus: u8, device: u8, function: u8, offset: u8, value: u32)
        ensures
            final(self).dword(spec_config_address(bus, device, function, offset)) == old(
                self,
            ).response(spec_config_address(bus, device, function, offset), value),
            forall|a: u32|
                a != spec_config_address(bus, device, function, offset)
                    ==> final(self).dword(a) == old(self).dword(a),
            forall|a: u32, v: u32| final(self).response(a, v) == old(self).response(a, v),
    ;
}

/// 16-bit half of a config dword, selected by offset bit 1.
pub open spec fn spec_word_sel(d: u32, offset: u8) -> u16 {
    if offset & 2 == 2 {
        ((d >> 16) & WORD_MASK) as u16
    } else {
        (d & WORD_MASK) as u16
    }
}

/// 16-bit config value at `offset`, as `read_config_word` returns it.
pub open spec fn spec_config_word<C: ConfigSpace>(
    c: &C,
    bus: u8,
    device: u8,
    function: u8,
    offset: u8,
) -> u16 {
    spec_word_sel(c.dword(spec_config_address(bus, device, function, offset)), offset)
}

/// Header type byte of a function (offset 0x0C, bits 23:16).
pub open spec fn spec_header_type<C: ConfigSpace>(
    c: &C,
    bus: u8,
    device: u8,
    function: u8,
) -> u8 {
    ((c.dword(spec_config_address(bus, device, function, HEADER_TYPE_OFFSET)) >> 16) & 0xff) as u8
}

/// The function answers the scan: function 0 of its device is present, the
/// device is multi-function if the function index is non-zero, and the
/// function's own vendor id is valid.
pub open spec fn spec_present<C: ConfigSpace>(c: &C, bus: u8, device: u8, function: u8) -> bool {
    &&& spec_config_word(c, bus, device, 0, VENDOR_ID_OFFSET) != INVALID_VENDOR_ID
    &&& (function == 0 || spec_header_type(c, bus, device, 0) & MULTIFUNCTION_BIT != 0)
    &&& spec_config_word(c, bus, device, function, VENDOR_ID_OFFSET) != INVALID_VENDOR_ID
}

/// The identity record the scan reports for a present function.
pub open spec fn spec_device_record<C: ConfigSpace>(
    c: &C,
    bus: u8,
    device: u8,
    function: u8,
) -> PciDevice {
    let class_dword = c.dword(spec_config_address(bus, device, function, CLASS_FIELDS_OFFSET));
    PciDevice {
        bus,
        device,
        function,
        vendor_id: spec_config_word(c, bus, device, function, VENDOR_ID_OFFSET),
        device_id: spec_config_word(c, bus, device, function, DEVICE_ID_OFFSET),
        class_code: (class_dword >> 24) as u8,
        subclass: ((class_dword >> 16) & 0xff) as u8,
        prog_if: ((class_dword >> 8) & 0xff) as u8,
        revision_id: (class_dword & 0xff) as u8,
        header_type: spec_header_type(c, bus, device, function),
    }
}

/// Number of bus/device/function combinations: 256 buses, 32 devices,
/// 8 functions.
pub const BDF_COUNT: u32 = 65536;

/// The devices a scan reports from linear bus/device/function index `n`
/// onward, in ascending order.
pub open spec fn scan_spec<C: ConfigSpace>(c: &C, n: int) -> Seq<PciDevice>
    decreases BDF_COUNT - n when 0 <= n <= BDF_COUNT
{
    if n >= BDF_COUNT {
        Seq::empty()
    } else {
        let bus = (n / 256) as u8;
        let device = ((n / 8) % 32) as u8;
        let function = (n % 8) as u8;
        let rest = scan_spec(c, n + 1);
        if spec_present(c, bus, device, function) {
            seq![spec_device_record(c, bus, device, function)] + rest
        } else {
            rest
        }
    }
}

/// A stretch of indices with no present function contributes nothing.
proof fn lemma_scan_spec_skip<C: ConfigSpace>(c: &C, a: int, b: int)
    requires
        0 <= a <= b <= BDF_COUNT,
        forall|n: int|
            a <= n < b ==> !spec_present(
                c,
                (n / 256) as u8,
                ((n / 8) % 32) as u8,
                #[trigger] ((n % 8) as u8),
            ),
    ensures
        scan_spec(c, a) == scan_spec(c, b),
    decreases b - a,
{
    if a < b {
        lemma_scan_spec_skip(c, a + 1, b);
    }
}

/// Read a 16-bit value from PCI config space: the containing dword, then
/// the 16-bit half selected by offset bit 1.
pub fn read_config_word<C: ConfigSpace>(
    cfg: &C,
    bus: u8,
    device: u8,
    function: u8,
    offset: u8,
) -> (r: u16)
    ensures
        r == spec_config_word(cfg, bus, device, function, offset),
{
    let value = cfg.read_dword(bus, device, function, offset & OFFSET_ALIGN_MASK as u8);
    proof {
        assert(spec_config_address(bus, device, function, (offset & 0xfcu8) as u8)
            == spec_config_address(bus, device, function, offset)) by (bit_vector);
        assert((offset & 0x2) == if offset & 2 == 2 { 2u8 } else { 0u8 }) by (bit_vector);
    }
    let shift: u8 = (offset & 0x2) * 8;
    let r = ((value >> shift) & WORD_MASK) as u16;
    proof {
        assert((value >> 0u8) == value) by (bit_vector);
        assert((value >> 16u8) == (value >> 16u32)) by (bit_vector);
    }
    r
}

/// Read class/subclass/prog-if/revision from offset 0x08, packed as
/// `[class][subclass][prog-if][revision]`.
pub fn read_class_fields<C: ConfigSpace>(cfg: &C, bus: u8, device: u8, function: u8) -> (r: (
    u8,
    u8,
    u8,
    u8,
))
    ensures
        r.0 == spec_device_record(cfg, bus, device, function).class_code,
        r.1 == spec_device_record(cfg, bus, device, function).subclass,
        r.2 == spec_device_record(cfg, bus, device, function).prog_if,
        r.3 == spec_device_record(cfg, bus, device, function).revision_id,
{
    let value = cfg.read_dword(bus, device, function, CLASS_FIELDS_OFFSET);
    let class_code = (value >> 24) as u8;
    let subclass = ((value >> 16) & 0xff) as u8;
    let prog_if = ((value >> 8) & 0xff) as u8;
    let revision_id = (value & 0xff) as u8;
    proof {
        assert((value >> 24) < 256 && ((value >> 16) & 0xff) < 256 && ((value >> 8) & 0xff) < 256
            && (value & 0xff) < 256) by (bit_vector);
    }
    (class_code, subclass, prog_if, revision_id)
}

/// Read the header type from offset 0x0C (bits 23:16).
pub fn read_header_type<C: ConfigSpace>(cfg: &C, bus: u8, device: u8, function: u8) -> (r: u8)
    ensures
        r == spec_header_type(cfg, bus, device, function),
{
    let value = cfg.read_dword(bus, device, function, HEADER_TYPE_OFFSET);
    ((value >> 16) & 0xff) as u8
}

/// Scan all buses, devices and functions, in ascending order, and report
/// every present function.  Function 0 is probed first; functions 1..8 are
/// probed only on a multi-function device.  No device found means an empty
/// report, not an error.
pub fn scan<C: ConfigSpace>(cfg: &C) -> (r: Vec<PciDevice>)
    ensures
        r@ == scan_spec(cfg, 0),
{
    let mut found: Vec<PciDevice> = Vec::new();
    let mut bus: u16 = 0;
    while bus < 256
        invariant
            bus <= 256,
            scan_spec(cfg, 0) == found@ + scan_spec(cfg, bus as int * 256),
        decreases 256 - bus,
    {
        let mut device: u8 = 0;
        while device < 32
            invariant
                bus < 256,
                device <= 32,
                scan_spec(cfg, 0) == found@ + scan_spec(
                    cfg,
                    bus as int * 256 + device as int * 8,
                ),
            decreases 32 - device,
        {
            let ghost dev_base = bus as int * 256 + device as int * 8;
            let vendor_id = read_config_word(cfg, bus as u8, device, 0, VENDOR_ID_OFFSET);
            if vendor_id == INVALID_VENDOR_ID {
                proof {
                    assert forall|n: int| dev_base <= n < dev_base + 8 implies !spec_present(
                        cfg,
                        (n / 256) as u8,
                        ((n / 8) % 32) as u8,
                        #[trigger] ((n % 8) as u8),
                    ) by {
                        lemma_bdf_decode(bus, device, (n - dev_base) as u8);
                    }
                    lemma_scan_spec_skip(cfg, dev_base, dev_base + 8);
                }
                device = device + 1;
                continue;
            }

            let header_type = read_header_type(cfg, bus as u8, device, 0);
            let functions: u8 = if header_type & MULTIFUNCTION_BIT != 0 {
                8
            } else {
                1
            };

            let mut function: u8 = 0;
            while function < functions
                invariant
                    bus < 256,
                    device < 32,
                    function <= functions,
                    functions == 1 || functions == 8,
                    dev_base == bus as int * 256 + device as int * 8,
                    functions == 8 <==> spec_header_type(cfg, bus as u8, device, 0)
                        & MULTIFUNCTION_BIT != 0,
                    spec_config_word(cfg, bus as u8, device, 0, VENDOR_ID_OFFSET)
                        != INVALID_VENDOR_ID,
                    scan_spec(cfg, 0) == found@ + scan_spec(cfg, dev_base + function as int),
                decreases functions - function,
            {
                let ghost n = dev_base + function as int;
                proof {
                    lemma_bdf_decode(bus, device, function);
                }
                let vendor_id = read_config_word(cfg, bus as u8, device, function, VENDOR_ID_OFFSET);
                if vendor_id == INVALID_VENDOR_ID {
                    proof {
                        assert(!spec_present(cfg, bus as u8, device, function));
                        assert(scan_spec(cfg, n) == scan_spec(cfg, n + 1));
                    }
                    function = function + 1;
                    continue;
                }

                let device_id = read_config_word(cfg, bus as u8, device, function, DEVICE_ID_OFFSET);
                let (class_code, subclass, prog_if, revision_id) = read_class_fields(
                    cfg,
                    bus as u8,
                    device,
                    function,
                );
                let header_type = read_header_type(cfg, bus as u8, device, function);

                let dev = PciDevice {
                    bus: bus as u8,
                    device,
                    function,
                    vendor_id,
                    device_id,
                    class_code,
                    subclass,
                    prog_if,
                    revision_id,
                    header_type,
                };
                proof {
                    assert(spec_present(cfg, bus as u8, device, function));
                    assert(dev == spec_device_record(cfg, bus as u8, device, function));
                    assert(scan_spec(cfg, n) == seq![dev] + scan_spec(cfg, n + 1));
                }
                found.push(dev);
                function = function + 1;
            }
            proof {
                if functions == 1 {
                    assert forall|m: int| dev_base + 1 <= m < dev_base + 8 implies !spec_present(
                        cfg,
                        (m / 256) as u8,
                        ((m / 8) % 32) as u8,
                        #[trigger] ((m % 8) as u8),
                    ) by {
                        lemma_bdf_decode(bus, device, (m - dev_base) as u8);
                    }
                    lemma_scan_spec_skip(cfg, dev_base + 1, dev_base + 8);
                }
            }
            device = device + 1;
        }
        bus = bus + 1;
    }
    proof {
        assert(scan_spec(cfg, 256int * 256) == Seq::<PciDevice>::empty());
        assert(found@ + Seq::<PciDevice>::empty() == found@);
    }
    found
}

/// The linear index `bus * 256 + device * 8 + function` decodes back to the
/// same bus, device and function.
proof fn lemma_bdf_decode(bus: u16, device: u8, function: u8)
    requires
        bus < 256,
        device < 32,
        function < 8,
    ensures
        (bus as int * 256 + device as int * 8 + function as int) / 256 == bus as int,
        ((bus as int * 256 + device as int * 8 + function as int) / 8) % 32 == device as int,
        (bus as int * 256 + device as int * 8 + function as int) % 8 == function as int,
{
    let n = bus as int * 256 + device as int * 8 + function as int;
    assert(n / 256 == bus as int && (n / 8) % 32 == device as int && n % 8 == function as int)
        by (nonlinear_arith)
        requires
            n == bus as int * 256 + device as int * 8 + function as int,
            0 <= bus < 256,
            0 <= device < 32,
            0 <= function < 8,
    ;
}

/// Size decoded by an I/O BAR probe of the register at config address `a`:
/// all-ones written, the masked read-back inverted plus one.
pub open spec fn spec_bar_size_io<C: ConfigSpace>(c: &C, a: u32) -> Option<u64> {
    let mask = c.response(a, BAR_SIZE_PROBE_VALUE) & BAR_IO_BASE_MASK;
    let size = vstd::wrapping::u32_specs::wrapping_add(!mask, 1u32) & BAR_IO_BASE_MASK;
    if size == 0 {
        None
    } else {
        Some(size as u64)
    }
}

/// Size decoded by a 32-bit memory BAR probe of the register at `a`.
pub open spec fn spec_bar_size_mmio32<C: ConfigSpace>(c: &C, a: u32) -> Option<u64> {
    let mask = c.response(a, BAR_SIZE_PROBE_VALUE) & BAR_MEM_BASE_MASK;
    let size = vstd::wrapping::u32_specs::wrapping_add(!mask, 1u32) & BAR_MEM_BASE_MASK;
    if size == 0 {
        None
    } else {
        Some(size as u64)
    }
}

/// Size decoded by a 64-bit memory BAR probe of the registers at `a_low`
/// and `a_high`.
pub open spec fn spec_bar_size_mmio64<C: ConfigSpace>(c: &C, a_low: u32, a_high: u32) -> Option<
    u64,
> {
    let low_mask = c.response(a_low, BAR_SIZE_PROBE_VALUE) & BAR_MEM_BASE_MASK;
    let high_mask = c.response(a_high, BAR_SIZE_PROBE_VALUE);
    let mask = ((high_mask as u64) << 32) | (low_mask as u64);
    let size = vstd::wrapping::u64_specs::wrapping_add(!mask, 1u64);
    if size == 0 {
        None
    } else {
        Some(size)
    }
}

/// What `read_bar` decodes for BAR `index` of a function, from the
/// registers' readable values and probe responses.
pub open spec fn spec_read_bar<C: ConfigSpace>(
    c: &C,
    bus: u8,
    device: u8,
    function: u8,
    index: u8,
) -> Option<Bar> {
    if index >= BAR_COUNT {
        None
    } else {
        let offset = (BAR0_OFFSET + index * BAR_STRIDE) as u8;
        let a = spec_config_address(bus, device, function, offset);
        let original = c.dword(a);
        if original == 0 {
            None
        } else if original & BAR_IO_SPACE_BIT == BAR_IO_SPACE_BIT {
            Some(
                Bar {
                    kind: BarKind::Io,
                    base: (original & BAR_IO_BASE_MASK) as u64,
                    size: spec_bar_size_io(c, a),
                },
            )
        } else if (original >> BAR_MEM_TYPE_SHIFT) & BAR_MEM_TYPE_MASK == BAR_MEM_TYPE_64 {
            if index == LAST_BAR_INDEX {
                None
            } else {
                let a2 = spec_config_address(bus, device, function, (offset + BAR_UPPER_OFFSET) as u8);
                let upper = c.dword(a2);
                Some(
                    Bar {
                        kind: BarKind::Mmio64,
                        base: ((upper as u64) << 32) | ((original & BAR_MEM_BASE_MASK) as u64),
                        size: spec_bar_size_mmio64(c, a, a2),
                    },
                )
            }
        } else {
            Some(
                Bar {
                    kind: BarKind::Mmio32,
                    base: (original & BAR_MEM_BASE_MASK) as u64,
                    size: spec_bar_size_mmio32(c, a),
                },
            )
        }
    }
}

fn bar_size_io<C: ConfigSpace>(
    cfg: &mut C,
    bus: u8,
    device: u8,
    function: u8,
    offset: u8,
    original: u32,
) -> (r: Option<u64>)
    requires
        original == old(cfg).dword(spec_config_address(bus, device, function, offset)),
        old(cfg).response(spec_config_address(bus, device, function, offset), original)
            == original,
    ensures
        forall|a: u32| final(cfg).dword(a) == old(cfg).dword(a),
        forall|a: u32, v: u32| final(cfg).response(a, v) == old(cfg).response(a, v),
        r == spec_bar_size_io(old(cfg), spec_config_address(bus, device, function, offset)),
{
    cfg.write_dword(bus, device, function, offset, BAR_SIZE_PROBE_VALUE);
    let mask = cfg.read_dword(bus, device, function, offset) & BAR_IO_BASE_MASK;
    cfg.write_dword(bus, device, function, offset, original);
    let size = (!mask).wrapping_add(1) & BAR_IO_BASE_MASK;
    if size == 0 {
        None
    } else {
        Some(size as u64)
    }
}

fn bar_size_mmio32<C: ConfigSpace>(
    cfg: &mut C,
    bus: u8,
    device: u8,
    function: u8,
    offset: u8,
    original: u32,
) -> (r: Option<u64>)
    requires
        original == old(cfg).dword(spec_config_address(bus, device, function, offset)),
        old(cfg).response(spec_config_address(bus, device, function, offset), original)
            == original,
    ensures
        forall|a: u32| final(cfg).dword(a) == old(cfg).dword(a),
        forall|a: u32, v: u32| final(cfg).response(a, v) == old(cfg).response(a, v),
        r == spec_bar_size_mmio32(old(cfg), spec_config_address(bus, device, function, offset)),
{
    cfg.write_dword(bus, device, function, offset, BAR_SIZE_PROBE_VALUE);
    let mask = cfg.read_dword(bus, device, function, offset) & BAR_MEM_BASE_MASK;
    cfg.write_dword(bus, device, function, offset, original);
    let size = (!mask).wrapping_add(1) & BAR_MEM_BASE_MASK;
    if size == 0 {
        None
    } else {
        Some(size as u64)
    }
}

fn bar_size_mmio64<C: ConfigSpace>(
    cfg: &mut C,
    bus: u8,
    device: u8,
    function: u8,
    offset: u8,
    original_low: u32,
    original_high: u32,
) -> (r: Option<u64>)
    requires
        0x10 <= offset <= 0x20,
        offset % 4 == 0,
        original_low == old(cfg).dword(spec_config_address(bus, device, function, offset)),
        old(cfg).response(spec_config_address(bus, device, function, offset), original_low)
            == original_low,
        original_high == old(cfg).dword(
            spec_config_address(bus, device, function, (offset + BAR_UPPER_OFFSET) as u8),
        ),
        old(cfg).response(
            spec_config_address(bus, device, function, (offset + BAR_UPPER_OFFSET) as u8),
            original_high,
        ) == original_high,
    ensures
        forall|a: u32| final(cfg).dword(a) == old(cfg).dword(a),
        forall|a: u32, v: u32| final(cfg).response(a, v) == old(cfg).response(a, v),
        r == spec_bar_size_mmio64(
            old(cfg),
            spec_config_address(bus, device, function, offset),
            spec_config_address(bus, device, function, (offset + BAR_UPPER_OFFSET) as u8),
        ),
{
    proof {
        assert(spec_config_address(bus, device, function, offset) != spec_config_address(
            bus,
            device,
            function,
            (offset + 4) as u8,
        )) by (bit_vector)
            requires
                0x10 <= offset <= 0x20,
                offset % 4 == 0,
        ;
    }
    cfg.write_dword(bus, device, function, offset, BAR_SIZE_PROBE_VALUE);
    cfg.write_dword(bus, device, function, offset + BAR_UPPER_OFFSET, BAR_SIZE_PROBE_VALUE);
    let low_mask = cfg.read_dword(bus, device, function, offset) & BAR_MEM_BASE_MASK;
    let high_mask = cfg.read_dword(bus, device, function, offset + BAR_UPPER_OFFSET);
    cfg.write_dword(bus, device, function, offset, original_low);
    cfg.write_dword(bus, device, function, offset + BAR_UPPER_OFFSET, original_high);
    let mask = ((high_mask as u64) << 32) | (low_mask as u64);
    let size = (!mask).wrapping_add(1);
    if size == 0 {
        None
    } else {
        Some(size)
    }
}

/// Read a BAR (0..=5) and decode its kind, base and size.
///
/// Returns `None` when the index is out of range, the BAR is unimplemented,
/// or a 64-bit BAR starts in the last slot.  Size probing writes all-ones
/// and reads the hardwired mask back, and always restores the original
/// register values: afterwards every config register reads exactly as
/// before the call.
pub fn read_bar<C: ConfigSpace>(cfg: &mut C, bus: u8, device: u8, function: u8, index: u8) -> (r:
    Option<Bar>)
    ensures
        forall|a: u32| final(cfg).dword(a) == old(cfg).dword(a),
        forall|a: u32, v: u32| final(cfg).response(a, v) == old(cfg).response(a, v),
        r == spec_read_bar(old(cfg), bus, device, function, index),
{
    if index >= BAR_COUNT {
        return None;
    }
    let offset = BAR0_OFFSET + index * BAR_STRIDE;
    let original = cfg.read_dword(bus, device, function, offset);
    if original == 0 {
        return None;
    }

    if (original & BAR_IO_SPACE_BIT) == BAR_IO_SPACE_BIT {
        let base = (original & BAR_IO_BASE_MASK) as u64;
        let size = bar_size_io(cfg, bus, device, function, offset, original);
        return Some(Bar { kind: BarKind::Io, base, size });
    }

    let mem_type = (original >> BAR_MEM_TYPE_SHIFT) & BAR_MEM_TYPE_MASK;
    if mem_type == BAR_MEM_TYPE_64 {
        if index == LAST_BAR_INDEX {
            return None;
        }
        let upper = cfg.read_dword(bus, device, function, offset + BAR_UPPER_OFFSET);
        let base = ((upper as u64) << 32) | ((original & BAR_MEM_BASE_MASK) as u64);
        let size = bar_size_mmio64(cfg, bus, device, function, offset, original, upper);
        return Some(Bar { kind: BarKind::Mmio64, base, size });
    }

    let base = (original & BAR_MEM_BASE_MASK) as u64;
    let size = bar_size_mmio32(cfg, bus, device, function, offset, original);
    Some(Bar { kind: BarKind::Mmio32, base, size })
}

/// Command register value with I/O space and bus mastering enabled, status
/// half preserved.
pub open spec fn spec_command_enabled(v: u32) -> u32 {
    (v & STATUS_MASK) | ((((v & WORD_MASK) as u16) | COMMAND_IO_SPACE | COMMAND_BUS_MASTER) as u32)
}

/// Enable the PCI command bits for I/O space and bus mastering, preserving
/// the status half of the dword; no other register is touched.
pub fn enable_io_bus_master<C: ConfigSpace>(cfg: &mut C, bus: u8, device: u8, function: u8)
    ensures
        final(cfg).dword(spec_config_address(bus, device, function, COMMAND_STATUS_OFFSET)) == old(cfg).response(
            spec_config_address(bus, device, function, COMMAND_STATUS_OFFSET),
            spec_command_enabled(
                old(cfg).dword(spec_config_address(bus, device, function, COMMAND_STATUS_OFFSET)),
            ),
        ),
        forall|a: u32|
            a != spec_config_address(bus, device, function, COMMAND_STATUS_OFFSET) ==> final(cfg).dword(a) == old(cfg).dword(a),
        forall|a: u32, v: u32| final(cfg).response(a, v) == old(cfg).response(a, v),
{
    let value = cfg.read_dword(bus, device, function, COMMAND_STATUS_OFFSET);
    let cmd = (value & WORD_MASK) as u16;
    let status = value & STATUS_MASK;
    let new_cmd = cmd | COMMAND_IO_SPACE | COMMAND_BUS_MASTER;
    cfg.write_dword(bus, device, function, COMMAND_STATUS_OFFSET, status | (new_cmd as u32));
}

/// One synthetic config register: `mask` holds the writable bits, `hard`
/// the hardwired bits; a read returns `(value & mask) | hard`.
#[derive(Debug, Clone, Copy)]
pub struct SyntheticRegister {
    pub addr: u32,
    pub mask: u32,
    pub hard: u32,
    pub value: u32,
}

/// In-memory configuration space: registers behave like hardware registers
/// with hardwired bits (which is what BAR size probing relies on), and
/// every other address reads all-ones, the no-device answer.
pub struct SyntheticConfigSpace {
    regs: Vec<SyntheticRegister>,
}

/// Index of the first register at or after `i` with address `a`, or the
/// length when there is none.
spec fn reg_find(regs: Seq<SyntheticRegister>, a: u32, i: int) -> int
    decreases regs.len() - i when 0 <= i <= regs.len()
{
    if i >= regs.len() {
        i
    } else if regs[i].addr == a {
        i
    } else {
        reg_find(regs, a, i + 1)
    }
}

proof fn lemma_reg_find_from(regs: Seq<SyntheticRegister>, a: u32, i: int)
    requires
        0 <= i <= regs.len(),
        forall|j: int| 0 <= j < i ==> (#[trigger] regs[j]).addr != a,
    ensures
        reg_find(regs, a, 0) == reg_find(regs, a, i),
        i <= reg_find(regs, a, i) <= regs.len(),
        reg_find(regs, a, i) < regs.len() ==> regs[reg_find(regs, a, i)].addr == a,
    decreases i + regs.len() - i + regs.len(),
{
    lemma_reg_find_prefix(regs, a, 0, i);
    lemma_reg_find_bounds(regs, a, i);
}

proof fn lemma_reg_find_prefix(regs: Seq<SyntheticRegister>, a: u32, i: int, k: int)
    requires
        0 <= i <= k <= regs.len(),
        forall|j: int| i <= j < k ==> (#[trigger] regs[j]).addr != a,
    ensures
        reg_find(regs, a, i) == reg_find(regs, a, k),
    decreases k - i,
{
    if i < k {
        lemma_reg_find_prefix(regs, a, i + 1, k);
    }
}

proof fn lemma_reg_find_bounds(regs: Seq<SyntheticRegister>, a: u32, i: int)
    requires
        0 <= i <= regs.len(),
    ensures
        i <= reg_find(regs, a, i) <= regs.len(),
        reg_find(regs, a, i) < regs.len() ==> regs[reg_find(regs, a, i)].addr == a,
        forall|j: int| i <= j < reg_find(regs, a, i) ==> (#[trigger] regs[j]).addr != a,
    decreases regs.len() - i,
{
    if i < regs.len() && regs[i].addr != a {
        lemma_reg_find_bounds(regs, a, i + 1);
    }
}

/// `reg_find` only looks at addresses, and the response of a register only
/// at its mask and hardwired bits.
proof fn lemma_reg_find_same_addrs(s1: Seq<SyntheticRegister>, s2: Seq<SyntheticRegister>, a: u32, i: int)
    requires
        s1.len() == s2.len(),
        0 <= i <= s1.len(),
        forall|k: int| 0 <= k < s1.len() ==> (#[trigger] s1[k]).addr == s2[k].addr,
    ensures
        reg_find(s1, a, i) == reg_find(s2, a, i),
    decreases s1.len() - i,
{
    if i < s1.len() && s1[i].addr != a {
        lemma_reg_find_same_addrs(s1, s2, a, i + 1);
    }
}

impl SyntheticConfigSpace {
    #[verifier::type_invariant]
    spec fn inv(&self) -> bool {
        forall|i: int|
            0 <= i < self.regs@.len() ==> ((#[trigger] self.regs@[i]).mask & self.regs@[i].hard)
                == 0
    }

    /// Create a configuration space with no devices: all-ones everywhere.
    pub fn new() -> (r: Self)
        ensures
            forall|a: u32| r.dword(a) == 0xffff_ffffu32,
    {
        Self { regs: Vec::new() }
    }

    /// Add a register at config address `addr` with the given writable bits,
    /// hardwired bits (which win over the writable mask) and initial raw
    /// value.
    pub fn add_register(&mut self, addr: u32, mask: u32, hard: u32, value: u32)
        ensures
            final(self).dword(addr) == if old(self).has_register(addr) {
                old(self).dword(addr)
            } else {
                (value & (mask & !hard)) | hard
            },
            forall|a: u32| a != addr ==> final(self).dword(a) == old(self).dword(a),
            forall|v: u32|
                #[trigger] final(self).response(addr, v) == if old(self).has_register(addr) {
                    old(self).response(addr, v)
                } else {
                    (v & (mask & !hard)) | hard
                },
            forall|a: u32, v: u32|
                a != addr ==> final(self).response(a, v) == old(self).response(a, v),
            final(self).has_register(addr),
            forall|a: u32|
                #[trigger] old(self).has_register(a) ==> final(self).has_register(a),
    {
        proof {
            use_type_invariant(&*self);
        }
        let clean = mask & !hard;
        proof {
            assert(((mask & !hard) & hard) == 0) by (bit_vector);
        }
        let mut regs: Vec<SyntheticRegister> = Vec::new();
        core::mem::swap(&mut regs, &mut self.regs);
        let ghost prev = regs@;
        regs.push(SyntheticRegister { addr, mask: clean, hard, value });
        self.regs = regs;
        proof {
            assert forall|a: u32, v: u32| a != addr implies final(self).response(a, v) == old(
                self,
            ).response(a, v) by {
                lemma_reg_find_bounds(prev, a, 0);
                lemma_reg_find_prefix(self.regs@, a, 0, reg_find(prev, a, 0));
                lemma_reg_find_bounds(self.regs@, a, 0);
            }
            assert forall|a: u32| true implies {
                &&& (a != addr ==> final(self).dword(a) == old(self).dword(a))
                &&& (old(self).has_register(a) ==> final(self).has_register(a))
            } by {
                lemma_reg_find_bounds(prev, a, 0);
                lemma_reg_find_prefix(self.regs@, a, 0, reg_find(prev, a, 0));
                lemma_reg_find_bounds(self.regs@, a, 0);
            }
            lemma_reg_find_bounds(prev, addr, 0);
            lemma_reg_find_prefix(self.regs@, addr, 0, reg_find(prev, addr, 0));
            lemma_reg_find_bounds(self.regs@, addr, 0);
            assert forall|v: u32| #[trigger] final(self).response(addr, v) == if old(
                self,
            ).has_register(addr) {
                old(self).response(addr, v)
            } else {
                (v & (mask & !hard)) | hard
            } by {
                let j0 = reg_find(prev, addr, 0);
                let j1 = reg_find(self.regs@, addr, 0);
                if j0 < prev.len() {
                    assert(self.regs@[j1] == prev[j0]);
                } else {
                    assert(j1 == prev.len());
                    assert(self.regs@[j1].mask == (mask & !hard) && self.regs@[j1].hard == hard);
                }
            }
        }
    }

    /// A register exists at config address `a`.
    pub closed spec fn has_register(&self, a: u32) -> bool {
        reg_find(self.regs@, a, 0) < self.regs@.len()
    }
}

impl ConfigSpace for SyntheticConfigSpace {
    closed spec fn dword(&self, a: u32) -> u32 {
        let j = reg_find(self.regs@, a, 0);
        if j < self.regs@.len() {
            (self.regs@[j].value & self.regs@[j].mask) | self.regs@[j].hard
        } else {
            0xffff_ffffu32
        }
    }

    closed spec fn response(&self, a: u32, v: u32) -> u32 {
        let j = reg_find(self.regs@, a, 0);
        if j < self.regs@.len() {
            (v & self.regs@[j].mask) | self.regs@[j].hard
        } else {
            0xffff_ffffu32
        }
    }

    fn read_dword(&self, bus: u8, device: u8, function: u8, offset: u8) -> (r: u32) {
        proof {
            use_type_invariant(&*self);
        }
        let a = config_address(bus, device, function, offset);
        let n = self.regs.len();
        let mut i: usize = 0;
        while i < n
            invariant
                n == self.regs@.len(),
                i <= n,
                a == spec_config_address(bus, device, function, offset),
                self.inv(),
                forall|j: int| 0 <= j < i ==> (#[trigger] self.regs@[j]).addr != a,
            decreases n - i,
        {
            let reg = self.regs[i];
            if reg.addr == a {
                proof {
                    lemma_reg_find_from(self.regs@, a, i as int);
                    let m = reg.mask;
                    let h = reg.hard;
                    let v = reg.value;
                    assert((m & h) == 0 ==> ((((v & m) | h) & m) | h) == ((v & m) | h))
                        by (bit_vector);
                }
                return (reg.value & reg.mask) | reg.hard;
            }
            i = i + 1;
        }
        proof {
            lemma_reg_find_from(self.regs@, a, n as int);
        }
        0xffff_ffff
    }

    fn write_dword(&mut self, bus: u8, device: u8, function: u8, offset: u8, value: u32) {
        proof {
            use_type_invariant(&*self);
        }
        let a = config_address(bus, device, function, offset);
        let n = self.regs.len();
        let mut i: usize = 0;
        while i < n
            invariant
                n == self.regs@.len(),
                i <= n,
                a == spec_config_address(bus, device, function, offset),
                self.inv(),
                *self == *old(self),
                forall|j: int| 0 <= j < i ==> (#[trigger] self.regs@[j]).addr != a,
            decreases n - i,
        {
            let reg = self.regs[i];
            if reg.addr == a {
                let mut regs: Vec<SyntheticRegister> = Vec::new();
                core::mem::swap(&mut regs, &mut self.regs);
                let ghost prev = regs@;
                regs.set(i, SyntheticRegister { addr: reg.addr, mask: reg.mask, hard: reg.hard, value });
                self.regs = regs;
                proof {
                    lemma_reg_find_from(prev, a, i as int);
                    lemma_reg_find_from(self.regs@, a, i as int);
                    assert forall|a2: u32, v2: u32| final(self).response(a2, v2) == old(
                        self,
                    ).response(a2, v2) by {
                        assert(forall|k: int|
                            0 <= k < prev.len() ==> (#[trigger] self.regs@[k]).addr
                                == prev[k].addr);
                        lemma_reg_find_same_addrs(prev, self.regs@, a2, 0);
                        lemma_reg_find_bounds(prev, a2, 0);
                        let j2 = reg_find(prev, a2, 0);
                        if j2 < prev.len() {
                            assert(self.regs@[j2].mask == prev[j2].mask);
                            assert(self.regs@[j2].hard == prev[j2].hard);
                        }
                    }
                    assert forall|a2: u32| a2 != a implies final(self).dword(a2) == old(
                        self,
                    ).dword(a2) by {
                        lemma_reg_find_same_addrs(prev, self.regs@, a2, 0);
                        lemma_reg_find_bounds(self.regs@, a2, 0);
                    }
                }
                return;
            }
            i = i + 1;
        }
        proof {
            lemma_reg_find_from(self.regs@, a, n as int);
        }
    }
}

/// Scanning a configuration space that answers all-ones everywhere (vendor
/// id 0xFFFF: no device) reports nothing.
pub proof fn lemma_scan_of_empty_space<C: ConfigSpace>(c: &C)
    requires
        forall|a: u32| c.dword(a) == 0xffff_ffffu32,
    ensures
        scan_spec(c, 0) == Seq::<PciDevice>::empty(),
{
    assert forall|n: int| 0 <= n < BDF_COUNT implies !spec_present(
        c,
        (n / 256) as u8,
        ((n / 8) % 32) as u8,
        #[trigger] ((n % 8) as u8),
    ) by {
        let bus = (n / 256) as u8;
        let device = ((n / 8) % 32) as u8;
        let d = c.dword(spec_config_address(bus, device, 0, VENDOR_ID_OFFSET));
        assert(d == 0xffff_ffffu32 ==> spec_word_sel(d, VENDOR_ID_OFFSET) == 0xffffu16)
            by (bit_vector);
    }
    lemma_scan_spec_skip(c, 0, BDF_COUNT as int);
}

} // verus!
