//! Legacy virtio block device driver.
//!
//! The legacy transport exposes device registers through an I/O BAR and a
//! single virtqueue laid out in one physical page: a 16-byte descriptor
//! table entry per slot, an available ring the driver fills, and a used
//! ring the device fills.  One request is in flight at a time: a 3-entry
//! descriptor chain (header, data, status) is published on the available
//! ring, the doorbell is rung, and completion is busy-polled on the used
//! ring for a fixed spin budget.
//!
//! The `VirtioBus` trait abstracts the device: its registers, and the
//! DMA-visible guest memory both sides share.  The model treats device
//! activity as happening at register writes (the doorbell): a register
//! write may change guest memory arbitrarily, while reads and the driver's
//! own memory writes are exact.

use vstd::prelude::*;
use crate::errors::CoreError;
use crate::frame::FrameAllocator;
use crate::mem::PAGE_SIZE;

verus! {

pub const QUEUE_SIZE: u16 = 8;
pub const SECTOR_SIZE: usize = 512;

pub const VIRTQ_DESC_F_NEXT: u16 = 1;
pub const VIRTQ_DESC_F_WRITE: u16 = 2;

pub const VIRTIO_BLK_T_IN: u32 = 0;
pub const VIRTIO_BLK_T_OUT: u32 = 1;

pub const STATUS_ACK: u8 = 0x01;
pub const STATUS_DRIVER: u8 = 0x02;
pub const STATUS_DRIVER_OK: u8 = 0x04;
pub const STATUS_RESET: u8 = 0x00;

pub const REG_HOST_FEATURES: u16 = 0x00;
pub const REG_GUEST_FEATURES: u16 = 0x04;
pub const REG_QUEUE_PFN: u16 = 0x08;
pub const REG_QUEUE_NUM: u16 = 0x0c;
pub const REG_QUEUE_SEL: u16 = 0x0e;
pub const REG_QUEUE_NOTIFY: u16 = 0x10;
pub const REG_STATUS: u16 = 0x12;
pub const REG_CONFIG: u16 = 0x14;

pub const QUEUE_INDEX: u16 = 0;
pub const FEATURES_NONE: u32 = 0;

/// Request header size: request type, reserved word, sector number.
pub const REQ_HEADER_SIZE: u64 = 16;

/// Offset of the 512-byte data area inside the request page.
pub const REQ_DATA_OFFSET: u64 = 16;

/// Offset of the one-byte status inside the request page.
pub const REQ_STATUS_OFFSET: u64 = 528;

pub const REQUEST_STATUS_PENDING: u8 = 0xff;
pub const REQUEST_STATUS_OK: u8 = 0x00;
pub const REQUEST_TIMEOUT_SPINS: u64 = 5_000_000;

/// Model of guest physical memory as the device can reach it: a map from
/// byte address to contents whose domain is the DMA window.
pub type GuestMem = Map<u64, u8>;

/// One driver action the device can observe: a register access, a DMA
/// memory write, or a fence.  Register reads record the value the device
/// answered; memory reads only observe and are not recorded.
#[derive(Debug, Clone, Copy, PartialEq, Eq, Structural)]
pub enum IoEvent {
    RegWrite8(u16, u8),
    RegWrite16(u16, u16),
    RegWrite32(u16, u32),
    RegRead16(u16, u16),
    RegRead32(u16, u32),
    MemWrite8(u64, u8),
    MemWrite16(u64, u16),
    MemWrite32(u64, u32),
    MemWrite64(u64, u64),
    Fence,
}

/// The driver's actions on the device so far, in order.
pub type IoTrace = Seq<IoEvent>;

/// 16-bit little-endian value at `a` in guest memory.
pub open spec fn spec_mem_u16(m: Map<u64, u8>, a: u64) -> u16 {
    (m[a] + 256 * m[(a + 1) as u64]) as u16
}

/// The first `k` driver actions of zeroing the page at `page`, eight
/// bytes at a time.
pub open spec fn zero_page_events_upto(page: u64, k: int) -> Seq<IoEvent>
    decreases k,
{
    if k <= 0 {
        Seq::empty()
    } else {
        zero_page_events_upto(page, k - 1).push(IoEvent::MemWrite64((page + 8 * (k - 1)) as u64, 0))
    }
}

/// The driver actions that zero one whole page.
pub open spec fn zero_page_events(page: u64) -> Seq<IoEvent> {
    zero_page_events_upto(page, 512)
}

/// The first `k` driver actions of copying sector `data` to `base`.
pub open spec fn sector_copy_events_upto(base: u64, data: Seq<u8>, k: int) -> Seq<IoEvent>
    decreases k,
{
    if k <= 0 {
        Seq::empty()
    } else {
        sector_copy_events_upto(base, data, k - 1).push(
            IoEvent::MemWrite8((base + (k - 1)) as u64, data[k - 1]),
        )
    }
}

/// The driver actions that copy one 512-byte sector to `base`.
pub open spec fn sector_copy_events(base: u64, data: Seq<u8>) -> Seq<IoEvent> {
    sector_copy_events_upto(base, data, 512)
}

/// The handshake actions up to and including reading queue 0's maximum
/// size: reset, acknowledge, driver, feature negotiation (none), queue
/// selection, and the size probe with the device's answer.
pub open spec fn queue_probe_events(host_features: u32, max_queue: u16) -> Seq<IoEvent> {
    seq![
        IoEvent::RegWrite8(REG_STATUS, STATUS_RESET),
        IoEvent::RegWrite8(REG_STATUS, STATUS_ACK),
        IoEvent::RegWrite8(REG_STATUS, STATUS_ACK | STATUS_DRIVER),
        IoEvent::RegRead32(REG_HOST_FEATURES, host_features),
        IoEvent::RegWrite32(REG_GUEST_FEATURES, FEATURES_NONE),
        IoEvent::RegWrite16(REG_QUEUE_SEL, QUEUE_INDEX),
        IoEvent::RegRead16(REG_QUEUE_NUM, max_queue),
    ]
}

/// All driver actions of a successful initialization: the handshake, the
/// clamped queue size written back, the queue page zeroed and its frame
/// number programmed, the request page zeroed, the capacity read as two
/// halves, and the device announced live.
pub open spec fn init_events(
    vb: VirtioBlk,
    host_features: u32,
    max_queue: u16,
    cap_low: u32,
    cap_high: u32,
) -> Seq<IoEvent> {
    queue_probe_events(host_features, max_queue).push(
        IoEvent::RegWrite16(REG_QUEUE_NUM, vb.queue_size),
    ) + zero_page_events(vb.queue_paddr) + seq![
        IoEvent::RegWrite32(REG_QUEUE_PFN, (vb.queue_paddr / PAGE_SIZE) as u32),
    ] + zero_page_events(vb.req_paddr) + seq![
        IoEvent::RegRead32(REG_CONFIG, cap_low),
        IoEvent::RegRead32((REG_CONFIG + 4) as u16, cap_high),
        IoEvent::RegWrite8(REG_STATUS, STATUS_ACK | STATUS_DRIVER | STATUS_DRIVER_OK),
    ]
}

/// All driver actions of one request submission: the request header and
/// pending sentinel, the 3-entry descriptor chain, the available-ring
/// slot, a fence, the advanced available index, the doorbell, and the
/// closing fence.  `avail_idx` is the available index the driver read
/// before publishing.
pub open spec fn submit_events(vb: VirtioBlk, req_type: u32, sector: u64, avail_idx: u16) -> Seq<
    IoEvent,
> {
    let req = vb.req_paddr;
    let d = vb.queue_paddr;
    let avail = (vb.queue_paddr + vb.avail_offset) as u64;
    let data_flags: u16 = if req_type == VIRTIO_BLK_T_IN {
        VIRTQ_DESC_F_NEXT | VIRTQ_DESC_F_WRITE
    } else {
        VIRTQ_DESC_F_NEXT
    };
    seq![
        IoEvent::MemWrite32(req, req_type),
        IoEvent::MemWrite32((req + 4) as u64, 0),
        IoEvent::MemWrite64((req + 8) as u64, sector),
        IoEvent::MemWrite8((req + REQ_STATUS_OFFSET) as u64, REQUEST_STATUS_PENDING),
        IoEvent::MemWrite64(d, vb.req_paddr),
        IoEvent::MemWrite32((d + 8) as u64, REQ_HEADER_SIZE as u32),
        IoEvent::MemWrite16((d + 12) as u64, VIRTQ_DESC_F_NEXT),
        IoEvent::MemWrite16((d + 14) as u64, 1),
        IoEvent::MemWrite64((d + 16) as u64, (vb.req_paddr + REQ_DATA_OFFSET) as u64),
        IoEvent::MemWrite32((d + 24) as u64, SECTOR_SIZE as u32),
        IoEvent::MemWrite16((d + 28) as u64, data_flags),
        IoEvent::MemWrite16((d + 30) as u64, 2),
        IoEvent::MemWrite64((d + 32) as u64, (vb.req_paddr + REQ_STATUS_OFFSET) as u64),
        IoEvent::MemWrite32((d + 40) as u64, 1),
        IoEvent::MemWrite16((d + 44) as u64, VIRTQ_DESC_F_WRITE),
        IoEvent::MemWrite16((d + 46) as u64, 0),
        IoEvent::MemWrite16(
            (avail + 4 + 2 * ((avail_idx % vb.queue_size) as u64)) as u64,
            0,
        ),
        IoEvent::Fence,
        IoEvent::MemWrite16(
            (avail + 2) as u64,
            vstd::wrapping::u16_specs::wrapping_add(avail_idx, 1),
        ),
        IoEvent::RegWrite16(REG_QUEUE_NOTIFY, QUEUE_INDEX),
        IoEvent::Fence,
    ]
}

/// The virtio device as the driver sees it: its registers, and the
/// DMA-visible guest memory.
///
/// `mem()` is byte-addressed guest physical memory; its domain is the
/// window the device can reach, and it never changes.  The device owns no
/// clock of its own in this model: it acts when a register is written (the
/// doorbell), which may change guest memory arbitrarily; memory reads and
/// the driver's own memory writes are exact and trigger no device
/// activity.  A hardware backend performs the port I/O and the volatile
/// DMA-memory accesses behind these methods.
pub trait VirtioBus: Sized {
    /// DMA-visible guest memory.
    spec fn mem(&self) -> Map<u64, u8>;

    /// Every register access, DMA memory write and fence the driver has
    /// issued, in order.
    spec fn io_trace(&self) -> Seq<IoEvent>;

    /// Read a 16-bit device register.
    fn read_reg16(&mut self, offset: u16) -> (r: u16)
        ensures
            final(self).mem() == old(self).mem(),
            final(self).io_trace() == old(self).io_trace().push(IoEvent::RegRead16(offset, r)),
    ;

    /// Read a 32-bit device register.
    fn read_reg32(&mut self, offset: u16) -> (r: u32)
        ensures
            final(self).mem() == old(self).mem(),
            final(self).io_trace() == old(self).io_trace().push(IoEvent::RegRead32(offset, r)),
    ;

    /// Write an 8-bit device register; the device may act on memory.
    fn write_reg8(&mut self, offset: u16, v: u8)
        ensures
            final(self).mem().dom() == old(self).mem().dom(),
            final(self).io_trace() == old(self).io_trace().push(IoEvent::RegWrite8(offset, v)),
    ;

    /// Write a 16-bit device register; the device may act on memory.
    fn write_reg16(&mut self, offset: u16, v: u16)
        ensures
            final(self).mem().dom() == old(self).mem().dom(),
            final(self).io_trace() == old(self).io_trace().push(IoEvent::RegWrite16(offset, v)),
    ;

    /// Write a 32-bit device register; the device may act on memory.
    fn write_reg32(&mut self, offset: u16, v: u32)
        ensures
            final(self).mem().dom() == old(self).mem().dom(),
            final(self).io_trace() == old(self).io_trace().push(IoEvent::RegWrite32(offset, v)),
    ;

    /// Memory fence ordering the driver's ring writes against the doorbell.
    fn fence(&mut self)
        ensures
            final(self).mem() == old(self).mem(),
            final(self).io_trace() == old(self).io_trace().push(IoEvent::Fence),
    ;

    /// Read one byte of guest memory.
    fn read_mem_u8(&mut self, pa: u64) -> (r: u8)
        requires
            old(self).mem().dom().contains(pa),
        ensures
            final(self).mem() == old(self).mem(),
            final(self).io_trace() == old(self).io_trace(),
            r == old(self).mem()[pa],
    ;

    /// Read a 16-bit little-endian value from guest memory.
    fn read_mem_u16(&mut self, pa: u64) -> (r: u16)
        requires
            pa + 1 <= u64::MAX,
            old(self).mem().dom().contains(pa),
            old(self).mem().dom().contains((pa + 1) as u64),
        ensures
            final(self).mem() == old(self).mem(),
            final(self).io_trace() == old(self).io_trace(),
            r == spec_mem_u16(old(self).mem(), pa),
    ;

    /// Write one byte of guest memory.
    fn write_mem_u8(&mut self, pa: u64, v: u8)
        requires
            old(self).mem().dom().contains(pa),
        ensures
            final(self).mem().dom() == old(self).mem().dom(),
            forall|a: u64|
                old(self).mem().dom().contains(a) && a != pa ==> final(self).mem()[a] == old(self).mem()[a],
            final(self).mem()[pa] == v,
            final(self).io_trace() == old(self).io_trace().push(IoEvent::MemWrite8(pa, v)),
    ;

    /// Write a 16-bit little-endian value to guest memory.
    fn write_mem_u16(&mut self, pa: u64, v: u16)
        requires
            pa + 1 <= u64::MAX,
            old(self).mem().dom().contains(pa),
            old(self).mem().dom().contains((pa + 1) as u64),
        ensures
            final(self).mem().dom() == old(self).mem().dom(),
            forall|a: u64|
                old(self).mem().dom().contains(a) && !(pa <= a <= pa + 1) ==> final(self).mem()[a]
                    == old(self).mem()[a],
            final(self).mem()[pa] == (v & 0xff) as u8,
            final(self).mem()[(pa + 1) as u64] == (v >> 8) as u8,
            final(self).io_trace() == old(self).io_trace().push(IoEvent::MemWrite16(pa, v)),
    ;

    /// Write a 32-bit little-endian value to guest memory.
    fn write_mem_u32(&mut self, pa: u64, v: u32)
        requires
            pa + 3 <= u64::MAX,
            forall|i: u64| pa <= i <= pa + 3 ==> old(self).mem().dom().contains(i),
        ensures
            final(self).mem().dom() == old(self).mem().dom(),
            forall|a: u64|
                old(self).mem().dom().contains(a) && !(pa <= a <= pa + 3) ==> final(self).mem()[a]
                    == old(self).mem()[a],
            final(self).mem()[pa] == (v & 0xff) as u8,
            final(self).mem()[(pa + 1) as u64] == ((v >> 8) & 0xff) as u8,
            final(self).mem()[(pa + 2) as u64] == ((v >> 16) & 0xff) as u8,
            final(self).mem()[(pa + 3) as u64] == ((v >> 24) & 0xff) as u8,
            final(self).io_trace() == old(self).io_trace().push(IoEvent::MemWrite32(pa, v)),
    ;

    /// Write a 64-bit little-endian value to guest memory.
    fn write_mem_u64(&mut self, pa: u64, v: u64)
        requires
            pa + 7 <= u64::MAX,
            forall|i: u64| pa <= i <= pa + 7 ==> old(self).mem().dom().contains(i),
        ensures
            final(self).mem().dom() == old(self).mem().dom(),
            forall|a: u64|
                old(self).mem().dom().contains(a) && !(pa <= a <= pa + 7)
                    ==> final(self).mem()[a] == old(self).mem()[a],
            final(self).mem()[pa] == (v & 0xff) as u8,
            final(self).mem()[(pa + 1) as u64] == ((v >> 8) & 0xff) as u8,
            final(self).mem()[(pa + 2) as u64] == ((v >> 16) & 0xff) as u8,
            final(self).mem()[(pa + 3) as u64] == ((v >> 24) & 0xff) as u8,
            final(self).mem()[(pa + 4) as u64] == ((v >> 32) & 0xff) as u8,
            final(self).mem()[(pa + 5) as u64] == ((v >> 40) & 0xff) as u8,
            final(self).mem()[(pa + 6) as u64] == ((v >> 48) & 0xff) as u8,
            final(self).mem()[(pa + 7) as u64] == ((v >> 56) & 0xff) as u8,
            final(self).io_trace() == old(self).io_trace().push(IoEvent::MemWrite64(pa, v)),
    ;
}

/// Live virtio block device: queue geometry, the two DMA pages, and the
/// last used-ring index the driver has consumed.
pub struct VirtioBlk {
    /// Negotiated queue size, at most `QUEUE_SIZE`.
    pub queue_size: u16,
    /// Physical page holding descriptor table, available ring and used ring.
    pub queue_paddr: u64,
    /// Offset of the available ring inside the queue page.
    pub avail_offset: u64,
    /// Offset of the used ring inside the queue page.
    pub used_offset: u64,
    /// Last used-ring index the driver has observed and consumed.
    pub last_used_idx: u16,
    /// Physical page holding request header, data and status byte.
    pub req_paddr: u64,
    /// Device capacity in 512-byte sectors, as read at initialization.
    pub capacity_sectors: u64,
}

impl VirtioBlk {
    /// Queue geometry is the legacy layout for `queue_size`, and both DMA
    /// pages are page-aligned, distinct and below the address-space top.
    pub open spec fn spec_wf(&self) -> bool {
        &&& 1 <= self.queue_size <= QUEUE_SIZE
        &&& self.avail_offset == 16 * self.queue_size
        &&& self.used_offset == 18 * self.queue_size + 6
        &&& self.queue_paddr % PAGE_SIZE == 0
        &&& self.req_paddr % PAGE_SIZE == 0
        &&& self.queue_paddr + PAGE_SIZE <= u64::MAX
        &&& self.req_paddr + PAGE_SIZE <= u64::MAX
        &&& self.queue_paddr != self.req_paddr
    }

    /// Both DMA pages lie inside the bus's guest-memory window.
    pub open spec fn dma_ok<B: VirtioBus>(&self, bus: &B) -> bool {
        &&& forall|a: u64|
            self.queue_paddr <= a < self.queue_paddr + PAGE_SIZE ==> #[trigger] bus.mem().dom().contains(a)
        &&& forall|a: u64|
            self.req_paddr <= a < self.req_paddr + PAGE_SIZE ==> #[trigger] bus.mem().dom().contains(a)
    }

    /// Address of the used ring's index field.
    pub open spec fn used_idx_addr(&self) -> u64 {
        (self.queue_paddr + self.used_offset + 2) as u64
    }

    /// Address of the request's one-byte status.
    pub open spec fn status_addr(&self) -> u64 {
        (self.req_paddr + REQ_STATUS_OFFSET) as u64
    }

    /// Device capacity in 512-byte sectors.
    pub fn capacity_sectors(&self) -> (r: u64)
        ensures
            r == self.capacity_sectors,
    {
        self.capacity_sectors
    }

    /// Submit one request and busy-poll its completion.
    ///
    /// The request header, pending-sentinel status, 3-entry descriptor
    /// chain and available-ring slot are written, the doorbell is rung,
    /// and the used-ring index is polled for at most
    /// `REQUEST_TIMEOUT_SPINS` spins.  The result is decided entirely by
    /// what the device left in memory: no movement of the used index is a
    /// timeout and consumes nothing; on movement the request's status byte
    /// decides between success and a device error, and the used index is
    /// consumed either way.
    #[verifier::rlimit(100)]
    pub fn submit_request<B: VirtioBus>(&mut self, bus: &mut B, req_type: u32, sector: u64) -> (r:
        Result<(), CoreError>)
        requires
            old(self).spec_wf(),
            old(self).dma_ok(old(bus)),
            req_type == VIRTIO_BLK_T_IN || req_type == VIRTIO_BLK_T_OUT,
        ensures
            final(self).spec_wf(),
            final(self).dma_ok(final(bus)),
            final(bus).mem().dom() == old(bus).mem().dom(),
            *final(self) == (VirtioBlk { last_used_idx: final(self).last_used_idx, ..*old(self) }),
            ({
                let used = spec_mem_u16(final(bus).mem(), old(self).used_idx_addr());
                let status = final(bus).mem()[old(self).status_addr()];
                if used == old(self).last_used_idx {
                    &&& r == Err::<(), CoreError>(CoreError::Timeout)
                    &&& final(self).last_used_idx == old(self).last_used_idx
                } else {
                    &&& final(self).last_used_idx == vstd::wrapping::u16_specs::wrapping_add(
                        old(self).last_used_idx,
                        1,
                    )
                    &&& if status == REQUEST_STATUS_OK {
                        r == Ok::<(), CoreError>(())
                    } else {
                        r == Err::<(), CoreError>(CoreError::DeviceError)
                    }
                }
            }),
            exists|avail_idx: u16|
                final(bus).io_trace() == old(bus).io_trace() + submit_events(
                    *old(self),
                    req_type,
                    sector,
                    avail_idx,
                ),
    {
        let hdr = self.req_paddr;
        bus.write_mem_u32(hdr, req_type);
        bus.write_mem_u32(hdr + 4, 0);
        bus.write_mem_u64(hdr + 8, sector);
        bus.write_mem_u8(hdr + REQ_STATUS_OFFSET, REQUEST_STATUS_PENDING);

        let d = self.queue_paddr;
        bus.write_mem_u64(d, self.req_paddr);
        bus.write_mem_u32(d + 8, REQ_HEADER_SIZE as u32);
        bus.write_mem_u16(d + 12, VIRTQ_DESC_F_NEXT);
        bus.write_mem_u16(d + 14, 1);

        bus.write_mem_u64(d + 16, self.req_paddr + REQ_DATA_OFFSET);
        bus.write_mem_u32(d + 24, SECTOR_SIZE as u32);
        let data_flags: u16 = if req_type == VIRTIO_BLK_T_IN {
            VIRTQ_DESC_F_NEXT | VIRTQ_DESC_F_WRITE
        } else {
            VIRTQ_DESC_F_NEXT
        };
        bus.write_mem_u16(d + 28, data_flags);
        bus.write_mem_u16(d + 30, 2);

        bus.write_mem_u64(d + 32, self.req_paddr + REQ_STATUS_OFFSET);
        bus.write_mem_u32(d + 40, 1);
        bus.write_mem_u16(d + 44, VIRTQ_DESC_F_WRITE);
        bus.write_mem_u16(d + 46, 0);

        let avail = self.queue_paddr + self.avail_offset;
        let avail_idx = bus.read_mem_u16(avail + 2);
        let ring_index = (avail_idx % self.queue_size) as u64;
        bus.write_mem_u16(avail + 4 + 2 * ring_index, 0);
        bus.fence();
        bus.write_mem_u16(avail + 2, avail_idx.wrapping_add(1));

        bus.write_reg16(REG_QUEUE_NOTIFY, QUEUE_INDEX);

        let used_addr = self.queue_paddr + self.used_offset + 2;
        let ghost m_after = bus.mem();
        let ghost t_notify = bus.io_trace();
        let last = self.last_used_idx;
        let mut spins: u64 = 0;
        let mut cur = bus.read_mem_u16(used_addr);
        while cur == last
            invariant_except_break
                spins < REQUEST_TIMEOUT_SPINS,
            invariant
                self.spec_wf(),
                self.dma_ok(bus),
                bus.mem() == m_after,
                used_addr == self.used_idx_addr(),
                last == self.last_used_idx,
                cur == spec_mem_u16(m_after, used_addr),
                bus.io_trace() == t_notify,
                spins <= REQUEST_TIMEOUT_SPINS,
            decreases REQUEST_TIMEOUT_SPINS - spins,
        {
            spins = spins + 1;
            if spins == REQUEST_TIMEOUT_SPINS {
                break;
            }
            cur = bus.read_mem_u16(used_addr);
        }
        bus.fence();
        proof {
            assert(bus.io_trace() =~= old(bus).io_trace() + submit_events(
                *old(self),
                req_type,
                sector,
                avail_idx,
            ));
        }
        let used_now = bus.read_mem_u16(used_addr);
        if used_now == self.last_used_idx {
            return Err(CoreError::Timeout);
        }
        self.last_used_idx = self.last_used_idx.wrapping_add(1);
        let status = bus.read_mem_u8(self.req_paddr + REQ_STATUS_OFFSET);
        if status != REQUEST_STATUS_OK {
            return Err(CoreError::DeviceError);
        }
        Ok(())
    }

    /// Read one 512-byte sector into `out`.
    ///
    /// On success `out` holds exactly the request's data area as the
    /// device left it; on any error `out` is untouched.  The result is
    /// classified exactly as for `submit_request`: a timeout if and only
    /// if the used index never moved, a device error if and only if it
    /// moved with a non-zero status byte.
    pub fn read_sector<B: VirtioBus>(
        &mut self,
        bus: &mut B,
        sector: u64,
        out: &mut [u8; 512],
    ) -> (r: Result<(), CoreError>)
        requires
            old(self).spec_wf(),
            old(self).dma_ok(old(bus)),
        ensures
            final(self).spec_wf(),
            final(self).dma_ok(final(bus)),
            final(bus).mem().dom() == old(bus).mem().dom(),
            *final(self) == (VirtioBlk { last_used_idx: final(self).last_used_idx, ..*old(self) }),
            ({
                let used = spec_mem_u16(final(bus).mem(), old(self).used_idx_addr());
                let status = final(bus).mem()[old(self).status_addr()];
                match r {
                    Ok(()) => {
                        &&& used != old(self).last_used_idx
                        &&& status == REQUEST_STATUS_OK
                        &&& final(self).last_used_idx
                            == vstd::wrapping::u16_specs::wrapping_add(
                            old(self).last_used_idx,
                            1,
                        )
                        &&& forall|i: u64|
                            i < 512 ==> final(out)@[i as int] == final(bus).mem()[(old(self).req_paddr + REQ_DATA_OFFSET + i) as u64]
                    },
                    Err(e) => {
                        &&& final(out)@ == old(out)@
                        &&& if used == old(self).last_used_idx {
                            e == CoreError::Timeout && final(self).last_used_idx == old(self).last_used_idx
                        } else {
                            e == CoreError::DeviceError && status != REQUEST_STATUS_OK && final(self).last_used_idx == vstd::wrapping::u16_specs::wrapping_add(
                                old(self).last_used_idx,
                                1,
                            )
                        }
                    },
                }
            }),
            exists|avail_idx: u16|
                final(bus).io_trace() == old(bus).io_trace() + submit_events(
                    *old(self),
                    VIRTIO_BLK_T_IN,
                    sector,
                    avail_idx,
                ),
    {
        match self.submit_request(bus, VIRTIO_BLK_T_IN, sector) {
            Ok(()) => {},
            Err(e) => {
                return Err(e);
            },
        }
        let ghost m1 = bus.mem();
        let ghost t1 = bus.io_trace();
        let base = self.req_paddr + REQ_DATA_OFFSET;
        let mut i: usize = 0;
        while i < 512
            invariant
                i <= 512,
                self.spec_wf(),
                self.dma_ok(bus),
                *self == (VirtioBlk { last_used_idx: self.last_used_idx, ..*old(self) }),
                base == old(self).req_paddr + REQ_DATA_OFFSET,
                bus.mem() == m1,
                bus.io_trace() == t1,
                m1.dom() == old(bus).mem().dom(),
                m1[old(self).status_addr()] == REQUEST_STATUS_OK,
                spec_mem_u16(m1, old(self).used_idx_addr()) != old(self).last_used_idx,
                out@.len() == 512,
                forall|j: u64| j < i ==> #[trigger] out@[j as int] == m1[(base + j) as u64],
            decreases 512 - i,
        {
            let b = bus.read_mem_u8(base + i as u64);
            out[i] = b;
            i = i + 1;
        }
        Ok(())
    }

    /// Write one 512-byte sector from `data`.
    ///
    /// The data is copied into the request page's data area before the
    /// request is submitted; the result is classified as for
    /// `submit_request`.
    pub fn write_sector<B: VirtioBus>(
        &mut self,
        bus: &mut B,
        sector: u64,
        data: &[u8; 512],
    ) -> (r: Result<(), CoreError>)
        requires
            old(self).spec_wf(),
            old(self).dma_ok(old(bus)),
        ensures
            final(self).spec_wf(),
            final(self).dma_ok(final(bus)),
            final(bus).mem().dom() == old(bus).mem().dom(),
            *final(self) == (VirtioBlk { last_used_idx: final(self).last_used_idx, ..*old(self) }),
            ({
                let used = spec_mem_u16(final(bus).mem(), old(self).used_idx_addr());
                let status = final(bus).mem()[old(self).status_addr()];
                match r {
                    Ok(()) => {
                        &&& used != old(self).last_used_idx
                        &&& status == REQUEST_STATUS_OK
                        &&& final(self).last_used_idx
                            == vstd::wrapping::u16_specs::wrapping_add(
                            old(self).last_used_idx,
                            1,
                        )
                    },
                    Err(e) => if used == old(self).last_used_idx {
                        e == CoreError::Timeout && final(self).last_used_idx == old(self).last_used_idx
                    } else {
                        e == CoreError::DeviceError && status != REQUEST_STATUS_OK
                            && final(self).last_used_idx
                            == vstd::wrapping::u16_specs::wrapping_add(
                            old(self).last_used_idx,
                            1,
                        )
                    },
                }
            }),
            exists|avail_idx: u16|
                final(bus).io_trace() == old(bus).io_trace() + sector_copy_events(
                    (old(self).req_paddr + REQ_DATA_OFFSET) as u64,
                    data@,
                ) + submit_events(*old(self), VIRTIO_BLK_T_OUT, sector, avail_idx),
    {
        let base = self.req_paddr + REQ_DATA_OFFSET;
        let mut i: usize = 0;
        while i < 512
            invariant
                i <= 512,
                self.spec_wf(),
                self.dma_ok(bus),
                *self == *old(self),
                base == old(self).req_paddr + REQ_DATA_OFFSET,
                bus.mem().dom() == old(bus).mem().dom(),
                bus.io_trace() == old(bus).io_trace() + sector_copy_events_upto(
                    base,
                    data@,
                    i as int,
                ),
            decreases 512 - i,
        {
            bus.write_mem_u8(base + i as u64, data[i]);
            i = i + 1;
            proof {
                assert(bus.io_trace() =~= old(bus).io_trace() + sector_copy_events_upto(
                    base,
                    data@,
                    i as int,
                ));
            }
        }
        let ghost t_copied = bus.io_trace();
        let r = self.submit_request(bus, VIRTIO_BLK_T_OUT, sector);
        proof {
            let avail_idx = choose|avail_idx: u16|
                bus.io_trace() == t_copied + submit_events(
                    *old(self),
                    VIRTIO_BLK_T_OUT,
                    sector,
                    avail_idx,
                );
            assert(bus.io_trace() =~= old(bus).io_trace() + sector_copy_events(
                (old(self).req_paddr + REQ_DATA_OFFSET) as u64,
                data@,
            ) + submit_events(*old(self), VIRTIO_BLK_T_OUT, sector, avail_idx));
        }
        r
    }
}

/// Every frame the allocator can hand out lies, page and all, inside the
/// bus's DMA-visible memory window.
pub open spec fn frames_dma_visible<B: VirtioBus, A: FrameAllocator>(bus: &B, frames: &A) -> bool {
    forall|f: u64, a: u64|
        #[trigger] frames.possible_frame(f) && f <= a < f + PAGE_SIZE ==> #[trigger] bus.mem().dom().contains(a)
}

/// Zero one whole DMA page.
fn zero_page<B: VirtioBus>(bus: &mut B, page: u64)
    requires
        page % PAGE_SIZE == 0,
        page + PAGE_SIZE <= u64::MAX,
        forall|a: u64|
            page <= a < page + PAGE_SIZE ==> #[trigger] old(bus).mem().dom().contains(a),
    ensures
        final(bus).mem().dom() == old(bus).mem().dom(),
        final(bus).io_trace() == old(bus).io_trace() + zero_page_events(page),
{
    let mut off: u64 = 0;
    let ghost k: int = 0;
    while off < PAGE_SIZE
        invariant
            off <= PAGE_SIZE,
            off == 8 * k,
            0 <= k <= 512,
            page + PAGE_SIZE <= u64::MAX,
            forall|a: u64|
                page <= a < page + PAGE_SIZE ==> #[trigger] bus.mem().dom().contains(a),
            bus.mem().dom() == old(bus).mem().dom(),
            bus.io_trace() == old(bus).io_trace() + zero_page_events_upto(page, k),
        decreases PAGE_SIZE - off,
    {
        bus.write_mem_u64(page + off, 0);
        off = off + 8;
        proof {
            k = k + 1;
            assert(bus.io_trace() =~= old(bus).io_trace() + zero_page_events_upto(page, k));
        }
    }
}

/// Bring up a legacy virtio block device.
///
/// The handshake writes reset, acknowledge and driver status, negotiates
/// no optional features, sizes queue 0 (clamped to `QUEUE_SIZE`), lays the
/// virtqueue out in one freshly allocated zeroed page, programs the queue
/// page frame number, allocates and zeroes a second page for the request
/// buffer, reads the capacity, and announces the driver ready.
///
/// Fails with `Unavailable` exactly when the device reports queue 0
/// absent, and with `Exhausted` when no physical frame is left for one of
/// the two pages; a queue of at most `QUEUE_SIZE` entries always fits one
/// page, so the layout check never fails.
#[verifier::rlimit(100)]
pub fn init_legacy<B: VirtioBus, A: FrameAllocator>(bus: &mut B, frames: &mut A) -> (r: Result<
    VirtioBlk,
    CoreError,
>)
    requires
        old(frames).wf(),
        frames_dma_visible(old(bus), old(frames)),
    ensures
        final(frames).wf(),
        final(bus).mem().dom() == old(bus).mem().dom(),
        match r {
            Ok(vb) => {
                &&& vb.spec_wf()
                &&& vb.dma_ok(final(bus))
                &&& vb.last_used_idx == 0
                &&& final(frames).frames() == old(frames).frames().push(vb.queue_paddr).push(
                    vb.req_paddr,
                )
                &&& exists|host_features: u32, max_queue: u16, cap_low: u32, cap_high: u32|
                    {
                        &&& max_queue != 0
                        &&& vb.queue_size == (if max_queue < QUEUE_SIZE {
                            max_queue
                        } else {
                            QUEUE_SIZE
                        })
                        &&& vb.capacity_sectors == (((cap_high as u64) << 32) | cap_low as u64)
                        &&& final(bus).io_trace() == old(bus).io_trace() + init_events(
                            vb,
                            host_features,
                            max_queue,
                            cap_low,
                            cap_high,
                        )
                    }
            },
            Err(e) => {
                &&& (e == CoreError::Unavailable || e == CoreError::Exhausted)
                &&& e == CoreError::Unavailable ==> final(frames).frames() == old(frames).frames()
                    && exists|host_features: u32|
                    final(bus).io_trace() == old(bus).io_trace() + queue_probe_events(
                        host_features,
                        0,
                    )
                &&& e == CoreError::Exhausted ==> !final(frames).has_frame() && (final(frames).frames() == old(frames).frames() || exists|q: u64|
                    final(frames).frames() == old(frames).frames().push(q))
            },
        },
{
    bus.write_reg8(REG_STATUS, STATUS_RESET);
    bus.write_reg8(REG_STATUS, STATUS_ACK);
    bus.write_reg8(REG_STATUS, STATUS_ACK | STATUS_DRIVER);

    let host_features = bus.read_reg32(REG_HOST_FEATURES);
    bus.write_reg32(REG_GUEST_FEATURES, FEATURES_NONE);

    bus.write_reg16(REG_QUEUE_SEL, QUEUE_INDEX);
    let max_queue = bus.read_reg16(REG_QUEUE_NUM);
    if max_queue == 0 {
        proof {
            assert(bus.io_trace() =~= old(bus).io_trace() + queue_probe_events(host_features, 0));
        }
        return Err(CoreError::Unavailable);
    }
    let queue_size: u16 = if max_queue < QUEUE_SIZE {
        max_queue
    } else {
        QUEUE_SIZE
    };
    bus.write_reg16(REG_QUEUE_NUM, queue_size);
    let ghost t_num = bus.io_trace();
    proof {
        assert(t_num =~= old(bus).io_trace() + queue_probe_events(host_features, max_queue).push(
            IoEvent::RegWrite16(REG_QUEUE_NUM, queue_size),
        ));
    }

    let queue_paddr = match frames.alloc_frame() {
        Some(f) => f,
        None => {
            return Err(CoreError::Exhausted);
        },
    };
    zero_page(bus, queue_paddr);

    let desc_size: u64 = 16 * queue_size as u64;
    let avail_offset = align2(desc_size);
    let avail_size: u64 = 4 + 2 * queue_size as u64 + 2;
    let used_offset = align2(avail_offset + avail_size);
    let used_size: u64 = 4 + 8 * queue_size as u64 + 2;

    let total = used_offset + used_size;
    if total > PAGE_SIZE {
        return Err(CoreError::LayoutTooLarge);
    }

    bus.write_reg32(REG_QUEUE_PFN, (queue_paddr / PAGE_SIZE) as u32);
    let ghost t_pfn = bus.io_trace();
    proof {
        assert(t_pfn =~= t_num + zero_page_events(queue_paddr) + seq![
            IoEvent::RegWrite32(REG_QUEUE_PFN, (queue_paddr / PAGE_SIZE) as u32),
        ]);
    }

    let ghost frames_mid = *frames;
    let req_paddr = match frames.alloc_frame() {
        Some(f) => f,
        None => {
            return Err(CoreError::Exhausted);
        },
    };
    proof {
        assert(frames_mid.frames()[frames_mid.frames().len() - 1] == queue_paddr);
    }
    zero_page(bus, req_paddr);

    let cap_low = bus.read_reg32(REG_CONFIG);
    let cap_high = bus.read_reg32(REG_CONFIG + 4);
    let capacity_sectors = ((cap_high as u64) << 32) | cap_low as u64;

    bus.write_reg8(REG_STATUS, STATUS_ACK | STATUS_DRIVER | STATUS_DRIVER_OK);

    let vb = VirtioBlk {
        queue_size,
        queue_paddr,
        avail_offset,
        used_offset,
        last_used_idx: 0,
        req_paddr,
        capacity_sectors,
    };
    proof {
        assert(bus.io_trace() =~= t_pfn + zero_page_events(req_paddr) + seq![
            IoEvent::RegRead32(REG_CONFIG, cap_low),
            IoEvent::RegRead32((REG_CONFIG + 4) as u16, cap_high),
            IoEvent::RegWrite8(REG_STATUS, STATUS_ACK | STATUS_DRIVER | STATUS_DRIVER_OK),
        ]);
        assert(bus.io_trace() =~= old(bus).io_trace() + init_events(
            vb,
            host_features,
            max_queue,
            cap_low,
            cap_high,
        ));
    }
    Ok(vb)
}

/// In-memory virtio device: guest memory is a flat window starting at
/// physical address 0, and the device acts only when notified.
///
/// When completion is enabled, a notify walks the published descriptor
/// chain, fills device-writable buffers with `fill_byte` (at most a page
/// per descriptor), writes `complete_status` into the one-byte status
/// descriptor, and advances the used ring.  `mem_reads` counts the
/// guest-memory reads the driver has issued, which makes the driver's
/// polling observable.
pub struct SyntheticVirtioBus {
    /// Guest memory window, starting at physical address 0.
    pub buf: Vec<u8>,
    /// Count of guest-memory reads the driver has issued.
    pub mem_reads: u64,
    /// Value the host-features register reports.
    pub host_features: u32,
    /// Maximum size the device reports for queue 0.
    pub queue_num_max: u16,
    /// Device capacity in sectors, reported through the config registers.
    pub capacity: u64,
    /// Whether a notify completes the published request.
    pub complete_requests: bool,
    /// Status byte the device writes on completion.
    pub complete_status: u8,
    /// Byte the device fills device-writable data buffers with.
    pub fill_byte: u8,
    /// Device status register as last written.
    pub status: u8,
    /// Guest features as last written.
    pub guest_features: u32,
    /// Selected queue as last written.
    pub queue_sel: u16,
    /// Queue size as last written by the driver.
    pub queue_num: u16,
    /// Queue page frame number as last written.
    pub queue_pfn: u32,
    /// Device-side count of completed requests (the used index it writes).
    pub used_count: u16,
    /// The driver actions observed so far, in order.
    pub trace: Ghost<Seq<IoEvent>>,
}

impl SyntheticVirtioBus {
    /// Create a device with `mem_size` bytes of zeroed guest memory.
    pub fn new(
        mem_size: usize,
        queue_num_max: u16,
        capacity: u64,
        complete_requests: bool,
        complete_status: u8,
        fill_byte: u8,
    ) -> (r: Self)
        ensures
            r.buf@.len() == mem_size,
            forall|a: u64| r.mem().dom().contains(a) <==> a < mem_size,
            r.io_trace() == Seq::<IoEvent>::empty(),
            r.mem_reads == 0,
    {
        let r = Self {
            buf: vec![0u8; mem_size],
            mem_reads: 0,
            host_features: 0,
            queue_num_max,
            capacity,
            complete_requests,
            complete_status,
            fill_byte,
            status: 0,
            guest_features: 0,
            queue_sel: 0,
            queue_num: 0,
            queue_pfn: 0,
            used_count: 0,
            trace: Ghost(Seq::empty()),
        };
        r
    }

    /// Byte of guest memory, zero when out of the window.
    fn byte_at(&self, pa: u64) -> u8 {
        if pa < self.buf.len() as u64 {
            self.buf[pa as usize]
        } else {
            0
        }
    }

    fn get_u16(&self, pa: u64) -> u16 {
        (self.byte_at(pa) as u16) | ((self.byte_at(pa.wrapping_add(1)) as u16) << 8)
    }

    fn get_u32(&self, pa: u64) -> u32 {
        (self.get_u16(pa) as u32) | ((self.get_u16(pa.wrapping_add(2)) as u32) << 16)
    }

    fn get_u64(&self, pa: u64) -> u64 {
        (self.get_u32(pa) as u64) | ((self.get_u32(pa.wrapping_add(4)) as u64) << 32)
    }

    /// Store a byte of guest memory, ignoring out-of-window addresses.
    fn put_u8(&mut self, pa: u64, v: u8)
        ensures
            final(self).buf@.len() == old(self).buf@.len(),
            final(self).trace == old(self).trace,
    {
        if pa < self.buf.len() as u64 {
            self.buf.set(pa as usize, v);
        }
    }

    fn put_u16(&mut self, pa: u64, v: u16)
        ensures
            final(self).buf@.len() == old(self).buf@.len(),
            final(self).trace == old(self).trace,
    {
        self.put_u8(pa, (v & 0xff) as u8);
        self.put_u8(pa.wrapping_add(1), (v >> 8) as u8);
    }

    fn put_u32(&mut self, pa: u64, v: u32)
        ensures
            final(self).buf@.len() == old(self).buf@.len(),
            final(self).trace == old(self).trace,
    {
        self.put_u16(pa, (v & 0xffff) as u16);
        self.put_u16(pa.wrapping_add(2), (v >> 16) as u16);
    }

    /// Walk the published 3-descriptor chain and complete it.
    fn complete_one(&mut self)
        ensures
            final(self).buf@.len() == old(self).buf@.len(),
            final(self).trace == old(self).trace,
    {
        let qs = self.queue_num;
        if qs == 0 || qs > QUEUE_SIZE {
            return;
        }
        let qpa = (self.queue_pfn as u64) * PAGE_SIZE;
        let avail_off: u64 = 16 * qs as u64;
        let used_off: u64 = 18 * qs as u64 + 6;
        let avail_idx = self.get_u16(qpa.wrapping_add(avail_off).wrapping_add(2));
        let slot = (avail_idx.wrapping_sub(1) % qs) as u64;
        let head = self.get_u16(
            qpa.wrapping_add(avail_off).wrapping_add(4).wrapping_add(2u64.wrapping_mul(slot)),
        );
        let fill = self.fill_byte;
        let done = self.complete_status;

        let mut desc_idx = head;
        let mut hops: u8 = 0;
        let mut total_written: u32 = 0;
        while hops < 3
            invariant
                self.buf@.len() == old(self).buf@.len(),
                self.trace == old(self).trace,
            decreases 3 - hops,
        {
            if desc_idx >= qs {
                break;
            }
            let d = qpa.wrapping_add(16 * desc_idx as u64);
            let addr = self.get_u64(d);
            let len = self.get_u32(d.wrapping_add(8));
            let flags = self.get_u16(d.wrapping_add(12));
            let next = self.get_u16(d.wrapping_add(14));
            if flags & VIRTQ_DESC_F_WRITE != 0 {
                if len == 1 {
                    self.put_u8(addr, done);
                } else {
                    let n: u32 = if len > PAGE_SIZE as u32 {
                        PAGE_SIZE as u32
                    } else {
                        len
                    };
                    let mut i: u32 = 0;
                    while i < n
                        invariant
                            self.buf@.len() == old(self).buf@.len(),
                            self.trace == old(self).trace,
                        decreases n - i,
                    {
                        self.put_u8(addr.wrapping_add(i as u64), fill);
                        i = i.wrapping_add(1);
                    }
                }
                total_written = total_written.wrapping_add(len);
            }
            if flags & VIRTQ_DESC_F_NEXT == 0 {
                break;
            }
            desc_idx = next;
            hops = hops.wrapping_add(1);
        }

        self.used_count = self.used_count.wrapping_add(1);
        let e = qpa.wrapping_add(used_off).wrapping_add(4).wrapping_add(
            8u64.wrapping_mul((self.used_count.wrapping_sub(1) % qs) as u64),
        );
        self.put_u32(e, head as u32);
        self.put_u32(e.wrapping_add(4), total_written);
        self.put_u16(qpa.wrapping_add(used_off).wrapping_add(2), self.used_count);
    }
}

impl VirtioBus for SyntheticVirtioBus {
    closed spec fn mem(&self) -> Map<u64, u8> {
        Map::new(|a: u64| a < self.buf@.len(), |a: u64| self.buf@[a as int])
    }

    closed spec fn io_trace(&self) -> Seq<IoEvent> {
        self.trace@
    }

    fn read_reg16(&mut self, offset: u16) -> (r: u16) {
        let r = if offset == REG_QUEUE_NUM {
            self.queue_num_max
        } else {
            0
        };
        proof {
            self.trace@ = self.trace@.push(IoEvent::RegRead16(offset, r));
        }
        r
    }

    fn read_reg32(&mut self, offset: u16) -> (r: u32) {
        let r = if offset == REG_HOST_FEATURES {
            self.host_features
        } else if offset == REG_CONFIG {
            self.capacity as u32
        } else if offset == REG_CONFIG + 4 {
            (self.capacity >> 32) as u32
        } else {
            0
        };
        proof {
            self.trace@ = self.trace@.push(IoEvent::RegRead32(offset, r));
        }
        r
    }

    fn write_reg8(&mut self, offset: u16, v: u8)
        ensures
            final(self).mem() == old(self).mem(),
            offset == REG_STATUS ==> final(self).status == v,
    {
        if offset == REG_STATUS {
            self.status = v;
        }
        proof {
            self.trace@ = self.trace@.push(IoEvent::RegWrite8(offset, v));
            assert(self.mem() =~= old(self).mem());
        }
    }

    fn write_reg16(&mut self, offset: u16, v: u16)
        ensures
            !(offset == REG_QUEUE_NOTIFY && old(self).complete_requests) ==> final(self).mem()
                == old(self).mem(),
    {
        if offset == REG_QUEUE_SEL {
            self.queue_sel = v;
        } else if offset == REG_QUEUE_NUM {
            self.queue_num = v;
        } else if offset == REG_QUEUE_NOTIFY {
            if self.complete_requests {
                self.complete_one();
            }
        }
        proof {
            self.trace@ = self.trace@.push(IoEvent::RegWrite16(offset, v));
            assert(self.mem().dom() =~= old(self).mem().dom());
            if !(offset == REG_QUEUE_NOTIFY && old(self).complete_requests) {
                assert(self.mem() =~= old(self).mem());
            }
        }
    }

    fn write_reg32(&mut self, offset: u16, v: u32)
        ensures
            final(self).mem() == old(self).mem(),
    {
        if offset == REG_GUEST_FEATURES {
            self.guest_features = v;
        } else if offset == REG_QUEUE_PFN {
            self.queue_pfn = v;
        }
        proof {
            self.trace@ = self.trace@.push(IoEvent::RegWrite32(offset, v));
            assert(self.mem() =~= old(self).mem());
        }
    }

    fn fence(&mut self)
        ensures
            final(self).mem() == old(self).mem(),
    {
        proof {
            self.trace@ = self.trace@.push(IoEvent::Fence);
        }
    }

    fn read_mem_u8(&mut self, pa: u64) -> (r: u8)
        ensures
            final(self).mem_reads == vstd::wrapping::u64_specs::wrapping_add(
                old(self).mem_reads,
                1,
            ),
            *final(self) == (SyntheticVirtioBus { mem_reads: final(self).mem_reads, ..*old(self) }),
    {
        let n = self.buf.len();
        proof {
            assert(n == self.buf@.len());
            assert(pa < self.buf@.len());
            assert(pa as usize as int == pa as int);
        }
        self.mem_reads = self.mem_reads.wrapping_add(1);
        let r = self.buf[pa as usize];
        proof {
            assert(self.mem() =~= old(self).mem());
            assert(old(self).mem()[pa] == old(self).buf@[pa as int]);
        }
        r
    }

    fn read_mem_u16(&mut self, pa: u64) -> (r: u16)
        ensures
            final(self).mem_reads == vstd::wrapping::u64_specs::wrapping_add(
                old(self).mem_reads,
                1,
            ),
            *final(self) == (SyntheticVirtioBus { mem_reads: final(self).mem_reads, ..*old(self) }),
    {
        let n = self.buf.len();
        proof {
            assert(n == self.buf@.len());
            assert(pa < self.buf@.len());
            assert(pa + 1 < self.buf@.len());
            assert(pa as usize as int == pa as int);
            assert(((pa + 1) as u64) as usize as int == pa as int + 1);
        }
        self.mem_reads = self.mem_reads.wrapping_add(1);
        let b0 = self.buf[pa as usize];
        let b1 = self.buf[(pa + 1) as usize];
        proof {
            assert(self.mem() =~= old(self).mem());
            assert(old(self).mem()[pa] == old(self).buf@[pa as int]);
            assert(old(self).mem()[(pa + 1) as u64] == old(self).buf@[pa as int + 1]);
            assert(((b0 as u16) | ((b1 as u16) << 8)) == (b0 + 256 * b1) as u16) by (bit_vector);
        }
        (b0 as u16) | ((b1 as u16) << 8)
    }

    fn write_mem_u8(&mut self, pa: u64, v: u8) {
        let n = self.buf.len();
        proof {
            assert(n == self.buf@.len());
            assert(pa < self.buf@.len());
            assert(pa as usize as int == pa as int);
        }
        self.buf.set(pa as usize, v);
        proof {
            assert(self.mem().dom() =~= old(self).mem().dom());
            assert forall|a: u64|
                old(self).mem().dom().contains(a) && a != pa implies self.mem()[a] == old(self).mem()[a] by {
                assert(a < old(self).buf@.len());
            }
            assert(self.mem()[pa] == v);
            self.trace@ = self.trace@.push(IoEvent::MemWrite8(pa, v));
        }
    }

    fn write_mem_u16(&mut self, pa: u64, v: u16) {
        let n = self.buf.len();
        proof {
            assert(n == self.buf@.len());
            assert(pa < self.buf@.len());
            assert(pa + 1 < self.buf@.len());
            assert(pa as usize as int == pa as int);
            assert(((pa + 1) as u64) as usize as int == pa as int + 1);
        }
        self.buf.set(pa as usize, (v & 0xff) as u8);
        self.buf.set((pa + 1) as usize, (v >> 8) as u8);
        proof {
            assert(self.mem().dom() =~= old(self).mem().dom());
            assert forall|a: u64|
                old(self).mem().dom().contains(a) && !(pa <= a <= pa + 1) implies self.mem()[a]
                == old(self).mem()[a] by {
                assert(a < old(self).buf@.len());
            }
            assert(self.mem()[pa] == (v & 0xff) as u8);
            assert(self.mem()[(pa + 1) as u64] == (v >> 8) as u8);
            self.trace@ = self.trace@.push(IoEvent::MemWrite16(pa, v));
        }
    }

    fn write_mem_u32(&mut self, pa: u64, v: u32) {
        let n = self.buf.len();
        proof {
            assert(n == self.buf@.len());
            assert(old(self).mem().dom().contains(pa));
            assert(old(self).mem().dom().contains((pa + 1) as u64));
            assert(old(self).mem().dom().contains((pa + 2) as u64));
            assert(old(self).mem().dom().contains((pa + 3) as u64));
            assert(pa + 3 < self.buf@.len());
            assert(pa as usize as int == pa as int);
            assert(((pa + 1) as u64) as usize as int == pa as int + 1);
            assert(((pa + 2) as u64) as usize as int == pa as int + 2);
            assert(((pa + 3) as u64) as usize as int == pa as int + 3);
        }
        self.buf.set(pa as usize, (v & 0xff) as u8);
        self.buf.set((pa + 1) as usize, ((v >> 8) & 0xff) as u8);
        self.buf.set((pa + 2) as usize, ((v >> 16) & 0xff) as u8);
        self.buf.set((pa + 3) as usize, ((v >> 24) & 0xff) as u8);
        proof {
            assert(self.mem().dom() =~= old(self).mem().dom());
            assert forall|a: u64|
                old(self).mem().dom().contains(a) && !(pa <= a <= pa + 3) implies self.mem()[a]
                == old(self).mem()[a] by {
                assert(a < old(self).buf@.len());
            }
            assert(self.mem()[pa] == (v & 0xff) as u8);
            assert(self.mem()[(pa + 1) as u64] == ((v >> 8) & 0xff) as u8);
            assert(self.mem()[(pa + 2) as u64] == ((v >> 16) & 0xff) as u8);
            assert(self.mem()[(pa + 3) as u64] == ((v >> 24) & 0xff) as u8);
            self.trace@ = self.trace@.push(IoEvent::MemWrite32(pa, v));
        }
    }

    fn write_mem_u64(&mut self, pa: u64, v: u64) {
        let n = self.buf.len();
        proof {
            assert(n == self.buf@.len());
            assert(old(self).mem().dom().contains(pa));
            assert(old(self).mem().dom().contains((pa + 1) as u64));
            assert(old(self).mem().dom().contains((pa + 2) as u64));
            assert(old(self).mem().dom().contains((pa + 3) as u64));
            assert(old(self).mem().dom().contains((pa + 4) as u64));
            assert(old(self).mem().dom().contains((pa + 5) as u64));
            assert(old(self).mem().dom().contains((pa + 6) as u64));
            assert(old(self).mem().dom().contains((pa + 7) as u64));
            assert(pa + 7 < self.buf@.len());
            assert(pa as usize as int == pa as int);
            assert(((pa + 1) as u64) as usize as int == pa as int + 1);
            assert(((pa + 2) as u64) as usize as int == pa as int + 2);
            assert(((pa + 3) as u64) as usize as int == pa as int + 3);
            assert(((pa + 4) as u64) as usize as int == pa as int + 4);
            assert(((pa + 5) as u64) as usize as int == pa as int + 5);
            assert(((pa + 6) as u64) as usize as int == pa as int + 6);
            assert(((pa + 7) as u64) as usize as int == pa as int + 7);
        }
        self.buf.set(pa as usize, (v & 0xff) as u8);
        self.buf.set((pa + 1) as usize, ((v >> 8) & 0xff) as u8);
        self.buf.set((pa + 2) as usize, ((v >> 16) & 0xff) as u8);
        self.buf.set((pa + 3) as usize, ((v >> 24) & 0xff) as u8);
        self.buf.set((pa + 4) as usize, ((v >> 32) & 0xff) as u8);
        self.buf.set((pa + 5) as usize, ((v >> 40) & 0xff) as u8);
        self.buf.set((pa + 6) as usize, ((v >> 48) & 0xff) as u8);
        self.buf.set((pa + 7) as usize, ((v >> 56) & 0xff) as u8);
        proof {
            assert(self.mem().dom() =~= old(self).mem().dom());
            assert forall|a: u64|
                old(self).mem().dom().contains(a) && !(pa <= a <= pa + 7) implies self.mem()[a]
                == old(self).mem()[a] by {
                assert(a < old(self).buf@.len());
            }
            assert(self.mem()[pa] == (v & 0xff) as u8);
            assert(self.mem()[(pa + 1) as u64] == ((v >> 8) & 0xff) as u8);
            assert(self.mem()[(pa + 2) as u64] == ((v >> 16) & 0xff) as u8);
            assert(self.mem()[(pa + 3) as u64] == ((v >> 24) & 0xff) as u8);
            assert(self.mem()[(pa + 4) as u64] == ((v >> 32) & 0xff) as u8);
            assert(self.mem()[(pa + 5) as u64] == ((v >> 40) & 0xff) as u8);
            assert(self.mem()[(pa + 6) as u64] == ((v >> 48) & 0xff) as u8);
            assert(self.mem()[(pa + 7) as u64] == ((v >> 56) & 0xff) as u8);
            self.trace@ = self.trace@.push(IoEvent::MemWrite64(pa, v));
        }
    }
}

/// Align a byte offset to the rings' two-byte field alignment.
fn align2(x: u64) -> (r: u64)
    requires
        x + 1 <= u64::MAX,
    ensures
        r == crate::mem::spec_align_up(x as int, 2),
        x % 2 == 0 ==> r == x,
{
    proof {
        assert(is_pow2_2()) by {
            assert(2u64 == 1u64 << 1) by (bit_vector);
        }
    }
    crate::mem::align_up(x, 2)
}

/// The rings' field alignment is a power of two.
spec fn is_pow2_2() -> bool {
    crate::mem::is_pow2(2)
}

} // verus!
