use beyond_os::errors::CoreError;
use beyond_os::frame::BumpFrameAllocator;
use beyond_os::mem::{MemRegion, MemRegionKind};
use beyond_os::virtio::{
    init_legacy, SyntheticVirtioBus, REQUEST_TIMEOUT_SPINS, REQUEST_STATUS_PENDING,
    REQ_STATUS_OFFSET,
};

fn frames() -> BumpFrameAllocator {
    BumpFrameAllocator::new(vec![MemRegion {
        start: 0,
        end: 0x4000,
        kind: MemRegionKind::Usable,
    }])
}

fn device(complete: bool, status: u8, fill: u8) -> SyntheticVirtioBus {
    SyntheticVirtioBus::new(0x4000, 8, 2048, complete, status, fill)
}

#[test]
fn init_negotiates_queue_and_capacity() {
    let mut bus = device(true, 0, 0);
    let mut alloc = frames();
    let vb = init_legacy(&mut bus, &mut alloc).unwrap();
    assert_eq!(vb.queue_size, 8);
    assert_eq!(vb.capacity_sectors(), 2048);
    assert_eq!(vb.last_used_idx, 0);
    assert_ne!(vb.queue_paddr, vb.req_paddr);
    assert_eq!(vb.queue_paddr % 4096, 0);
    assert_eq!(vb.req_paddr % 4096, 0);
    // the handshake left the device live
    assert_eq!(bus.status, 0x01 | 0x02 | 0x04);
}

#[test]
fn init_clamps_queue_size() {
    let mut bus = device(true, 0, 0);
    bus.queue_num_max = 4;
    let mut alloc = frames();
    let vb = init_legacy(&mut bus, &mut alloc).unwrap();
    assert_eq!(vb.queue_size, 4);
}

#[test]
fn init_fails_without_queue() {
    let mut bus = device(true, 0, 0);
    bus.queue_num_max = 0;
    let mut alloc = frames();
    assert!(matches!(init_legacy(&mut bus, &mut alloc), Err(CoreError::Unavailable)));
}

#[test]
fn init_fails_without_frames() {
    let mut bus = device(true, 0, 0);
    let mut alloc = BumpFrameAllocator::new(vec![MemRegion {
        start: 0,
        end: 0x1000,
        kind: MemRegionKind::Reserved,
    }]);
    assert!(matches!(init_legacy(&mut bus, &mut alloc), Err(CoreError::Exhausted)));
}

#[test]
fn timeout_preserves_state() {
    // the device never advances the used index
    let mut bus = device(false, 0, 0);
    let mut alloc = frames();
    let mut vb = init_legacy(&mut bus, &mut alloc).unwrap();

    let reads_before = bus.mem_reads;
    let mut out = [0u8; 512];
    let r = vb.read_sector(&mut bus, 0, &mut out);
    assert!(matches!(r, Err(CoreError::Timeout)));

    // the poll ran for exactly the configured spin budget: one available-
    // index read, the initial used-index read, one read per spin except
    // the final one, and the post-loop re-check
    assert_eq!(bus.mem_reads - reads_before, REQUEST_TIMEOUT_SPINS + 2);

    // the request state is untouched: the status byte still holds the
    // pending sentinel and no used entry was consumed
    let status = bus.buf[(vb.req_paddr + REQ_STATUS_OFFSET) as usize];
    assert_eq!(status, REQUEST_STATUS_PENDING);
    assert_eq!(vb.last_used_idx, 0);
    // the caller's buffer was not written
    assert_eq!(out, [0u8; 512]);
}

#[test]
fn read_sector_success_path() {
    let mut bus = device(true, 0x00, 0xab);
    let mut alloc = frames();
    let mut vb = init_legacy(&mut bus, &mut alloc).unwrap();

    let mut out = [0u8; 512];
    vb.read_sector(&mut bus, 7, &mut out).unwrap();
    assert_eq!(out, [0xab_u8; 512]);
    assert_eq!(vb.last_used_idx, 1);

    // a second request works the same way
    let mut out2 = [0u8; 512];
    vb.read_sector(&mut bus, 8, &mut out2).unwrap();
    assert_eq!(out2, [0xab_u8; 512]);
    assert_eq!(vb.last_used_idx, 2);
}

#[test]
fn write_sector_success_path() {
    let mut bus = device(true, 0x00, 0);
    let mut alloc = frames();
    let mut vb = init_legacy(&mut bus, &mut alloc).unwrap();

    let data = [0x5a_u8; 512];
    vb.write_sector(&mut bus, 3, &data).unwrap();
    assert_eq!(vb.last_used_idx, 1);
    // the data area of the request page holds what was submitted
    let base = (vb.req_paddr + 16) as usize;
    assert_eq!(&bus.buf[base..base + 512], &data[..]);
}

#[test]
fn device_error_is_reported() {
    let mut bus = device(true, 0x01, 0);
    let mut alloc = frames();
    let mut vb = init_legacy(&mut bus, &mut alloc).unwrap();

    let mut out = [0u8; 512];
    assert!(matches!(vb.read_sector(&mut bus, 0, &mut out), Err(CoreError::DeviceError)));
    // the completion was consumed even though the request failed
    assert_eq!(vb.last_used_idx, 1);
}
