use kernel::mem::{AddressSpace, Flag, Frame, Page, PageError, VirtAddr};
use kernel::proc::{Id, Process, ProcessError};
use kernel::platform::{Reply, Request};
use kernel::region::RegionAlloc;

/// A platform that keeps what it was asked to do.
struct Platform {
    active: u32,
    frames_left: u32,
    next_frame: u32,
    maps_left: u32,
    activated: Vec<u32>,
    restored: Vec<u32>,
    mappings: Vec<(Page, Frame, Flag)>,
}

impl Platform {
    fn new(active: u32) -> Platform {
        Platform {
            active,
            frames_left: u32::MAX,
            next_frame: 0x8_0000,
            maps_left: u32::MAX,
            activated: Vec::new(),
            restored: Vec::new(),
            mappings: Vec::new(),
        }
    }

    fn perform(&mut self, request: Request) -> Reply {
        match request {
            Request::Activate { ppn } => {
                let previous = self.active;
                self.active = ppn;
                self.activated.push(ppn);
                Reply::Activated { previous }
            }
            Request::AllocFrame => {
                if self.frames_left == 0 {
                    Reply::Frame(Err(PageError::OutOfMemory))
                } else {
                    self.frames_left -= 1;
                    self.next_frame += 1;
                    Reply::Frame(Ok(Frame(self.next_frame)))
                }
            }
            Request::MapPage { page, frame, flag } => {
                if self.maps_left == 0 {
                    Reply::Mapped(Err(PageError::MapFailed))
                } else {
                    self.maps_left -= 1;
                    self.mappings.push((page, frame, flag));
                    Reply::Mapped(Ok(()))
                }
            }
            Request::Restore { ppn } => {
                self.active = ppn;
                self.restored.push(ppn);
                Reply::Restored
            }
            Request::Fill { .. } => panic!("a region asks for no fill"),
            Request::Done(_) => panic!("nothing to perform"),
        }
    }

    fn drive(&mut self, op: &mut RegionAlloc) -> Result<(), ProcessError> {
        let mut request = op.request();
        loop {
            if let Request::Done(result) = request {
                return result;
            }
            let reply = self.perform(request);
            request = op.step(reply);
        }
    }
}

fn process(root: u32) -> Process {
    Process::new(0, Id(0), AddressSpace::new(Frame(root), Frame(root + 1)))
}

fn read_only() -> Flag {
    Flag { valid: false, read: true, write: false, execute: false, user: true }
}

fn frames_for(size: usize) -> usize {
    let mut platform = Platform::new(1);
    let mut op = process(0x100).region_alloc(VirtAddr(0x4000_0000), size, read_only()).unwrap();
    assert!(platform.drive(&mut op).is_ok());
    assert_eq!(op.frames_taken() as usize, platform.mappings.len());
    assert_eq!(op.pages_mapped() as usize, platform.mappings.len());
    assert_eq!(platform.next_frame as usize - 0x8_0000, platform.mappings.len());
    platform.mappings.len()
}

#[test]
fn a_region_takes_one_frame_for_each_page() {
    assert_eq!(frames_for(0), 0);
    assert_eq!(frames_for(1), 1);
    assert_eq!(frames_for(4095), 1);
    assert_eq!(frames_for(4096), 1);
    assert_eq!(frames_for(4097), 2);
    assert_eq!(frames_for(8192), 2);
    assert_eq!(frames_for(10 * 4096 + 1), 11);
}

#[test]
fn each_page_is_mapped_present_with_the_flags_asked_for() {
    let mut platform = Platform::new(1);
    let mut op = process(0x100).region_alloc(VirtAddr(0x0001_0000), 3 * 4096, read_only()).unwrap();
    assert!(platform.drive(&mut op).is_ok());
    let expected = Flag { valid: true, read: true, write: false, execute: false, user: true };
    assert_eq!(
        platform.mappings,
        vec![
            (Page(0x10), Frame(0x8_0001), expected),
            (Page(0x11), Frame(0x8_0002), expected),
            (Page(0x12), Frame(0x8_0003), expected),
        ]
    );
}

#[test]
fn a_region_starts_at_the_page_of_its_address() {
    let mut platform = Platform::new(1);
    let mut op = process(0x100).region_alloc(VirtAddr(0x0001_0abc), 4096, read_only()).unwrap();
    assert!(platform.drive(&mut op).is_ok());
    assert_eq!(platform.mappings.len(), 1);
    assert_eq!(platform.mappings[0].0, Page(0x10));
}

#[test]
fn the_address_space_of_the_process_is_active_while_it_is_mapped() {
    let mut platform = Platform::new(0x77);
    let mut op = process(0x100).region_alloc(VirtAddr(0), 8192, read_only()).unwrap();
    assert!(matches!(op.request(), Request::Activate { ppn: 0x100 }));
    assert!(platform.drive(&mut op).is_ok());
    assert_eq!(platform.activated, vec![0x100]);
    assert_eq!(platform.restored, vec![0x77]);
    assert_eq!(platform.active, 0x77);
}

#[test]
fn a_region_stops_where_the_frames_run_out() {
    let mut platform = Platform::new(0x77);
    platform.frames_left = 2;
    let mut op = process(0x100).region_alloc(VirtAddr(0x2000), 5 * 4096, read_only()).unwrap();
    let result = platform.drive(&mut op);
    assert!(matches!(result, Err(ProcessError::FailedToMap(PageError::OutOfMemory))));
    assert_eq!(platform.mappings.len(), 2);
    assert_eq!(platform.mappings[0].0, Page(2));
    assert_eq!(platform.mappings[1].0, Page(3));
    assert_eq!(op.pages_mapped(), 2);
    assert_eq!(op.frames_taken(), 2);
    assert_eq!(platform.restored, vec![0x77]);
    assert_eq!(platform.active, 0x77);
}

#[test]
fn a_region_stops_where_a_mapping_fails() {
    let mut platform = Platform::new(0x77);
    platform.maps_left = 1;
    let mut op = process(0x100).region_alloc(VirtAddr(0x2000), 5 * 4096, read_only()).unwrap();
    let result = platform.drive(&mut op);
    assert!(matches!(result, Err(ProcessError::FailedToMap(PageError::MapFailed))));
    assert_eq!(platform.mappings.len(), 1);
    assert_eq!(op.pages_mapped(), 1);
    assert_eq!(op.frames_taken(), 2);
    assert_eq!(platform.restored, vec![0x77]);
    assert_eq!(platform.active, 0x77);
}

#[test]
fn a_region_beyond_the_address_space_is_refused() {
    let p = process(0x100);
    assert!(p.region_alloc(VirtAddr(0xffff_f000), 4096, read_only()).is_ok());
    assert!(matches!(
        p.region_alloc(VirtAddr(0xffff_f000), 4097, read_only()),
        Err(ProcessError::FailedToMap(PageError::OutOfRange))
    ));
    assert!(matches!(
        p.region_alloc(VirtAddr(0), usize::MAX, read_only()),
        Err(ProcessError::FailedToMap(PageError::OutOfRange))
    ));
    assert!(p.region_alloc(VirtAddr(0xffff_ffff), 0, read_only()).is_ok());
}

#[test]
fn a_reply_to_another_request_changes_nothing() {
    let mut op = process(0x100).region_alloc(VirtAddr(0), 4096, read_only()).unwrap();
    assert!(matches!(op.step(Reply::Restored), Request::Activate { ppn: 0x100 }));
    assert!(matches!(op.step(Reply::Frame(Ok(Frame(1)))), Request::Activate { ppn: 0x100 }));
    assert!(matches!(op.step(Reply::Activated { previous: 9 }), Request::AllocFrame));
    assert!(matches!(op.step(Reply::Mapped(Ok(()))), Request::AllocFrame));
    assert!(matches!(op.step(Reply::Activated { previous: 5 }), Request::AllocFrame));
    assert_eq!(op.frames_taken(), 0);
    assert!(matches!(
        op.step(Reply::Frame(Ok(Frame(4)))),
        Request::MapPage { page: Page(0), frame: Frame(4), .. }
    ));
    assert!(matches!(
        op.step(Reply::Frame(Ok(Frame(6)))),
        Request::MapPage { page: Page(0), frame: Frame(4), .. }
    ));
    assert_eq!(op.frames_taken(), 1);
    assert!(matches!(op.step(Reply::Mapped(Ok(()))), Request::Restore { ppn: 9 }));
    assert!(matches!(op.step(Reply::Filled), Request::Restore { ppn: 9 }));
    assert!(matches!(op.step(Reply::Restored), Request::Done(Ok(()))));
    assert!(matches!(op.step(Reply::Restored), Request::Done(Ok(()))));
    assert!(matches!(op.request(), Request::Done(Ok(()))));
}

#[test]
fn an_empty_region_only_switches_forth_and_back() {
    let mut op = process(0x100).region_alloc(VirtAddr(0x5000), 0, read_only()).unwrap();
    assert!(matches!(op.request(), Request::Activate { ppn: 0x100 }));
    assert!(matches!(op.step(Reply::Activated { previous: 3 }), Request::Restore { ppn: 3 }));
    assert!(matches!(op.step(Reply::Restored), Request::Done(Ok(()))));
}
