use kernel_core::frame_allocator::{Frame, FrameAllocator, MemoryDescriptorInfo, PhysAddr, VirtAddr, FRAME_SIZE};

fn map() -> Vec<MemoryDescriptorInfo> {
    vec![
        MemoryDescriptorInfo { conventional: true, phys_start: 0x1000, page_count: 4 },
        MemoryDescriptorInfo { conventional: false, phys_start: 0x10_0000, page_count: 10_000 },
        MemoryDescriptorInfo { conventional: true, phys_start: 0x20_0000, page_count: 100 },
        MemoryDescriptorInfo { conventional: true, phys_start: 0x90_0000, page_count: 100 },
    ]
}

#[test]
fn addresses_and_frames() {
    assert_eq!(PhysAddr::new(5).as_u64(), 5);
    assert_eq!(VirtAddr::new(6).as_u64(), 6);
    let f = Frame::containing_address(PhysAddr::new(0x1234));
    assert_eq!(f.start_address(), PhysAddr::new(0x1000));
    assert_eq!(f.end_address(), PhysAddr::new(0x2000));
    let mut it = Frame::range_inclusive(f, Frame::containing_address(PhysAddr::new(0x3000)));
    assert_eq!(it.next(), Some(Frame { start: PhysAddr::new(0x1000) }));
    assert_eq!(it.next(), Some(Frame { start: PhysAddr::new(0x2000) }));
    assert_eq!(it.next(), None);
}

#[test]
fn allocator_over_largest_region() {
    let mut a = FrameAllocator::new(&map()).unwrap();
    assert_eq!(a.stats(), (1, 100));
    let base = 0x20_0000 + FRAME_SIZE;
    let f1 = a.allocate_frame().unwrap();
    assert_eq!(f1.start.as_u64(), base + FRAME_SIZE);
    let f2 = a.allocate_frame().unwrap();
    assert_eq!(f2.start.as_u64(), base + 2 * FRAME_SIZE);
    assert_eq!(a.stats(), (3, 100));
    a.deallocate_frame(f1);
    assert_eq!(a.stats(), (2, 100));
    a.deallocate_frame(f1);
    assert_eq!(a.stats(), (2, 100));
    assert_eq!(a.allocate_frame(), Some(f1));
    a.deallocate_frame(Frame { start: PhysAddr::new(0) });
    assert_eq!(a.stats(), (3, 100));
}

#[test]
fn allocator_runs_out() {
    let small = vec![MemoryDescriptorInfo { conventional: true, phys_start: 0, page_count: 3 }];
    let mut a = FrameAllocator::new(&small).unwrap();
    assert!(a.allocate_frame().is_some());
    assert!(a.allocate_frame().is_some());
    assert!(a.allocate_frame().is_none());
    assert_eq!(a.stats(), (3, 3));
}

#[test]
fn no_conventional_memory() {
    let none = vec![MemoryDescriptorInfo { conventional: false, phys_start: 0, page_count: 3 }];
    assert!(FrameAllocator::new(&none).is_none());
    assert!(FrameAllocator::new(&[]).is_none());
}
