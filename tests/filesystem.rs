use kernel_core::filesystem::{Filesystem, FsError, OpenFlags, BLOCK_SIZE, ROOT_INODE};

fn rw_create() -> OpenFlags {
    OpenFlags { read: true, write: true, create: true, truncate: false }
}

#[test]
fn flags_from_bits() {
    let f = OpenFlags::from_bits(0b1010).unwrap();
    assert_eq!(f, OpenFlags { read: false, write: true, create: false, truncate: true });
    assert_eq!(OpenFlags::from_bits(0xf0).unwrap(), OpenFlags { read: false, write: false, create: false, truncate: false });
}

#[test]
fn write_file_then_read_file() {
    let mut fs = Filesystem::init().unwrap();
    let inum = fs.create_file(ROOT_INODE, "notes").unwrap();
    assert_eq!(fs.write_file(inum, 0, b"abcdef"), Ok(6));
    let mut buf = [9u8; 10];
    assert_eq!(fs.read_file(inum, 0, &mut buf), Ok(6));
    assert_eq!(&buf[..6], b"abcdef");
    assert_eq!(buf[6], 9);
    assert_eq!(fs.read_file(inum, 2, &mut buf[..3]), Ok(3));
    assert_eq!(&buf[..3], b"cde");
    assert_eq!(fs.read_file(inum, 6, &mut buf), Ok(0));
}

#[test]
fn write_spans_blocks() {
    let mut fs = Filesystem::init().unwrap();
    let inum = fs.create_file(ROOT_INODE, "big").unwrap();
    let data = vec![7u8; 100];
    assert_eq!(fs.write_file(inum, BLOCK_SIZE - 10, &data), Ok(100));
    let mut buf = [0u8; 20];
    assert_eq!(fs.read_file(inum, BLOCK_SIZE, &mut buf), Ok(20));
    assert_eq!(buf, [7u8; 20]);
    let tail = vec![1u8; 50];
    assert_eq!(fs.write_file(inum, 12 * BLOCK_SIZE - 20, &tail), Ok(20));
    assert_eq!(fs.write_file(inum, 12 * BLOCK_SIZE, &data), Err(FsError::FileTooLarge));
    assert_eq!(fs.write_file(ROOT_INODE, 0, &data), Err(FsError::NotRegularFile));
}

#[test]
fn open_rules() {
    let mut fs = Filesystem::init().unwrap();
    assert_eq!(fs.open("nope", rw_create()), Err(FsError::FileNotFound));
    assert_eq!(fs.open("/", rw_create()), Err(FsError::FileNotFound));
    assert_eq!(fs.open("/x", OpenFlags::from_bits(1).unwrap()), Err(FsError::FileNotFound));
    let fd = fs.open("/x", rw_create()).unwrap();
    assert_eq!(fd, 3);
    assert_eq!(fs.write(fd, b"12345"), Ok(5));
    let fd2 = fs.open("/x", OpenFlags::from_bits(1).unwrap()).unwrap();
    assert_eq!(fd2, 4);
    let mut buf = [0u8; 8];
    assert_eq!(fs.read(fd2, &mut buf), Ok(5));
    assert_eq!(&buf[..5], b"12345");
    assert_eq!(fs.write(fd2, b"z"), Err(FsError::PermissionDenied));
    let fd3 = fs.open("/x", OpenFlags::from_bits(0b1111).unwrap()).unwrap();
    assert_eq!(fs.read(fd3, &mut buf), Ok(0));
    assert_eq!(fs.close(fd), Ok(()));
    assert_eq!(fs.close(fd), Err(FsError::FileNotFound));
    assert_eq!(fs.read(300, &mut buf), Err(FsError::FileNotFound));
    assert_eq!(fs.open("/y", rw_create()), Ok(3));
}

#[test]
fn directory_fills_up() {
    let mut fs = Filesystem::init().unwrap();
    for i in 0..15 {
        let name = format!("f{}", i);
        fs.create_file(ROOT_INODE, &name).unwrap();
    }
    assert_eq!(fs.create_file(ROOT_INODE, "extra"), Err(FsError::DirectoryFull));
}

#[test]
fn snapshot_allocates_inodes() {
    let mut fs = Filesystem::init().unwrap();
    let s = fs.create_snapshot().unwrap();
    assert_eq!(s, 2);
    let inum = fs.create_file(ROOT_INODE, "a").unwrap();
    assert_eq!(inum, 3);
}

#[test]
fn inodes_run_out() {
    let mut fs = Filesystem::init().unwrap();
    let mut last = 0;
    for _ in 0..254 {
        last = fs.create_snapshot().unwrap();
    }
    assert_eq!(last, 255);
    assert_eq!(fs.create_snapshot(), Err(FsError::NoFreeInodes));
    assert_eq!(fs.create_file(ROOT_INODE, "late"), Err(FsError::NoFreeInodes));
}

#[test]
fn read_across_blocks_through_descriptor() {
    let mut fs = Filesystem::init().unwrap();
    let fd = fs.open("/two", OpenFlags::from_bits(0b0111).unwrap()).unwrap();
    let first = vec![1u8; BLOCK_SIZE];
    assert_eq!(fs.write(fd, &first), Ok(BLOCK_SIZE));
    assert_eq!(fs.write(fd, &[2u8, 3u8]), Ok(2));
    let rd = fs.open("/two", OpenFlags::from_bits(1).unwrap()).unwrap();
    let mut buf = vec![0u8; BLOCK_SIZE + 10];
    assert_eq!(fs.read(rd, &mut buf), Ok(BLOCK_SIZE + 2));
    assert_eq!(buf[BLOCK_SIZE - 1], 1);
    assert_eq!(buf[BLOCK_SIZE], 2);
    assert_eq!(buf[BLOCK_SIZE + 1], 3);
    assert_eq!(buf[BLOCK_SIZE + 2], 0);
}

#[test]
fn five_thousand_bytes_round_trip() {
    let mut fs = Filesystem::init().unwrap();
    let fd = fs.open("/f", OpenFlags::from_bits(0b0111).unwrap()).unwrap();
    let data: Vec<u8> = (0..5000u32).map(|i| (i % 251) as u8).collect();
    assert_eq!(fs.write(fd, &data), Ok(5000));
    let rd = fs.open("/f", OpenFlags::from_bits(1).unwrap()).unwrap();
    let mut buf = vec![0u8; 5000];
    assert_eq!(fs.read(rd, &mut buf), Ok(5000));
    assert_eq!(buf, data);
}

#[test]
fn truncate_keeps_blocks_shared_with_a_snapshot_usable() {
    let mut fs = Filesystem::init().unwrap();
    let fd = fs.open("/g", OpenFlags::from_bits(0b0111).unwrap()).unwrap();
    assert_eq!(fs.write(fd, b"abc"), Ok(3));
    let fd2 = fs.open("/g", OpenFlags::from_bits(0b1111).unwrap()).unwrap();
    let mut buf = [0u8; 4];
    assert_eq!(fs.read(fd2, &mut buf), Ok(0));
    assert_eq!(fs.write(fd2, b"xy"), Ok(2));
    let rd = fs.open("/g", OpenFlags::from_bits(1).unwrap()).unwrap();
    assert_eq!(fs.read(rd, &mut buf), Ok(2));
    assert_eq!(&buf[..2], b"xy");
}
