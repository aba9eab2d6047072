//! In-memory block filesystem: inodes with direct blocks, a flat root
//! directory, open-file descriptors and metadata snapshots.
use vstd::prelude::*;
use vstd::string::StringSliceAdditionalSpecFns;
use crate::bitmap::{
    count_set, lemma_count_all_clear, lemma_count_clear_exists, lemma_count_le, lemma_count_positive,
    lemma_count_update, Bitmap,
};

verus! {

/// Size of a block, in bytes.
pub const BLOCK_SIZE: usize = 4096;

/// Longest stored file name, in bytes.
pub const MAX_FILENAME_LEN: usize = 255;

/// Longest path, in bytes.
pub const MAX_PATH_LEN: usize = 4096;

/// Direct block pointers per inode.
pub const DIRECT_BLOCKS: usize = 12;

/// Number of inodes.
pub const TOTAL_INODES: u32 = 256;

/// Number of blocks of the in-memory device.
pub const MEMORY_DEVICE_BLOCKS: u32 = 1024;

/// Words of each allocation bitmap.
pub const BITMAP_WORDS: usize = 512;

/// Size of the open-file table.
pub const MAX_OPEN_FILES: usize = 256;

/// Lowest descriptor handed out for files (0, 1 and 2 are the console).
pub const FIRST_FILE_DESCRIPTOR: usize = 3;

/// Directory entries that fit in a directory's single block.
pub const DIR_ENTRIES_PER_BLOCK: usize = 15;

/// Identifies a formatted filesystem.
pub const FS_MAGIC: u32 = 0xDEAD_BEEF;

/// Inode of the root directory.
pub const ROOT_INODE: InodeNum = 1;

/// Inode number type.
pub type InodeNum = u32;

/// Block number type.
pub type BlockNum = u32;

/// File descriptor type.
pub type FileDescriptor = u32;

/// Access requested when opening a file.
#[derive(Debug, Clone, Copy, PartialEq, Eq, Structural)]
pub struct OpenFlags {
    pub read: bool,
    pub write: bool,
    pub create: bool,
    pub truncate: bool,
}

impl OpenFlags {
    /// Decodes the bit mask: bit 0 read, bit 1 write, bit 2 create, bit 3
    /// truncate; other bits are ignored.
    pub fn from_bits(bits: u32) -> (r: Option<OpenFlags>)
        ensures
            r == Some(OpenFlags {
                read: bits & 1 != 0,
                write: bits & 2 != 0,
                create: bits & 4 != 0,
                truncate: bits & 8 != 0,
            }),
    {
        Some(OpenFlags {
            read: bits & 0x1 != 0,
            write: bits & 0x2 != 0,
            create: bits & 0x4 != 0,
            truncate: bits & 0x8 != 0,
        })
    }
}

/// Kind of file an inode describes.
#[derive(Debug, Clone, Copy, PartialEq, Eq, Structural)]
pub enum FileType {
    Regular,
    Directory,
}

/// Access rights of a file.
#[derive(Debug, Clone, Copy, PartialEq, Eq, Structural)]
pub struct Permissions {
    pub read: bool,
    pub write: bool,
    pub execute: bool,
}

/// File metadata and block pointers.
#[derive(Debug, Clone, Copy)]
pub struct Inode {
    pub inum: InodeNum,
    pub file_type: FileType,
    pub size: usize,
    pub permissions: Permissions,
    pub uid: u32,
    pub gid: u32,
    pub atime: u64,
    pub mtime: u64,
    pub ctime: u64,
    /// Direct blocks; 0 marks a hole.
    pub blocks: [BlockNum; 12],
    pub indirect_block: BlockNum,
    pub double_indirect_block: BlockNum,
    pub triple_indirect_block: BlockNum,
}

/// A name in a directory.
#[derive(Debug, Clone)]
pub struct DirEntry {
    pub name: Vec<u8>,
    pub name_len: u8,
    pub inum: InodeNum,
}

/// Filesystem-wide counters and roots.
#[derive(Debug, Clone, Copy)]
pub struct Superblock {
    pub magic: u32,
    pub block_size: u32,
    pub total_blocks: u32,
    pub free_blocks: u32,
    pub total_inodes: u32,
    pub free_inodes: u32,
    pub root_inode: InodeNum,
    pub snapshot_root: InodeNum,
}

/// Filesystem errors.
#[derive(Debug, Clone, Copy, PartialEq, Eq, Structural)]
pub enum FsError {
    NoFreeInodes,
    NoFreeBlocks,
    NotRegularFile,
    FileTooLarge,
    DirectoryFull,
    FileNotFound,
    PermissionDenied,
}

/// An entry of the open-file table.
#[derive(Debug, Clone, Copy)]
pub struct OpenFile {
    pub inum: InodeNum,
    pub position: usize,
    pub flags: OpenFlags,
}

/// Storage that reads and writes whole blocks.
pub trait BlockDevice {
    /// Copies block `block_num` into `buffer`, which must be one block long.
    fn read_block(&self, block_num: BlockNum, buffer: &mut [u8]) -> Result<(), &'static str>;

    /// Copies `buffer`, which must be one block long, into block `block_num`.
    fn write_block(&mut self, block_num: BlockNum, buffer: &[u8]) -> Result<(), &'static str>;

    /// Number of blocks.
    fn total_blocks(&self) -> BlockNum;

    /// Size of a block, in bytes.
    fn block_size(&self) -> usize;
}

/// Block storage held in memory, zero-filled at creation.
pub struct MemoryBlockDevice {
    total_blocks: BlockNum,
    data: Vec<u8>,
}

impl MemoryBlockDevice {
    pub closed spec fn wf(&self) -> bool {
        self.data@.len() == self.total_blocks * BLOCK_SIZE
    }

    pub closed spec fn blocks_spec(&self) -> nat {
        self.total_blocks as nat
    }

    /// The bytes of the device, block after block.
    pub closed spec fn bytes(&self) -> Seq<u8> {
        self.data@
    }

    pub fn new(total_blocks: BlockNum) -> (r: MemoryBlockDevice)
        requires
            total_blocks <= MEMORY_DEVICE_BLOCKS,
        ensures
            r.wf(),
            r.blocks_spec() == total_blocks,
            r.bytes() == Seq::new((total_blocks * BLOCK_SIZE) as nat, |i: int| 0u8),
    {
        let n: usize = total_blocks as usize * BLOCK_SIZE;
        let r = MemoryBlockDevice { total_blocks, data: vec![0u8; n] };
        assert(r.data@ =~= Seq::new((total_blocks * BLOCK_SIZE) as nat, |i: int| 0u8));
        r
    }
}

impl BlockDevice for MemoryBlockDevice {
    fn read_block(&self, block_num: BlockNum, buffer: &mut [u8]) -> Result<(), &'static str> {
        if block_num >= self.total_blocks || buffer.len() != BLOCK_SIZE || block_num as usize >= self.data.len() / BLOCK_SIZE {
            return Err("Invalid block number or buffer size");
        }
        let base: usize = block_num as usize * BLOCK_SIZE;
        assert(base + BLOCK_SIZE <= self.data@.len()) by (nonlinear_arith)
            requires
                (block_num as int) < self.data@.len() / 4096,
                base == block_num * 4096,
        ;
        let len = self.data.len();
        let mut i: usize = 0;
        while i < BLOCK_SIZE
            invariant
                len == self.data@.len(),
                i <= BLOCK_SIZE,
                buffer@.len() == BLOCK_SIZE,
                base + BLOCK_SIZE <= self.data@.len(),
            decreases BLOCK_SIZE - i,
        {
            buffer[i] = self.data[base + i];
            i = i + 1;
        }
        Ok(())
    }

    fn write_block(&mut self, block_num: BlockNum, buffer: &[u8]) -> Result<(), &'static str> {
        if block_num >= self.total_blocks || buffer.len() != BLOCK_SIZE || block_num as usize >= self.data.len() / BLOCK_SIZE {
            return Err("Invalid block number or buffer size");
        }
        let base: usize = block_num as usize * BLOCK_SIZE;
        assert(base + BLOCK_SIZE <= self.data@.len()) by (nonlinear_arith)
            requires
                (block_num as int) < self.data@.len() / 4096,
                base == block_num * 4096,
        ;
        let len = self.data.len();
        let mut i: usize = 0;
        while i < BLOCK_SIZE
            invariant
                len == self.data@.len(),
                i <= BLOCK_SIZE,
                buffer@.len() == BLOCK_SIZE,
                base + BLOCK_SIZE <= self.data@.len(),
            decreases BLOCK_SIZE - i,
        {
            self.data.set(base + i, buffer[i]);
            i = i + 1;
        }
        Ok(())
    }

    fn total_blocks(&self) -> BlockNum {
        self.total_blocks
    }

    fn block_size(&self) -> usize {
        BLOCK_SIZE
    }
}

/// `r` is a fresh, empty inode of the given kind and rights.
pub open spec fn is_blank_inode(r: Inode, inum: InodeNum, file_type: FileType, permissions: Permissions) -> bool {
    &&& r.inum == inum
    &&& r.file_type == file_type
    &&& r.size == 0
    &&& r.permissions == permissions
    &&& r.uid == 0 && r.gid == 0
    &&& r.atime == 0 && r.mtime == 0 && r.ctime == 0
    &&& (forall|k: int| 0 <= k < 12 ==> #[trigger] r.blocks@[k] == 0)
    &&& r.indirect_block == 0 && r.double_indirect_block == 0 && r.triple_indirect_block == 0
}

fn new_inode(inum: InodeNum, file_type: FileType, permissions: Permissions) -> (r: Inode)
    ensures
        is_blank_inode(r, inum, file_type, permissions),
{
    let r = Inode {
        inum,
        file_type,
        size: 0,
        permissions,
        uid: 0,
        gid: 0,
        atime: 0,
        mtime: 0,
        ctime: 0,
        blocks: [0u32; 12],
        indirect_block: 0,
        double_indirect_block: 0,
        triple_indirect_block: 0,
    };
    r
}

/// Index of the first entry named `name` (with a nonzero inode) at or after `j`.
pub open spec fn find_entry(entries: Seq<DirEntry>, name: Seq<u8>, j: int) -> Option<int>
    decreases entries.len() - j,
{
    if j < 0 || j >= entries.len() {
        None
    } else if entries[j].inum != 0 && entries[j].name@ == name {
        Some(j)
    } else {
        find_entry(entries, name, j + 1)
    }
}

proof fn lemma_find_entry_valid(entries: Seq<DirEntry>, name: Seq<u8>, j: int)
    ensures
        find_entry(entries, name, j) matches Some(k) ==> j <= k < entries.len()
            && entries[k].inum != 0 && entries[k].name@ == name,
    decreases entries.len() - j,
{
    if j >= 0 && j < entries.len() {
        lemma_find_entry_valid(entries, name, j + 1);
    }
}

/// The name under which a directory stores `name`: its first
/// `MAX_FILENAME_LEN` bytes.
pub open spec fn stored_name(name: Seq<u8>) -> Seq<u8> {
    if name.len() <= MAX_FILENAME_LEN {
        name
    } else {
        name.take(MAX_FILENAME_LEN as int)
    }
}

/// Filesystem state: the device, allocation bitmaps, inode table,
/// directory blocks and open-file table.
pub struct Filesystem {
    device: MemoryBlockDevice,
    superblock: Superblock,
    inode_bitmap: Bitmap,
    block_bitmap: Bitmap,
    inodes: Vec<Inode>,
    dir_blocks: Vec<Vec<DirEntry>>,
    current_snapshot: InodeNum,
    open_files: Vec<Option<OpenFile>>,
}

impl Filesystem {
    pub closed spec fn wf(&self) -> bool {
        &&& self.device.wf()
        &&& self.device.total_blocks == MEMORY_DEVICE_BLOCKS
        &&& self.superblock.total_blocks == MEMORY_DEVICE_BLOCKS
        &&& self.superblock.total_inodes == TOTAL_INODES
        &&& self.superblock.root_inode == ROOT_INODE
        &&& self.inodes@.len() == TOTAL_INODES
        &&& self.inode_bitmap@.len() == BITMAP_WORDS * 64
        &&& self.block_bitmap@.len() == BITMAP_WORDS * 64
        &&& self.block_bitmap@[0]
        &&& forall|i: int, k: int|
            0 <= i < TOTAL_INODES && 0 <= k < 12 ==> (#[trigger] self.inodes@[i].blocks@[k])
                < MEMORY_DEVICE_BLOCKS
        &&& self.dir_blocks@.len() == MEMORY_DEVICE_BLOCKS
        &&& forall|b: int|
            0 <= b < MEMORY_DEVICE_BLOCKS ==> (#[trigger] self.dir_blocks@[b]@).len()
                <= DIR_ENTRIES_PER_BLOCK
        &&& self.open_files@.len() == MAX_OPEN_FILES
        &&& forall|fd: int|
            0 <= fd < MAX_OPEN_FILES ==> (#[trigger] self.open_files@[fd] matches Some(of)
                ==> of.inum < TOTAL_INODES)
        &&& self.current_snapshot < TOTAL_INODES
        &&& self.inode_bitmap@[ROOT_INODE as int]
        &&& self.inodes@[ROOT_INODE as int].file_type == FileType::Directory
        &&& !self.inode_bitmap@[0]
        &&& self.superblock.free_inodes + count_set(self.inode_bitmap@, TOTAL_INODES as int) == TOTAL_INODES
        &&& self.superblock.free_blocks + count_set(self.block_bitmap@, MEMORY_DEVICE_BLOCKS as int) == MEMORY_DEVICE_BLOCKS
        &&& forall|i: int, k: int|
            0 <= i < TOTAL_INODES && 0 <= k < 12 && #[trigger] self.inodes@[i].blocks@[k] != 0
                ==> self.block_bitmap@[self.inodes@[i].blocks@[k] as int]
        &&& forall|i: int, k1: int, k2: int|
            0 <= i < TOTAL_INODES && 0 <= k1 < 12 && 0 <= k2 < 12 && k1 != k2
                && #[trigger] self.inodes@[i].blocks@[k1] != 0
                ==> self.inodes@[i].blocks@[k1] != #[trigger] self.inodes@[i].blocks@[k2]
        &&& forall|b: int, j: int|
            0 <= b < MEMORY_DEVICE_BLOCKS && 0 <= j < self.dir_blocks@[b]@.len()
                ==> (#[trigger] self.dir_blocks@[b]@[j]).inum < TOTAL_INODES
    }

    /// Inode `inum` is allocated.
    pub closed spec fn inode_in_use(&self, inum: int) -> bool {
        self.inode_bitmap@[inum]
    }

    /// The inode numbered `inum`.
    pub closed spec fn inode(&self, inum: int) -> Inode {
        self.inodes@[inum]
    }

    /// Byte `pos` of the file `inum`; holes and positions past the direct
    /// blocks read as 0.
    pub closed spec fn byte_at(&self, inum: int, pos: int) -> u8 {
        let bi = pos / (BLOCK_SIZE as int);
        if pos < 0 || bi >= DIRECT_BLOCKS {
            0
        } else {
            let b = self.inodes@[inum].blocks@[bi] as int;
            if b == 0 {
                0
            } else {
                self.device.data@[b * (BLOCK_SIZE as int) + pos % (BLOCK_SIZE as int)]
            }
        }
    }

    /// The entry of descriptor `fd`.
    pub closed spec fn open_file(&self, fd: int) -> Option<OpenFile> {
        if 0 <= fd < self.open_files@.len() {
            self.open_files@[fd]
        } else {
            None
        }
    }

    /// The entries of the directory `inum` (those of its first block).
    pub closed spec fn dir_entries(&self, inum: int) -> Seq<DirEntry> {
        let b = self.inodes@[inum].blocks@[0] as int;
        if b == 0 {
            Seq::empty()
        } else {
            self.dir_blocks@[b]@
        }
    }

    /// The inode that the root directory lists under `name`.
    pub open spec fn root_lookup(&self, name: Seq<u8>) -> Option<InodeNum> {
        match find_entry(self.dir_entries(ROOT_INODE as int), name, 0) {
            Some(k) => Some(self.dir_entries(ROOT_INODE as int)[k].inum),
            None => None,
        }
    }

    pub closed spec fn free_inode_exists(&self) -> bool {
        exists|i: int| 1 <= i < TOTAL_INODES && !#[trigger] self.inode_bitmap@[i]
    }

    pub closed spec fn free_block_exists(&self) -> bool {
        exists|i: int| 0 <= i < MEMORY_DEVICE_BLOCKS && !#[trigger] self.block_bitmap@[i]
    }

    pub closed spec fn free_fd_exists(&self) -> bool {
        exists|i: int| FIRST_FILE_DESCRIPTOR <= i < MAX_OPEN_FILES && #[trigger] self.open_files@[i] is None
    }

    /// An empty filesystem on a fresh in-memory device: the root directory
    /// is inode 1 and block 0 holds the superblock.
    pub fn init() -> (r: Option<Filesystem>)
        ensures
            r matches Some(fs) && fs.wf()
                && fs.inode(ROOT_INODE as int).file_type == FileType::Directory
                && fs.dir_entries(ROOT_INODE as int).len() == 0
                && (forall|fd: int| #[trigger] fs.open_file(fd) is None),
    {
        let device = MemoryBlockDevice::new(MEMORY_DEVICE_BLOCKS);
        let mut inode_bitmap = Bitmap::new(BITMAP_WORDS);
        let mut block_bitmap = Bitmap::new(BITMAP_WORDS);
        let empty = new_inode(0, FileType::Regular, Permissions { read: false, write: false, execute: false });
        let mut inodes: Vec<Inode> = Vec::new();
        let mut i: u32 = 0;
        while i < TOTAL_INODES
            invariant
                0 <= i <= TOTAL_INODES,
                inodes@.len() == i,
                forall|k: int| 0 <= k < 12 ==> #[trigger] empty.blocks@[k] == 0,
                forall|j: int, k: int| 0 <= j < i && 0 <= k < 12 ==> (#[trigger] inodes@[j].blocks@[k]) == 0,
            decreases TOTAL_INODES - i,
        {
            let ghost before = inodes@;
            inodes.push(empty);
            assert forall|j: int, k: int| 0 <= j < i + 1 && 0 <= k < 12 implies (#[trigger] inodes@[j].blocks@[k]) == 0 by {
                if j < i {
                    assert(inodes@[j] == before[j]);
                } else {
                    assert(inodes@[j] == empty);
                }
            }
            i = i + 1;
        }
        let root = new_inode(ROOT_INODE, FileType::Directory, Permissions { read: true, write: true, execute: true });
        inodes.set(ROOT_INODE as usize, root);
        proof {
            lemma_count_all_clear(inode_bitmap@, TOTAL_INODES as int);
            lemma_count_update(inode_bitmap@, ROOT_INODE as int, true, TOTAL_INODES as int);
            lemma_count_all_clear(block_bitmap@, MEMORY_DEVICE_BLOCKS as int);
            lemma_count_update(block_bitmap@, 0, true, MEMORY_DEVICE_BLOCKS as int);
        }
        inode_bitmap.set(ROOT_INODE as usize);
        block_bitmap.set(0);
        let mut dir_blocks: Vec<Vec<DirEntry>> = Vec::new();
        let mut b: u32 = 0;
        while b < MEMORY_DEVICE_BLOCKS
            invariant
                0 <= b <= MEMORY_DEVICE_BLOCKS,
                dir_blocks@.len() == b,
                forall|j: int| 0 <= j < b ==> (#[trigger] dir_blocks@[j]@).len() == 0,
            decreases MEMORY_DEVICE_BLOCKS - b,
        {
            dir_blocks.push(Vec::new());
            b = b + 1;
        }
        let superblock = Superblock {
            magic: FS_MAGIC,
            block_size: BLOCK_SIZE as u32,
            total_blocks: MEMORY_DEVICE_BLOCKS,
            free_blocks: MEMORY_DEVICE_BLOCKS - 1,
            total_inodes: TOTAL_INODES,
            free_inodes: TOTAL_INODES - 1,
            root_inode: ROOT_INODE,
            snapshot_root: ROOT_INODE,
        };
        let fs = Filesystem {
            device,
            superblock,
            inode_bitmap,
            block_bitmap,
            inodes,
            dir_blocks,
            current_snapshot: ROOT_INODE,
            open_files: vec![None; MAX_OPEN_FILES],
        };
        assert forall|fd: int| #[trigger] fs.open_file(fd) is None by {
            if 0 <= fd < MAX_OPEN_FILES {
                assert(fs.open_files@[fd] is None);
            }
        }
        Some(fs)
    }

    /// Takes the lowest free inode number from 1 on.
    fn allocate_inode(&mut self) -> (r: Result<InodeNum, FsError>)
        requires
            old(self).wf(),
        ensures
            final(self).wf(),
            final(self).inodes == old(self).inodes,
            final(self).dir_blocks == old(self).dir_blocks,
            final(self).open_files == old(self).open_files,
            final(self).device == old(self).device,
            final(self).block_bitmap == old(self).block_bitmap,
            final(self).current_snapshot == old(self).current_snapshot,
            old(self).free_inode_exists() <==> r is Ok,
            r is Err ==> r == Err::<InodeNum, FsError>(FsError::NoFreeInodes) && *final(self) == *old(self),
            r matches Ok(i) ==> final(self).superblock.free_inodes == old(self).superblock.free_inodes - 1
                && 1 <= i < TOTAL_INODES && !old(self).inode_bitmap@[i as int]
                && final(self).inode_bitmap@ == old(self).inode_bitmap@.update(i as int, true),
    {
        let mut i: u32 = 1;
        while i < self.superblock.total_inodes
            invariant
                self.wf(),
                self == old(self),
                1 <= i <= TOTAL_INODES,
                forall|j: int| 1 <= j < i ==> #[trigger] self.inode_bitmap@[j],
            decreases TOTAL_INODES - i,
        {
            if !self.inode_bitmap.test(i as usize) {
                self.inode_bitmap.set(i as usize);
                proof {
                    let bits = old(self).inode_bitmap@;
                    assert(bits.len() == BITMAP_WORDS * 64);
                    assert(!bits[i as int]);
                    lemma_count_update(bits, i as int, true, TOTAL_INODES as int);
                    lemma_count_le(bits.update(i as int, true), TOTAL_INODES as int);
                    assert(count_set(bits.update(i as int, true), TOTAL_INODES as int) == count_set(bits, TOTAL_INODES as int) + 1);
                    assert(old(self).superblock.free_inodes + count_set(bits, TOTAL_INODES as int) == TOTAL_INODES);
                }
                self.superblock.free_inodes = self.superblock.free_inodes - 1;
                return Ok(i);
            }
            i = i + 1;
        }
        Err(FsError::NoFreeInodes)
    }

    /// Takes the lowest free block.
    fn allocate_block(&mut self) -> (r: Result<BlockNum, FsError>)
        requires
            old(self).wf(),
        ensures
            final(self).wf(),
            final(self).inodes == old(self).inodes,
            final(self).dir_blocks == old(self).dir_blocks,
            final(self).open_files == old(self).open_files,
            final(self).device == old(self).device,
            final(self).inode_bitmap == old(self).inode_bitmap,
            final(self).current_snapshot == old(self).current_snapshot,
            old(self).free_block_exists() <==> r is Ok,
            r is Err ==> r == Err::<BlockNum, FsError>(FsError::NoFreeBlocks) && *final(self) == *old(self),
            r matches Ok(b) ==> 1 <= b < MEMORY_DEVICE_BLOCKS && !old(self).block_bitmap@[b as int]
                && final(self).block_bitmap@ == old(self).block_bitmap@.update(b as int, true),
    {
        let mut i: u32 = 0;
        while i < self.superblock.total_blocks
            invariant
                self.wf(),
                self == old(self),
                0 <= i <= MEMORY_DEVICE_BLOCKS,
                forall|j: int| 0 <= j < i ==> #[trigger] self.block_bitmap@[j],
            decreases MEMORY_DEVICE_BLOCKS - i,
        {
            if !self.block_bitmap.test(i as usize) {
                self.block_bitmap.set(i as usize);
                proof {
                    let bits = old(self).block_bitmap@;
                    assert(!bits[i as int]);
                    lemma_count_update(bits, i as int, true, MEMORY_DEVICE_BLOCKS as int);
                    lemma_count_le(bits.update(i as int, true), MEMORY_DEVICE_BLOCKS as int);
                    assert(old(self).superblock.free_blocks + count_set(bits, MEMORY_DEVICE_BLOCKS as int) == MEMORY_DEVICE_BLOCKS);
                }
                self.superblock.free_blocks = self.superblock.free_blocks - 1;
                return Ok(i);
            }
            i = i + 1;
        }
        Err(FsError::NoFreeBlocks)
    }

    /// Number of free inodes, as the superblock counts them.
    pub closed spec fn free_inode_count(&self) -> nat {
        self.superblock.free_inodes as nat
    }

    /// Number of free blocks.
    pub closed spec fn free_block_count(&self) -> nat {
        (MEMORY_DEVICE_BLOCKS - count_set(self.block_bitmap@, MEMORY_DEVICE_BLOCKS as int)) as nat
    }

    /// Number of free blocks, as the superblock counts them.
    fn count_free_blocks(&self) -> (r: u32)
        requires
            self.wf(),
        ensures
            r == self.free_block_count(),
    {
        self.superblock.free_blocks
    }

    /// Number of holes among the direct blocks `lo..hi` of inode `idx`.
    fn count_holes(&self, idx: usize, lo: usize, hi: usize) -> (r: usize)
        requires
            self.wf(),
            idx < TOTAL_INODES,
            lo <= hi <= DIRECT_BLOCKS,
        ensures
            r == holes(self.inodes@[idx as int], lo as int, hi as int),
    {
        let mut cnt: usize = 0;
        let mut j: usize = hi;
        while j > lo
            invariant
                self.wf(),
                idx < TOTAL_INODES,
                lo <= j <= hi <= DIRECT_BLOCKS,
                cnt == holes(self.inodes@[idx as int], j as int, hi as int),
                cnt <= hi - j,
            decreases j - lo,
        {
            j = j - 1;
            if self.inodes[idx].blocks[j] == 0 {
                cnt = cnt + 1;
            }
        }
        cnt
    }

    /// Some inode points at block `b`.
    pub closed spec fn block_referenced(&self, b: int) -> bool {
        exists|i: int, k: int| 0 <= i < TOTAL_INODES && 0 <= k < 12 && #[trigger] self.inodes@[i].blocks@[k] == b
    }

    /// Whether some inode points at block `b`; a snapshot shares the blocks
    /// of the directory it copies, so a block may have several owners.
    fn is_block_referenced(&self, b: BlockNum) -> (r: bool)
        requires
            self.wf(),
        ensures
            r == self.block_referenced(b as int),
    {
        let mut i: usize = 0;
        while i < TOTAL_INODES as usize
            invariant
                self.wf(),
                0 <= i <= TOTAL_INODES,
                forall|p: int, k: int| 0 <= p < i && 0 <= k < 12 ==> #[trigger] self.inodes@[p].blocks@[k] != b,
            decreases TOTAL_INODES - i,
        {
            let mut k: usize = 0;
            while k < DIRECT_BLOCKS
                invariant
                    self.wf(),
                    0 <= i < TOTAL_INODES,
                    0 <= k <= 12,
                    forall|p: int, q: int| 0 <= p < i && 0 <= q < 12 ==> #[trigger] self.inodes@[p].blocks@[q] != b,
                    forall|q: int| 0 <= q < k ==> #[trigger] self.inodes@[i as int].blocks@[q] != b,
                decreases 12 - k,
            {
                if self.inodes[i].blocks[k] == b {
                    return true;
                }
                k = k + 1;
            }
            i = i + 1;
        }
        false
    }

    /// Returns block `block_num` to the free pool.
    fn free_block(&mut self, block_num: BlockNum) -> (r: Result<(), FsError>)
        requires
            old(self).wf(),
            1 <= block_num < MEMORY_DEVICE_BLOCKS,
            !old(self).block_referenced(block_num as int),
            old(self).block_bitmap@[block_num as int],
        ensures
            final(self).wf(),
            r is Ok,
            final(self).inodes == old(self).inodes,
            final(self).dir_blocks == old(self).dir_blocks,
            final(self).open_files == old(self).open_files,
            final(self).device == old(self).device,
            final(self).current_snapshot == old(self).current_snapshot,
            final(self).inode_bitmap == old(self).inode_bitmap,
            final(self).block_bitmap@ == old(self).block_bitmap@.update(block_num as int, false),
    {
        self.block_bitmap.clear(block_num as usize);
        self.superblock.free_blocks = self.superblock.free_blocks + 1;
        assert forall|i: int, k: int|
            0 <= i < TOTAL_INODES && 0 <= k < 12 && #[trigger] self.inodes@[i].blocks@[k] != 0
                implies self.block_bitmap@[self.inodes@[i].blocks@[k] as int] by {
            assert(old(self).block_bitmap@[self.inodes@[i].blocks@[k] as int]);
            if self.inodes@[i].blocks@[k] == block_num {
                assert(old(self).block_referenced(block_num as int));
            }
        }
        proof {
            let bits = old(self).block_bitmap@;
            assert(self.block_bitmap@ == bits.update(block_num as int, false));
            assert(bits[block_num as int]);
            assert(bits.len() == BITMAP_WORDS * 64);
            lemma_count_update(bits, block_num as int, false, MEMORY_DEVICE_BLOCKS as int);
            lemma_count_positive(bits, block_num as int, MEMORY_DEVICE_BLOCKS as int);
            assert(count_set(bits.update(block_num as int, false), MEMORY_DEVICE_BLOCKS as int)
                == count_set(bits, MEMORY_DEVICE_BLOCKS as int) - 1);
        }
        Ok(())
    }
}

/// Number of holes among the direct blocks `lo..hi` of `ino`.
pub open spec fn holes(ino: Inode, lo: int, hi: int) -> nat
    decreases hi - lo,
{
    if lo >= hi {
        0
    } else {
        (if ino.blocks@[lo] == 0 { 1nat } else { 0nat }) + holes(ino, lo + 1, hi)
    }
}

proof fn lemma_holes_frame(a: Inode, b: Inode, lo: int, hi: int)
    requires
        forall|k: int| lo <= k < hi ==> #[trigger] a.blocks@[k] == b.blocks@[k],
    ensures
        holes(a, lo, hi) == holes(b, lo, hi),
    decreases hi - lo,
{
    if lo < hi {
        lemma_holes_frame(a, b, lo + 1, hi);
    }
}

/// How many bytes of `data` a write at `offset` stores: all of them, or as
/// many as the direct blocks hold from `offset` on.
pub open spec fn write_len(offset: int, data: Seq<u8>) -> int {
    let room = DIRECT_BLOCKS * BLOCK_SIZE - offset;
    if data.len() < room { data.len() as int } else { room }
}

/// What `write_file(inum, offset, data)` does, from state `fs` to state
/// `fs2` with result `r`: a regular file gets the bytes of `data` from
/// `offset` on, in as many blocks as they span (holes among them are
/// allocated first), and grows to cover them.
pub open spec fn write_file_post(fs: Filesystem, fs2: Filesystem, inum: int, offset: int, data: Seq<u8>, r: Result<usize, FsError>) -> bool {
    let ino = fs.inode(inum);
    &&& r == write_file_result(fs, inum, offset, data)
    &&& r is Err ==> fs2 == fs
    &&& r matches Ok(n) ==> {
        &&& fs2.inode(inum).file_type == FileType::Regular
        &&& n == 0 ==> fs2 == fs
        &&& n > 0 ==> fs2.inode(inum).size == if offset + n > ino.size { offset + n } else { ino.size as int }
        &&& (forall|k: int| 0 <= k < n ==> #[trigger] fs2.byte_at(inum, offset + k) == data[k])
        &&& (forall|fd: int| #[trigger] fs2.open_file(fd) == fs.open_file(fd))
    }
}

/// The result of `write_file(inum, offset, data)`: the number of bytes
/// stored, or why nothing was.
pub open spec fn write_file_result(fs: Filesystem, inum: int, offset: int, data: Seq<u8>) -> Result<usize, FsError> {
    let ino = fs.inode(inum);
    let n = write_len(offset, data);
    if ino.file_type != FileType::Regular {
        Err(FsError::NotRegularFile)
    } else if offset >= DIRECT_BLOCKS * BLOCK_SIZE {
        Err(FsError::FileTooLarge)
    } else if n == 0 {
        Ok(0)
    } else if fs.free_block_count() < holes(ino, offset / (BLOCK_SIZE as int), (offset + n - 1) / (BLOCK_SIZE as int) + 1) {
        Err(FsError::NoFreeBlocks)
    } else {
        Ok(n as usize)
    }
}

/// The result of `write(fd, data)`.
pub open spec fn write_result(fs: Filesystem, fd: int, data: Seq<u8>) -> Result<usize, FsError> {
    match fs.open_file(fd) {
        None => Err(FsError::FileNotFound),
        Some(of) => if !of.flags.write {
            Err(FsError::PermissionDenied)
        } else if of.position + data.len() > usize::MAX {
            Err(FsError::FileTooLarge)
        } else {
            write_file_result(fs, of.inum as int, of.position as int, data)
        },
    }
}

/// What `read_file(inum, offset, buffer)` returns for a buffer of `len`
/// bytes: the bytes of the file from `offset` up to its end, the buffer's
/// length and the end of the block holding `offset`, whichever comes first.
pub open spec fn read_file_result(fs: Filesystem, inum: int, offset: int, len: int) -> Result<usize, FsError> {
    let ino = fs.inode(inum);
    let bi = offset / (BLOCK_SIZE as int);
    let fits = (BLOCK_SIZE as int) - offset % (BLOCK_SIZE as int);
    if ino.file_type != FileType::Regular {
        Err(FsError::NotRegularFile)
    } else if offset >= ino.size {
        Ok(0)
    } else {
        let read_len = if len < ino.size - offset { len } else { ino.size - offset };
        if bi >= DIRECT_BLOCKS {
            Err(FsError::FileTooLarge)
        } else if ino.blocks@[bi] == 0 {
            Ok(0)
        } else {
            Ok((if read_len < fits { read_len } else { fits }) as usize)
        }
    }
}

proof fn lemma_same_block(offset: int, k: int)
    requires
        0 <= offset,
        0 <= k,
        offset % 4096 + k < 4096,
    ensures
        (offset + k) / 4096 == offset / 4096,
        (offset + k) % 4096 == offset % 4096 + k,
{
    assert((offset + k) / 4096 == offset / 4096 && (offset + k) % 4096 == offset % 4096 + k) by (nonlinear_arith)
        requires
            0 <= offset,
            0 <= k,
            offset % 4096 + k < 4096,
    ;
}

impl Filesystem {
    /// Writes `data` into the regular file `inum` from `offset` on, as far
    /// as the direct blocks reach, allocating the holes it covers; returns
    /// the number of bytes written. Nothing is written when there are not
    /// enough free blocks for those holes.
    pub fn write_file(&mut self, inum: InodeNum, offset: usize, data: &[u8]) -> (r: Result<usize, FsError>)
        requires
            old(self).wf(),
            inum < TOTAL_INODES,
        ensures
            final(self).wf(),
            write_file_post(*old(self), *final(self), inum as int, offset as int, data@, r),
    {
        let idx = inum as usize;
        let inode = self.inodes[idx];
        if inode.file_type != FileType::Regular {
            return Err(FsError::NotRegularFile);
        }
        if offset >= DIRECT_BLOCKS * BLOCK_SIZE {
            return Err(FsError::FileTooLarge);
        }
        let room = DIRECT_BLOCKS * BLOCK_SIZE - offset;
        let n = if data.len() < room { data.len() } else { room };
        if n == 0 {
            assert forall|fd: int| #[trigger] self.open_file(fd) == old(self).open_file(fd) by {}
            return Ok(0);
        }
        let first = offset / BLOCK_SIZE;
        let last = (offset + n - 1) / BLOCK_SIZE;
        let needed = self.count_holes(idx, first, last + 1);
        if (self.count_free_blocks() as usize) < needed {
            return Err(FsError::NoFreeBlocks);
        }
        let ghost s0 = *self;
        let mut b: usize = first;
        let mut pos: usize = offset;
        let mut written: usize = 0;
        while written < n
            invariant
                self.wf(),
                idx == inum,
                inum < TOTAL_INODES,
                n == write_len(offset as int, data@),
                0 < n <= data@.len(),
                offset + n <= DIRECT_BLOCKS * BLOCK_SIZE,
                first == offset / 4096,
                last == (offset + n - 1) / 4096,
                0 <= written <= n,
                pos == offset + written,
                first <= b,
                written < n ==> b == pos / 4096 && b <= last,
                0 < written < n ==> pos == b * 4096,
                self.inodes@[idx as int].file_type == FileType::Regular,
                self.inodes@[idx as int].size == s0.inodes@[idx as int].size,
                forall|k: int| b <= k < 12 ==> #[trigger] self.inodes@[idx as int].blocks@[k] == s0.inodes@[idx as int].blocks@[k],
                written < n ==> self.free_block_count() >= holes(self.inodes@[idx as int], b as int, last + 1),
                forall|j: int| 0 <= j < written ==> #[trigger] self.byte_at(inum as int, offset + j) == data@[j],
                self.open_files == s0.open_files,
            decreases n - written,
        {
            let cur = self.inodes[idx].blocks[b];
            let ghost before = *self;
            let blk = if cur == 0 {
                proof {
                    assert(holes(self.inodes@[idx as int], b as int, last + 1) >= 1);
                    lemma_count_le(self.block_bitmap@, MEMORY_DEVICE_BLOCKS as int);
                    lemma_count_clear_exists(self.block_bitmap@, MEMORY_DEVICE_BLOCKS as int);
                    let w = choose|w: int| 0 <= w < MEMORY_DEVICE_BLOCKS && !#[trigger] self.block_bitmap@[w];
                    assert(!self.block_bitmap@[w]);
                    lemma_count_update(self.block_bitmap@, w, true, MEMORY_DEVICE_BLOCKS as int);
                }
                let nb = self.allocate_block()?;
                proof {
                    lemma_count_update(before.block_bitmap@, nb as int, true, MEMORY_DEVICE_BLOCKS as int);
                }
                let mut ino = self.inodes[idx];
                ino.blocks[b] = nb;
                assert(ino.blocks@ == before.inodes@[idx as int].blocks@.update(b as int, nb));
                self.inodes.set(idx, ino);
                proof {
                    assert forall|p: int, k: int| 0 <= p < TOTAL_INODES && 0 <= k < 12 && #[trigger] self.inodes@[p].blocks@[k] != 0
                        implies self.block_bitmap@[self.inodes@[p].blocks@[k] as int] by {
                        if p != idx || k != b {
                            assert(self.inodes@[p].blocks@[k] == before.inodes@[p].blocks@[k]);
                        }
                    }
                    assert forall|p: int, k1: int, k2: int| 0 <= p < TOTAL_INODES && 0 <= k1 < 12 && 0 <= k2 < 12 && k1 != k2
                        && #[trigger] self.inodes@[p].blocks@[k1] != 0
                        implies self.inodes@[p].blocks@[k1] != #[trigger] self.inodes@[p].blocks@[k2] by {
                        if p != idx {
                            assert(self.inodes@[p] == before.inodes@[p]);
                        } else if k1 != b && k2 != b {
                        } else if k1 == b {
                            if before.inodes@[p].blocks@[k2] != 0 {
                                assert(before.block_bitmap@[before.inodes@[p].blocks@[k2] as int]);
                            }
                        } else {
                            assert(before.block_bitmap@[before.inodes@[p].blocks@[k1] as int]);
                        }
                    }
                    assert forall|p: int, k: int| 0 <= p < TOTAL_INODES && 0 <= k < 12 implies (#[trigger] self.inodes@[p].blocks@[k]) < MEMORY_DEVICE_BLOCKS by {
                        if p != idx || k != b {
                            assert(self.inodes@[p].blocks@[k] == before.inodes@[p].blocks@[k]);
                        }
                    }
                    lemma_holes_frame(self.inodes@[idx as int], before.inodes@[idx as int], b as int + 1, last + 1);
                    assert forall|j: int| 0 <= j < written implies #[trigger] self.byte_at(inum as int, offset + j) == data@[j] by {
                        assert(before.byte_at(inum as int, offset + j) == data@[j]);
                        assert((offset + j) / 4096 < b) by (nonlinear_arith)
                            requires
                                0 <= j < written,
                                pos == offset + written,
                                pos == b * 4096,
                                offset >= 0,
                        ;
                    }
                }
                nb
            } else {
                proof {
                    lemma_holes_frame(self.inodes@[idx as int], self.inodes@[idx as int], b as int + 1, last + 1);
                }
                cur
            };
            let boff = pos % BLOCK_SIZE;
            let chunk = if n - written < BLOCK_SIZE - boff { n - written } else { BLOCK_SIZE - boff };
            let base: usize = blk as usize * BLOCK_SIZE + boff;
            let ghost mid = *self;
            assert(mid.inodes@[idx as int].blocks@[b as int] == blk);
            let mut k: usize = 0;
            while k < chunk
                invariant
                    self.wf(),
                    0 <= k <= chunk,
                    boff + chunk <= BLOCK_SIZE,
                    written + chunk <= n,
                    n <= data@.len(),
                    1 <= blk < MEMORY_DEVICE_BLOCKS,
                    base == blk * BLOCK_SIZE + boff,
                    self.inodes == mid.inodes,
                    self.open_files == mid.open_files,
                    self.dir_blocks == mid.dir_blocks,
                    self.block_bitmap == mid.block_bitmap,
                    self.inode_bitmap == mid.inode_bitmap,
                    self.superblock == mid.superblock,
                    self.current_snapshot == mid.current_snapshot,
                    self.device.total_blocks == mid.device.total_blocks,
                    self.device.data@.len() == mid.device.data@.len(),
                    forall|q: int| 0 <= q < k ==> #[trigger] self.device.data@[base + q] == data@[written + q],
                    forall|q: int| 0 <= q < self.device.data@.len() && !(base <= q < base + k)
                        ==> #[trigger] self.device.data@[q] == mid.device.data@[q],
                decreases chunk - k,
            {
                self.device.data.set(base + k, data[written + k]);
                k = k + 1;
            }
            proof {
                assert forall|j: int| 0 <= j < written + chunk implies #[trigger] self.byte_at(inum as int, offset + j) == data@[j] by {
                    if j < written {
                        assert(mid.byte_at(inum as int, offset + j) == data@[j]);
                        let kb = (offset + j) / 4096;
                        assert(kb < b) by (nonlinear_arith)
                            requires
                                0 <= j < written,
                                pos == offset + written,
                                pos == b * 4096,
                                offset >= 0,
                                kb == (offset + j) / 4096,
                        ;
                        let ob = mid.inodes@[idx as int].blocks@[kb];
                        if ob != 0 {
                            assert(ob != blk);
                            let q = ob * 4096 + (offset + j) % 4096;
                            assert(!(base <= q < base + chunk));
                        }
                    } else {
                        lemma_same_block(pos as int, j - written);
                        assert(self.device.data@[base + (j - written)] == data@[written + (j - written)]);
                    }
                }
            }
            written = written + chunk;
            pos = pos + chunk;
            b = b + 1;
            proof {
                if written < n {
                    assert(pos == b * 4096) by (nonlinear_arith)
                        requires
                            chunk == 4096 - boff,
                            boff == (pos - chunk) % 4096,
                            b - 1 == (pos - chunk) / 4096,
                    ;
                    assert(b <= last) by (nonlinear_arith)
                        requires
                            pos == b * 4096,
                            pos < offset + n,
                            last == (offset + n - 1) / 4096,
                    ;
                }
            }
        }
        let ghost s1 = *self;
        let end_pos = offset + n;
        if end_pos > self.inodes[idx].size {
            let mut ino = self.inodes[idx];
            ino.size = end_pos;
            self.inodes.set(idx, ino);
            proof {
                assert forall|p: int, k: int| 0 <= p < TOTAL_INODES && 0 <= k < 12 implies #[trigger] self.inodes@[p].blocks@[k] == s1.inodes@[p].blocks@[k] by {
                    if p != idx {
                        assert(self.inodes@[p] == s1.inodes@[p]);
                    }
                }
                assert forall|j: int| 0 <= j < n implies #[trigger] self.byte_at(inum as int, offset + j) == data@[j] by {
                    assert(s1.byte_at(inum as int, offset + j) == data@[j]);
                }
            }
        }
        assert forall|fd: int| #[trigger] self.open_file(fd) == old(self).open_file(fd) by {}
        Ok(n)
    }

    /// Reads from the regular file `inum` at `offset` into `buffer`, within
    /// the block holding `offset`; returns the number of bytes read.
    pub fn read_file(&self, inum: InodeNum, offset: usize, buffer: &mut [u8]) -> (r: Result<usize, FsError>)
        requires
            self.wf(),
            inum < TOTAL_INODES,
        ensures
            r == read_file_result(*self, inum as int, offset as int, old(buffer)@.len() as int),
            final(buffer)@.len() == old(buffer)@.len(),
            r matches Ok(n) ==> (forall|k: int| 0 <= k < n ==> #[trigger] final(buffer)@[k] == self.byte_at(inum as int, offset + k))
                && (forall|k: int| n <= k < old(buffer)@.len() ==> #[trigger] final(buffer)@[k] == old(buffer)@[k]),
            r is Err ==> final(buffer)@ == old(buffer)@,
    {
        let inode = self.inodes[inum as usize];
        if inode.file_type != FileType::Regular {
            return Err(FsError::NotRegularFile);
        }
        if offset >= inode.size {
            return Ok(0);
        }
        let read_len = if buffer.len() < inode.size - offset {
            buffer.len()
        } else {
            inode.size - offset
        };
        let block_index = offset / BLOCK_SIZE;
        let block_offset = offset % BLOCK_SIZE;
        if block_index >= DIRECT_BLOCKS {
            return Err(FsError::FileTooLarge);
        }
        let block_num = inode.blocks[block_index];
        if block_num == 0 {
            return Ok(0);
        }
        let copy_len = if read_len < BLOCK_SIZE - block_offset {
            read_len
        } else {
            BLOCK_SIZE - block_offset
        };
        let base: usize = block_num as usize * BLOCK_SIZE + block_offset;
        let mut k: usize = 0;
        while k < copy_len
            invariant
                self.wf(),
                0 <= k <= copy_len,
                copy_len <= buffer@.len(),
                buffer@.len() == old(buffer)@.len(),
                block_offset + copy_len <= BLOCK_SIZE,
                block_offset == offset % BLOCK_SIZE,
                block_index == offset / BLOCK_SIZE,
                block_index < DIRECT_BLOCKS,
                block_num == self.inodes@[inum as int].blocks@[block_index as int],
                1 <= block_num < MEMORY_DEVICE_BLOCKS,
                base == block_num * BLOCK_SIZE + block_offset,
                forall|j: int| 0 <= j < k ==> #[trigger] buffer@[j] == self.byte_at(inum as int, offset + j),
                forall|j: int| k <= j < buffer@.len() ==> #[trigger] buffer@[j] == old(buffer)@[j],
            decreases copy_len - k,
        {
            proof {
                lemma_same_block(offset as int, k as int);
            }
            buffer[k] = self.device.data[base + k];
            k = k + 1;
        }
        Ok(copy_len)
    }
}

impl Filesystem {
    /// Block `block_index` of file `inum`: `None` for a hole, an error past
    /// the direct blocks.
    fn get_block_num(&self, inum: InodeNum, block_index: usize) -> (r: Result<Option<BlockNum>, FsError>)
        requires
            self.wf(),
            inum < TOTAL_INODES,
        ensures
            block_index >= DIRECT_BLOCKS ==> r == Err::<Option<BlockNum>, FsError>(FsError::FileTooLarge),
            block_index < DIRECT_BLOCKS ==> r == Ok::<Option<BlockNum>, FsError>(
                if self.inode(inum as int).blocks@[block_index as int] == 0 {
                    None
                } else {
                    Some(self.inode(inum as int).blocks@[block_index as int])
                },
            ),
    {
        if block_index < DIRECT_BLOCKS {
            let block_num = self.inodes[inum as usize].blocks[block_index];
            Ok(if block_num != 0 { Some(block_num) } else { None })
        } else {
            Err(FsError::FileTooLarge)
        }
    }

    /// Byte `pos` of file `inum`.
    fn file_byte(&self, inum: InodeNum, pos: usize) -> (r: u8)
        requires
            self.wf(),
            inum < TOTAL_INODES,
            pos < DIRECT_BLOCKS * BLOCK_SIZE,
        ensures
            r == self.byte_at(inum as int, pos as int),
    {
        match self.get_block_num(inum, pos / BLOCK_SIZE) {
            Ok(Some(b)) => self.device.data[b as usize * BLOCK_SIZE + pos % BLOCK_SIZE],
            _ => 0,
        }
    }

    /// Reads from descriptor `fd` at its position into `buffer`, up to the
    /// end of the file; advances the position by the number of bytes read.
    pub fn read(&mut self, fd: FileDescriptor, buffer: &mut [u8]) -> (r: Result<usize, FsError>)
        requires
            old(self).wf(),
        ensures
            final(self).wf(),
            final(buffer)@.len() == old(buffer)@.len(),
            old(self).open_file(fd as int) is None ==> r == Err::<usize, FsError>(FsError::FileNotFound),
            old(self).open_file(fd as int) matches Some(of) ==> {
                let n = read_count(old(self).inode(of.inum as int).size as int, of.position as int, old(buffer)@.len() as int);
                if !of.flags.read {
                    r == Err::<usize, FsError>(FsError::PermissionDenied)
                } else if n > 0 && of.position + n > DIRECT_BLOCKS * BLOCK_SIZE {
                    r == Err::<usize, FsError>(FsError::FileTooLarge)
                } else {
                    &&& r == Ok::<usize, FsError>(n as usize)
                    &&& forall|k: int| 0 <= k < n ==> #[trigger] final(buffer)@[k] == old(self).byte_at(of.inum as int, of.position + k)
                    &&& forall|k: int| n <= k < old(buffer)@.len() ==> #[trigger] final(buffer)@[k] == old(buffer)@[k]
                    &&& final(self).open_file(fd as int) == Some(OpenFile { position: (of.position + n) as usize, ..of })
                }
            },
            r is Err ==> *final(self) == *old(self) && final(buffer)@ == old(buffer)@,
            forall|i: int| 0 <= i < TOTAL_INODES ==> #[trigger] final(self).inode(i) == old(self).inode(i),
            forall|i: int, p: int| #[trigger] final(self).byte_at(i, p) == old(self).byte_at(i, p),
            forall|g: int| g != fd ==> #[trigger] final(self).open_file(g) == old(self).open_file(g),
    {
        if fd as usize >= self.open_files.len() {
            return Err(FsError::FileNotFound);
        }
        let of = match self.open_files[fd as usize] {
            Some(of) => of,
            None => {
                return Err(FsError::FileNotFound);
            },
        };
        if !of.flags.read {
            return Err(FsError::PermissionDenied);
        }
        let size = self.inodes[of.inum as usize].size;
        let avail = if of.position < size { size - of.position } else { 0 };
        let n = if buffer.len() < avail { buffer.len() } else { avail };
        if n == 0 {
            proof {
                assert(self.open_file(fd as int) == Some(OpenFile { position: (of.position + 0) as usize, ..of }));
            }
            return Ok(0);
        }
        if n > DIRECT_BLOCKS * BLOCK_SIZE || of.position > DIRECT_BLOCKS * BLOCK_SIZE - n {
            return Err(FsError::FileTooLarge);
        }
        let mut k: usize = 0;
        while k < n
            invariant
                self.wf(),
                *self == *old(self),
                of.inum < TOTAL_INODES,
                0 <= k <= n,
                n <= buffer@.len(),
                of.position + n <= DIRECT_BLOCKS * BLOCK_SIZE,
                buffer@.len() == old(buffer)@.len(),
                forall|j: int| 0 <= j < k ==> #[trigger] buffer@[j] == self.byte_at(of.inum as int, of.position + j),
                forall|j: int| k <= j < buffer@.len() ==> #[trigger] buffer@[j] == old(buffer)@[j],
            decreases n - k,
        {
            buffer[k] = self.file_byte(of.inum, of.position + k);
            k = k + 1;
        }
        let ghost s0 = *self;
        self.open_files.set(fd as usize, Some(OpenFile { inum: of.inum, position: of.position + n, flags: of.flags }));
        proof {
            assert forall|g: int| g != fd implies #[trigger] self.open_file(g) == s0.open_file(g) by {}
            assert forall|i: int, p: int| #[trigger] self.byte_at(i, p) == s0.byte_at(i, p) by {}
        }
        Ok(n)
    }

    /// Writes `data` to descriptor `fd` at its position (see `write_file`)
    /// and advances the position by the number of bytes written.
    pub fn write(&mut self, fd: FileDescriptor, data: &[u8]) -> (r: Result<usize, FsError>)
        requires
            old(self).wf(),
        ensures
            final(self).wf(),
            r == write_result(*old(self), fd as int, data@),
            old(self).open_file(fd as int) matches Some(of) ==> {
                if !of.flags.write {
                    r == Err::<usize, FsError>(FsError::PermissionDenied)
                } else if of.position + data@.len() > usize::MAX {
                    r == Err::<usize, FsError>(FsError::FileTooLarge)
                } else {
                    let ino = old(self).inode(of.inum as int);
                    &&& r == write_file_result(*old(self), of.inum as int, of.position as int, data@)
                    &&& r matches Ok(n) ==> {
                        &&& n > 0 ==> final(self).inode(of.inum as int).size == if of.position + n > ino.size { of.position + n } else { ino.size as int }
                        &&& (forall|k: int| 0 <= k < n ==> #[trigger] final(self).byte_at(of.inum as int, of.position + k) == data@[k])
                        &&& final(self).open_file(fd as int) == Some(OpenFile { position: (of.position + n) as usize, ..of })
                        &&& (forall|g: int| g != fd ==> #[trigger] final(self).open_file(g) == old(self).open_file(g))
                    }
                }
            },
            r is Err ==> *final(self) == *old(self),
    {
        if fd as usize >= self.open_files.len() {
            return Err(FsError::FileNotFound);
        }
        let of = match self.open_files[fd as usize] {
            Some(of) => of,
            None => {
                return Err(FsError::FileNotFound);
            },
        };
        if !of.flags.write {
            return Err(FsError::PermissionDenied);
        }
        if of.position > usize::MAX - data.len() {
            return Err(FsError::FileTooLarge);
        }
        let written = self.write_file(of.inum, of.position, data)?;
        let ghost s0 = *self;
        proof {
            if written == 0 {
                assert forall|g: int| #[trigger] self.open_file(g) == old(self).open_file(g) by {}
            }
        }
        self.open_files.set(fd as usize, Some(OpenFile { inum: of.inum, position: of.position + written, flags: of.flags }));
        proof {
            assert forall|g: int| g != fd implies #[trigger] self.open_file(g) == s0.open_file(g) by {}
            assert forall|i: int, p: int| #[trigger] self.byte_at(i, p) == s0.byte_at(i, p) by {}
            assert forall|k: int| 0 <= k < written implies #[trigger] self.byte_at(of.inum as int, of.position + k) == data@[k] by {
                assert(s0.byte_at(of.inum as int, of.position + k) == data@[k]);
            }
        }
        Ok(written)
    }

    /// Releases descriptor `fd`.
    pub fn close(&mut self, fd: FileDescriptor) -> (r: Result<(), FsError>)
        requires
            old(self).wf(),
        ensures
            final(self).wf(),
            old(self).open_file(fd as int) is None <==> r == Err::<(), FsError>(FsError::FileNotFound),
            old(self).open_file(fd as int) is Some <==> r is Ok,
            r is Err ==> *final(self) == *old(self),
            r is Ok ==> final(self).open_file(fd as int) is None,
            forall|g: int| g != fd ==> #[trigger] final(self).open_file(g) == old(self).open_file(g),
            forall|i: int| 0 <= i < TOTAL_INODES ==> #[trigger] final(self).inode(i) == old(self).inode(i),
            forall|i: int, p: int| #[trigger] final(self).byte_at(i, p) == old(self).byte_at(i, p),
    {
        if fd as usize >= self.open_files.len() || self.open_files[fd as usize].is_none() {
            return Err(FsError::FileNotFound);
        }
        let ghost s0 = *self;
        self.open_files.set(fd as usize, None);
        proof {
            assert forall|g: int| g != fd implies #[trigger] self.open_file(g) == s0.open_file(g) by {}
            assert forall|i: int, p: int| #[trigger] self.byte_at(i, p) == s0.byte_at(i, p) by {}
        }
        Ok(())
    }

    /// The lowest free descriptor from `FIRST_FILE_DESCRIPTOR` on.
    fn allocate_fd(&self) -> (r: Result<FileDescriptor, FsError>)
        requires
            self.wf(),
        ensures
            self.free_fd_exists() <==> r is Ok,
            r is Err ==> r == Err::<FileDescriptor, FsError>(FsError::FileTooLarge),
            r matches Ok(fd) ==> FIRST_FILE_DESCRIPTOR <= fd < MAX_OPEN_FILES && self.open_file(fd as int) is None,
    {
        let mut i: usize = FIRST_FILE_DESCRIPTOR;
        while i < self.open_files.len()
            invariant
                self.wf(),
                FIRST_FILE_DESCRIPTOR <= i <= MAX_OPEN_FILES,
                forall|j: int| FIRST_FILE_DESCRIPTOR <= j < i ==> #[trigger] self.open_files@[j] is Some,
            decreases MAX_OPEN_FILES - i,
        {
            if self.open_files[i].is_none() {
                return Ok(i as FileDescriptor);
            }
            i = i + 1;
        }
        Err(FsError::FileTooLarge)
    }
}

impl Filesystem {
    /// Empties file `inum` and frees its direct blocks, except those that a
    /// snapshot still shares.
    fn truncate_file(&mut self, inum: InodeNum) -> (r: Result<(), FsError>)
        requires
            old(self).wf(),
            inum < TOTAL_INODES,
        ensures
            final(self).wf(),
            r is Ok,
            final(self).inode(inum as int).size == 0,
            final(self).inode(inum as int).file_type == old(self).inode(inum as int).file_type,
            forall|k: int| 0 <= k < 12 ==> #[trigger] final(self).inode(inum as int).blocks@[k] == 0,
            forall|i: int| 0 <= i < TOTAL_INODES && i != inum ==> #[trigger] final(self).inode(i) == old(self).inode(i),
            forall|g: int| #[trigger] final(self).open_file(g) == old(self).open_file(g),
            final(self).inode_bitmap == old(self).inode_bitmap,
    {
        let idx = inum as usize;
        let mut ino = self.inodes[idx];
        let old_blocks = ino.blocks;
        assert(forall|j: int| 0 <= j < 12 && old_blocks@[j] != 0 ==> old(self).block_bitmap@[#[trigger] old_blocks@[j] as int]);
        ino.size = 0;
        ino.blocks = [0u32; 12];
        self.inodes.set(idx, ino);
        let ghost s0 = *self;
        assert forall|i: int, k: int| 0 <= i < TOTAL_INODES && 0 <= k < 12 implies (#[trigger] self.inodes@[i].blocks@[k]) < MEMORY_DEVICE_BLOCKS by {
            if i != idx {
                assert(self.inodes@[i] == old(self).inodes@[i]);
            }
        }
        assert forall|g: int| #[trigger] self.open_file(g) == old(self).open_file(g) by {}
        let mut k: usize = 0;
        while k < DIRECT_BLOCKS
            invariant
                self.wf(),
                0 <= k <= DIRECT_BLOCKS,
                self.inodes == s0.inodes,
                self.open_files == s0.open_files,
                self.inode_bitmap == s0.inode_bitmap,
                forall|j: int| 0 <= j < 12 ==> (#[trigger] old_blocks@[j]) < MEMORY_DEVICE_BLOCKS,
                forall|j: int| k <= j < 12 && old_blocks@[j] != 0 ==> self.block_bitmap@[#[trigger] old_blocks@[j] as int],
                forall|j1: int, j2: int| 0 <= j1 < 12 && 0 <= j2 < 12 && j1 != j2 && #[trigger] old_blocks@[j1] != 0
                    ==> old_blocks@[j1] != #[trigger] old_blocks@[j2],
            decreases DIRECT_BLOCKS - k,
        {
            if old_blocks[k] != 0 && !self.is_block_referenced(old_blocks[k]) {
                self.free_block(old_blocks[k])?;
            }
            k = k + 1;
        }
        assert forall|g: int| #[trigger] self.open_file(g) == s0.open_file(g) by {}
        Ok(())
    }

    /// Adds the name `name` for inode `inum` to the directory `dir_inum`,
    /// giving the directory its block first if it has none.
    fn add_dir_entry(&mut self, dir_inum: InodeNum, name: &[u8], inum: InodeNum) -> (r: Result<(), FsError>)
        requires
            old(self).wf(),
            dir_inum < TOTAL_INODES,
            inum < TOTAL_INODES,
        ensures
            final(self).wf(),
            old(self).inode(dir_inum as int).blocks@[0] == 0 && !old(self).free_block_exists()
                ==> r == Err::<(), FsError>(FsError::NoFreeBlocks),
            (old(self).inode(dir_inum as int).blocks@[0] != 0 || old(self).free_block_exists())
                ==> (old(self).dir_entries(dir_inum as int).len() < DIR_ENTRIES_PER_BLOCK <==> r is Ok),
            r is Ok ==> {
                let e = old(self).dir_entries(dir_inum as int);
                let e2 = final(self).dir_entries(dir_inum as int);
                &&& e2.len() == e.len() + 1
                &&& forall|j: int| 0 <= j < e.len() ==> #[trigger] e2[j] == e[j]
                &&& e2.last().name@ == stored_name(name@)
                &&& e2.last().inum == inum
            },
            r == Err::<(), FsError>(FsError::NoFreeBlocks) ==> *final(self) == *old(self),
            forall|i: int| 0 <= i < TOTAL_INODES ==> #[trigger] final(self).inode(i).file_type == old(self).inode(i).file_type
                && final(self).inode(i).size == old(self).inode(i).size,
            forall|i: int| 0 <= i < TOTAL_INODES && i != dir_inum ==> #[trigger] final(self).inode(i) == old(self).inode(i),
            forall|g: int| #[trigger] final(self).open_file(g) == old(self).open_file(g),
            final(self).inode_bitmap == old(self).inode_bitmap,
    {
        let idx = dir_inum as usize;
        let first = self.inodes[idx].blocks[0];
        let block_num = if first == 0 {
            let b = self.allocate_block()?;
            let mut ino = self.inodes[idx];
            ino.blocks[0] = b;
            assert(ino.blocks@ == old(self).inodes@[idx as int].blocks@.update(0, b));
            self.inodes.set(idx, ino);
            assert forall|i: int, k: int| 0 <= i < TOTAL_INODES && 0 <= k < 12 implies (#[trigger] self.inodes@[i].blocks@[k]) < MEMORY_DEVICE_BLOCKS by {
                if i != idx {
                    assert(self.inodes@[i] == old(self).inodes@[i]);
                } else if k != 0 {
                    assert(self.inodes@[i].blocks@[k] == old(self).inodes@[i].blocks@[k]);
                }
            }
            let ghost pre = self.dir_blocks@;
            self.dir_blocks.set(b as usize, Vec::new());
            assert forall|c: int, j: int| 0 <= c < MEMORY_DEVICE_BLOCKS && 0 <= j < self.dir_blocks@[c]@.len()
                implies (#[trigger] self.dir_blocks@[c]@[j]).inum < TOTAL_INODES by {
                assert(c != b);
                assert(self.dir_blocks@[c] == pre[c]);
            }
            b
        } else {
            first
        };
        let ghost s1 = *self;
        assert forall|g: int| #[trigger] self.open_file(g) == old(self).open_file(g) by {}
        let b = block_num as usize;
        if self.dir_blocks[b].len() >= DIR_ENTRIES_PER_BLOCK {
            return Err(FsError::DirectoryFull);
        }
        let copy_len = if name.len() < MAX_FILENAME_LEN { name.len() } else { MAX_FILENAME_LEN };
        let mut stored: Vec<u8> = Vec::new();
        let mut i: usize = 0;
        while i < copy_len
            invariant
                0 <= i <= copy_len,
                copy_len <= name@.len(),
                stored@ == name@.take(i as int),
            decreases copy_len - i,
        {
            stored.push(name[i]);
            i = i + 1;
            assert(stored@ =~= name@.take(i as int));
        }
        assert(stored@ =~= stored_name(name@));
        let entry = DirEntry { name: stored, name_len: copy_len as u8, inum };
        let ghost before = self.dir_blocks@[b as int]@;
        self.dir_blocks[b].push(entry);
        assert(self.dir_blocks@[b as int]@ == before.push(entry));
        assert forall|c: int| 0 <= c < MEMORY_DEVICE_BLOCKS implies (#[trigger] self.dir_blocks@[c]@).len() <= DIR_ENTRIES_PER_BLOCK by {
            if c != b {
                assert(self.dir_blocks@[c] == s1.dir_blocks@[c]);
            }
        }
        assert forall|c: int, j: int| 0 <= c < MEMORY_DEVICE_BLOCKS && 0 <= j < self.dir_blocks@[c]@.len()
            implies (#[trigger] self.dir_blocks@[c]@[j]).inum < TOTAL_INODES by {
            if c != b {
                assert(self.dir_blocks@[c] == s1.dir_blocks@[c]);
            } else if j < before.len() {
                assert(self.dir_blocks@[c]@[j] == before[j]);
            }
        }
        assert forall|g: int| #[trigger] self.open_file(g) == old(self).open_file(g) by {}
        Ok(())
    }

    /// The inode named `name` in directory `dir_inum`.
    fn lookup_dir_entry(&self, dir_inum: InodeNum, name: &[u8]) -> (r: Result<Option<InodeNum>, FsError>)
        requires
            self.wf(),
            dir_inum < TOTAL_INODES,
        ensures
            self.inode(dir_inum as int).file_type != FileType::Directory
                ==> r == Err::<Option<InodeNum>, FsError>(FsError::FileNotFound),
            self.inode(dir_inum as int).file_type == FileType::Directory ==> r == Ok::<Option<InodeNum>, FsError>(
                match find_entry(self.dir_entries(dir_inum as int), name@, 0) {
                    Some(k) => Some(self.dir_entries(dir_inum as int)[k].inum),
                    None => None,
                },
            ),
    {
        let ino = self.inodes[dir_inum as usize];
        if ino.file_type != FileType::Directory {
            return Err(FsError::FileNotFound);
        }
        let b = ino.blocks[0];
        if b == 0 {
            return Ok(None);
        }
        let entries = &self.dir_blocks[b as usize];
        let mut j: usize = 0;
        while j < entries.len()
            invariant
                0 <= j <= entries@.len(),
                entries@ == self.dir_entries(dir_inum as int),
                self.inode(dir_inum as int).file_type == FileType::Directory,
                find_entry(entries@, name@, 0) == find_entry(entries@, name@, j as int),
            decreases entries@.len() - j,
        {
            if entries[j].inum != 0 && bytes_equal(&entries[j].name, name) {
                return Ok(Some(entries[j].inum));
            }
            j = j + 1;
        }
        Ok(None)
    }
}

/// Whether `a` and `b` hold the same bytes.
fn bytes_equal(a: &Vec<u8>, b: &[u8]) -> (r: bool)
    ensures
        r == (a@ == b@),
{
    if a.len() != b.len() {
        return false;
    }
    let mut i: usize = 0;
    while i < a.len()
        invariant
            0 <= i <= a@.len(),
            a@.len() == b@.len(),
            forall|j: int| 0 <= j < i ==> a@[j] == b@[j],
        decreases a@.len() - i,
    {
        if a[i] != b[i] {
            return false;
        }
        i = i + 1;
    }
    assert(a@ =~= b@);
    true
}

impl Filesystem {
    /// Creates an empty regular file (readable and writable) named `name` in
    /// directory `parent_inum`; returns its inode number.
    pub fn create_file(&mut self, parent_inum: InodeNum, name: &str) -> (r: Result<InodeNum, FsError>)
        requires
            old(self).wf(),
            parent_inum < TOTAL_INODES,
            old(self).inode_in_use(parent_inum as int),
        ensures
            create_file_post(*old(self), *final(self), parent_inum as int, name.spec_bytes(), r),
    {
        self.create_file_named(parent_inum, name.as_bytes())
    }

    fn create_file_named(&mut self, parent_inum: InodeNum, name: &[u8]) -> (r: Result<InodeNum, FsError>)
        requires
            old(self).wf(),
            parent_inum < TOTAL_INODES,
            old(self).inode_in_use(parent_inum as int),
        ensures
            create_file_post(*old(self), *final(self), parent_inum as int, name@, r),
    {
        let inum = self.allocate_inode()?;
        let ghost s0 = *self;
        let inode = new_inode(inum, FileType::Regular, Permissions { read: true, write: true, execute: false });
        self.inodes.set(inum as usize, inode);
        assert forall|i: int, k: int| 0 <= i < TOTAL_INODES && 0 <= k < 12 implies (#[trigger] self.inodes@[i].blocks@[k]) < MEMORY_DEVICE_BLOCKS by {
            if i != inum {
                assert(self.inodes@[i] == s0.inodes@[i]);
            }
        }
        assert(self.inode(parent_inum as int) == old(self).inode(parent_inum as int));
        assert forall|g: int| #[trigger] self.open_file(g) == old(self).open_file(g) by {}
        assert(self.dir_entries(parent_inum as int) == old(self).dir_entries(parent_inum as int));
        proof {
            assert(self.block_bitmap@ == old(self).block_bitmap@);
            if old(self).free_block_exists() {
                let w = choose|w: int| 0 <= w < MEMORY_DEVICE_BLOCKS && !#[trigger] old(self).block_bitmap@[w];
                assert(!self.block_bitmap@[w]);
            }
            if self.free_block_exists() {
                let w = choose|w: int| 0 <= w < MEMORY_DEVICE_BLOCKS && !#[trigger] self.block_bitmap@[w];
                assert(!old(self).block_bitmap@[w]);
            }
        }
        self.add_dir_entry(parent_inum, name, inum)?;
        Ok(inum)
    }

    /// Opens the file `/name` of the root directory. An existing file is
    /// emptied first when both `create` and `truncate` are set; a missing
    /// file is created when `create` is set. The new descriptor, the lowest
    /// free one, starts at position 0.
    pub fn open(&mut self, path: &str, flags: OpenFlags) -> (r: Result<FileDescriptor, FsError>)
        requires
            old(self).wf(),
        ensures
            final(self).wf(),
            ({
                let p = path.spec_bytes();
                p.len() < 2 || p[0] != 0x2fu8 ==> r == Err::<FileDescriptor, FsError>(FsError::FileNotFound)
                    && *final(self) == *old(self)
            }),
            ({
                let p = path.spec_bytes();
                p.len() >= 2 && p[0] == 0x2fu8 && old(self).root_lookup(p.drop_first()) is None && !flags.create
                    ==> r == Err::<FileDescriptor, FsError>(FsError::FileNotFound) && *final(self) == *old(self)
            }),
            ({
                let p = path.spec_bytes();
                p.len() >= 2 && p[0] == 0x2fu8 && old(self).root_lookup(p.drop_first()) is Some
                    && !(flags.create && flags.truncate)
                    ==> (old(self).free_fd_exists() <==> r is Ok)
            }),
            r matches Ok(fd) ==> {
                let p = path.spec_bytes();
                &&& p.len() >= 2 && p[0] == 0x2fu8
                &&& FIRST_FILE_DESCRIPTOR <= fd < MAX_OPEN_FILES
                &&& old(self).open_file(fd as int) is None
                &&& final(self).open_file(fd as int) matches Some(of) && of.position == 0 && of.flags == flags
                    && (old(self).root_lookup(p.drop_first()) matches Some(i) ==> of.inum == i)
                    && (old(self).root_lookup(p.drop_first()) is None ==> final(self).inode(of.inum as int).file_type
                        == FileType::Regular && final(self).inode(of.inum as int).size == 0)
                &&& (forall|g: int| g != fd ==> #[trigger] final(self).open_file(g) == old(self).open_file(g))
            },
    {
        let bytes = path.as_bytes();
        if bytes.len() < 2 || bytes[0] != 0x2fu8 {
            return Err(FsError::FileNotFound);
        }
        let name = vstd::slice::slice_subrange(bytes, 1, bytes.len());
        assert(name@ =~= path.spec_bytes().drop_first());
        let root = self.superblock.root_inode;
        let found = self.lookup_dir_entry(root, name)?;
        let inum = match found {
            Some(inum) => {
                proof {
                    lemma_find_entry_valid(self.dir_entries(ROOT_INODE as int), name@, 0);
                }
                if flags.create && flags.truncate {
                    self.truncate_file(inum)?;
                }
                inum
            },
            None => {
                if !flags.create {
                    return Err(FsError::FileNotFound);
                }
                self.create_file_named(root, name)?
            },
        };
        let fd = self.allocate_fd()?;
        let ghost s0 = *self;
        self.open_files.set(fd as usize, Some(OpenFile { inum, position: 0, flags }));
        assert forall|g: int| g != fd implies #[trigger] self.open_file(g) == s0.open_file(g) by {}
        Ok(fd)
    }
}

impl Filesystem {
    /// The snapshot most recently taken (the root before any).
    pub closed spec fn current_snapshot(&self) -> InodeNum {
        self.current_snapshot
    }

    /// Takes a snapshot of the root directory: a new directory inode that
    /// shares the root's blocks, and so lists the same entries. Returns its
    /// inode number, which becomes the current snapshot.
    pub fn create_snapshot(&mut self) -> (r: Result<InodeNum, FsError>)
        requires
            old(self).wf(),
        ensures
            final(self).wf(),
            old(self).free_inode_exists() <==> r is Ok,
            r is Err ==> r == Err::<InodeNum, FsError>(FsError::NoFreeInodes) && *final(self) == *old(self),
            r matches Ok(snap) ==> {
                let root = old(self).inode(ROOT_INODE as int);
                let ino = final(self).inode(snap as int);
                &&& 1 <= snap < TOTAL_INODES
                &&& !old(self).inode_in_use(snap as int)
                &&& final(self).inode_in_use(snap as int)
                &&& final(self).current_snapshot() == snap
                &&& ino.inum == snap
                &&& ino.file_type == FileType::Directory
                &&& ino.size == root.size
                &&& ino.permissions == root.permissions
                &&& ino.blocks == root.blocks
                &&& final(self).dir_entries(snap as int) == old(self).dir_entries(ROOT_INODE as int)
                &&& forall|i: int| 0 <= i < TOTAL_INODES && i != snap ==> #[trigger] final(self).inode(i) == old(self).inode(i)
            },
            forall|g: int| #[trigger] final(self).open_file(g) == old(self).open_file(g),
    {
        let snapshot_inum = self.allocate_inode()?;
        let root = self.inodes[self.superblock.root_inode as usize];
        let snapshot_inode = Inode {
            inum: snapshot_inum,
            file_type: FileType::Directory,
            size: root.size,
            permissions: root.permissions,
            uid: 0,
            gid: 0,
            atime: 0,
            mtime: 0,
            ctime: 0,
            blocks: root.blocks,
            indirect_block: root.indirect_block,
            double_indirect_block: root.double_indirect_block,
            triple_indirect_block: root.triple_indirect_block,
        };
        let ghost s0 = *self;
        self.inodes.set(snapshot_inum as usize, snapshot_inode);
        self.current_snapshot = snapshot_inum;
        assert forall|i: int, k: int| 0 <= i < TOTAL_INODES && 0 <= k < 12 implies (#[trigger] self.inodes@[i].blocks@[k]) < MEMORY_DEVICE_BLOCKS by {
            if i != snapshot_inum {
                assert(self.inodes@[i] == s0.inodes@[i]);
            } else {
                assert(self.inodes@[i].blocks == s0.inodes@[ROOT_INODE as int].blocks);
            }
        }
        assert forall|g: int| #[trigger] self.open_file(g) == old(self).open_file(g) by {}
        Ok(snapshot_inum)
    }
}

/// A fresh filesystem on the in-memory device.
pub fn init() -> (r: Option<Filesystem>)
    ensures
        r matches Some(fs) && fs.wf(),
{
    Filesystem::init()
}

/// What `create_file(parent, name)` does, from state `fs` to state `fs2`
/// with result `r`: a fresh regular inode is taken and `name` is appended to
/// the parent directory's entries.
pub open spec fn create_file_post(fs: Filesystem, fs2: Filesystem, parent_inum: int, name: Seq<u8>, r: Result<InodeNum, FsError>) -> bool {
    &&& fs2.wf()
    &&& !fs.free_inode_exists() ==> r == Err::<InodeNum, FsError>(FsError::NoFreeInodes)
    &&& fs.free_inode_exists() && fs.inode(parent_inum).blocks@[0] == 0 && !fs.free_block_exists()
        ==> r == Err::<InodeNum, FsError>(FsError::NoFreeBlocks)
    &&& fs.free_inode_exists() && (fs.inode(parent_inum).blocks@[0] != 0 || fs.free_block_exists())
        ==> (fs.dir_entries(parent_inum).len() < DIR_ENTRIES_PER_BLOCK <==> r is Ok)
    &&& r matches Ok(i) ==> {
        let e = fs.dir_entries(parent_inum);
        let e2 = fs2.dir_entries(parent_inum);
        &&& 1 <= i < TOTAL_INODES
        &&& i != parent_inum
        &&& !fs.inode_in_use(i as int)
        &&& fs2.inode_in_use(i as int)
        &&& fs2.free_inode_count() == fs.free_inode_count() - 1
        &&& is_blank_inode(fs2.inode(i as int), i, FileType::Regular,
            Permissions { read: true, write: true, execute: false })
        &&& e2.len() == e.len() + 1
        &&& (forall|j: int| 0 <= j < e.len() ==> #[trigger] e2[j] == e[j])
        &&& e2.last().name@ == stored_name(name)
        &&& e2.last().inum == i
    }
    &&& forall|i: int|
        0 <= i < TOTAL_INODES && fs.inode_in_use(i) ==> #[trigger] fs2.inode_in_use(i)
    &&& forall|i: int|
        0 <= i < TOTAL_INODES && fs.inode_in_use(i) ==> #[trigger] fs2.inode(i).file_type
            == fs.inode(i).file_type && fs2.inode(i).size == fs.inode(i).size
    &&& forall|g: int| #[trigger] fs2.open_file(g) == fs.open_file(g)
}

/// How many bytes a read of `len` bytes at `position` returns from a file
/// of `size` bytes: up to the end of the file.
pub open spec fn read_count(size: int, position: int, len: int) -> int {
    let avail = if position < size { size - position } else { 0 };
    if len < avail { len } else { avail }
}

/// Writing bytes at the start of a regular file stores all of them that
/// fit in the direct blocks, and a read of that many bytes from the start
/// returns every one of them: the file is long enough and each byte read is
/// the byte written.
pub proof fn lemma_write_read_round_trip(fs: Filesystem, fs2: Filesystem, inum: InodeNum, data: Seq<u8>, n: usize)
    requires
        fs.wf(),
        inum < TOTAL_INODES,
        write_file_post(fs, fs2, inum as int, 0, data, Ok(n)),
    ensures
        n == write_len(0, data),
        n as int == if data.len() < DIRECT_BLOCKS * BLOCK_SIZE { data.len() as int } else { DIRECT_BLOCKS * BLOCK_SIZE as int },
        read_count(fs2.inode(inum as int).size as int, 0, n as int) == n,
        forall|k: int| 0 <= k < n ==> #[trigger] fs2.byte_at(inum as int, k) == data[k],
{
    assert forall|k: int| 0 <= k < n implies #[trigger] fs2.byte_at(inum as int, k) == data[k] by {
        assert(fs2.byte_at(inum as int, 0 + k) == data[k]);
    }
    if n == 0 {
        assert(fs2 == fs);
    }
}

} // verus!
