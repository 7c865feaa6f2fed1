//! The FUSE protocol: the requests the guest's virtio-fs driver sends and
//! the replies it expects, laid out as in `<linux/fuse.h>` (little-endian).

use vstd::prelude::*;
use vstd::seq_lib::lemma_concat_associative;
use crate::bytes::{le16, le16_bytes, le32, le32_bytes, le64, le64_bytes, push_le16, push_le32, push_le64, read_le16, read_le32, read_le64};

verus! {

pub const FUSE_LOOKUP: u32 = 1;
pub const FUSE_GETATTR: u32 = 3;
pub const FUSE_OPEN: u32 = 14;
pub const FUSE_READ: u32 = 15;
pub const FUSE_WRITE: u32 = 16;
pub const FUSE_RELEASE: u32 = 18;
pub const FUSE_GETXATTR: u32 = 22;
pub const FUSE_FLUSH: u32 = 25;
pub const FUSE_INIT: u32 = 26;
pub const FUSE_READDIR: u32 = 28;

/// The errors a reply can carry. `TODO` stands for a failure that has no
/// number of its own yet; it is sent as 0.
#[derive(Debug, Clone, Copy, PartialEq, Eq, Structural)]
#[allow(non_camel_case_types)]
pub enum Errno {
    TODO,
    EACCES,
    ENOTDIR,
    EINVAL,
    EHOSTDOWN,
    EOPNOTSUPP,
}

/// The number an error is sent as.
pub open spec fn errno_value(e: Errno) -> i32 {
    match e {
        Errno::TODO => 0i32,
        Errno::EACCES => -13i32,
        Errno::ENOTDIR => -20i32,
        Errno::EINVAL => -22i32,
        Errno::EHOSTDOWN => -112i32,
        Errno::EOPNOTSUPP => -95i32,
    }
}

impl Errno {
    pub fn as_i32(self) -> (r: i32)
        ensures
            r == errno_value(self),
    {
        match self {
            Errno::TODO => 0,
            Errno::EACCES => -13,
            Errno::ENOTDIR => -20,
            Errno::EINVAL => -22,
            Errno::EHOSTDOWN => -112,
            Errno::EOPNOTSUPP => -95,
        }
    }
}

/// The little-endian bytes of a run of `u32`s.
pub open spec fn le32_all(s: Seq<u32>) -> Seq<u8>
    decreases s.len(),
{
    if s.len() == 0 {
        Seq::empty()
    } else {
        le32_all(s.drop_last()) + le32_bytes(s.last() as int)
    }
}

/// A reply structure: its bytes as the guest reads them.
pub trait FuseOut: Sized {
    spec fn bytes(&self) -> Seq<u8>;

    /// A reply structure is small.
    proof fn lemma_bytes_len(&self)
        ensures
            self.bytes().len() <= 0x1000,
    ;

    fn encode(&self, out: &mut Vec<u8>)
        ensures
            final(out)@ == old(out)@ + self.bytes(),
    ;
}

/// `struct fuse_in_header`: the header of every request.
#[derive(Debug, Clone, Copy, Default)]
pub struct FuseInHeader {
    pub len: u32,
    pub opcode: u32,
    pub unique: u64,
    pub nodeid: u64,
    pub uid: u32,
    pub gid: u32,
    pub pid: u32,
    pub total_extlen: u16,
    pub padding: u16,
}

impl FuseInHeader {
    /// The size of the structure in bytes.
    pub const SIZE: usize = 40;

    /// The structure that `b` holds.
    pub open spec fn from_bytes(b: Seq<u8>) -> FuseInHeader {
        FuseInHeader {
            len: le32(b.subrange(0, 4)) as u32,
            opcode: le32(b.subrange(4, 8)) as u32,
            unique: le64(b.subrange(8, 16)) as u64,
            nodeid: le64(b.subrange(16, 24)) as u64,
            uid: le32(b.subrange(24, 28)) as u32,
            gid: le32(b.subrange(28, 32)) as u32,
            pid: le32(b.subrange(32, 36)) as u32,
            total_extlen: le16(b.subrange(36, 38)) as u16,
            padding: le16(b.subrange(38, 40)) as u16,
        }
    }

    /// Decodes the structure from its bytes.
    pub fn decode(b: &[u8]) -> (r: FuseInHeader)
        requires
            b@.len() == 40,
        ensures
            r == FuseInHeader::from_bytes(b@),
    {
        FuseInHeader {
            len: read_le32(b, 0),
            opcode: read_le32(b, 4),
            unique: read_le64(b, 8),
            nodeid: read_le64(b, 16),
            uid: read_le32(b, 24),
            gid: read_le32(b, 28),
            pid: read_le32(b, 32),
            total_extlen: read_le16(b, 36),
            padding: read_le16(b, 38),
        }
    }
}

/// `struct fuse_init_in`.
#[derive(Debug, Clone, Copy, Default)]
pub struct FuseInitIn {
    pub major: u32,
    pub minor: u32,
    pub max_readahead: u32,
    pub flags: u32,
}

impl FuseInitIn {
    /// The size of the structure in bytes.
    pub const SIZE: usize = 16;

    /// The structure that `b` holds.
    pub open spec fn from_bytes(b: Seq<u8>) -> FuseInitIn {
        FuseInitIn {
            major: le32(b.subrange(0, 4)) as u32,
            minor: le32(b.subrange(4, 8)) as u32,
            max_readahead: le32(b.subrange(8, 12)) as u32,
            flags: le32(b.subrange(12, 16)) as u32,
        }
    }

    /// Decodes the structure from its bytes.
    pub fn decode(b: &[u8]) -> (r: FuseInitIn)
        requires
            b@.len() == 16,
        ensures
            r == FuseInitIn::from_bytes(b@),
    {
        FuseInitIn {
            major: read_le32(b, 0),
            minor: read_le32(b, 4),
            max_readahead: read_le32(b, 8),
            flags: read_le32(b, 12),
        }
    }
}

/// `struct fuse_flush_in`.
#[derive(Debug, Clone, Copy, Default)]
pub struct FuseFlushIn {
    pub fh: u64,
    pub unused: u32,
    pub padding: u32,
    pub lock_owner: u64,
}

impl FuseFlushIn {
    /// The size of the structure in bytes.
    pub const SIZE: usize = 24;

    /// The structure that `b` holds.
    pub open spec fn from_bytes(b: Seq<u8>) -> FuseFlushIn {
        FuseFlushIn {
            fh: le64(b.subrange(0, 8)) as u64,
            unused: le32(b.subrange(8, 12)) as u32,
            padding: le32(b.subrange(12, 16)) as u32,
            lock_owner: le64(b.subrange(16, 24)) as u64,
        }
    }

    /// Decodes the structure from its bytes.
    pub fn decode(b: &[u8]) -> (r: FuseFlushIn)
        requires
            b@.len() == 24,
        ensures
            r == FuseFlushIn::from_bytes(b@),
    {
        FuseFlushIn {
            fh: read_le64(b, 0),
            unused: read_le32(b, 8),
            padding: read_le32(b, 12),
            lock_owner: read_le64(b, 16),
        }
    }
}

/// `struct fuse_release_in`.
#[derive(Debug, Clone, Copy, Default)]
pub struct FuseReleaseIn {
    pub fh: u64,
    pub flags: u32,
    pub release_flags: u32,
    pub lock_owner: u64,
}

impl FuseReleaseIn {
    /// The size of the structure in bytes.
    pub const SIZE: usize = 24;

    /// The structure that `b` holds.
    pub open spec fn from_bytes(b: Seq<u8>) -> FuseReleaseIn {
        FuseReleaseIn {
            fh: le64(b.subrange(0, 8)) as u64,
            flags: le32(b.subrange(8, 12)) as u32,
            release_flags: le32(b.subrange(12, 16)) as u32,
            lock_owner: le64(b.subrange(16, 24)) as u64,
        }
    }

    /// Decodes the structure from its bytes.
    pub fn decode(b: &[u8]) -> (r: FuseReleaseIn)
        requires
            b@.len() == 24,
        ensures
            r == FuseReleaseIn::from_bytes(b@),
    {
        FuseReleaseIn {
            fh: read_le64(b, 0),
            flags: read_le32(b, 8),
            release_flags: read_le32(b, 12),
            lock_owner: read_le64(b, 16),
        }
    }
}

/// `struct fuse_getattr_in`.
#[derive(Debug, Clone, Copy, Default)]
pub struct FuseGetAttrIn {
    pub getattr_flags: u32,
    pub dummy: u32,
    pub fh: u64,
}

impl FuseGetAttrIn {
    /// The size of the structure in bytes.
    pub const SIZE: usize = 16;

    /// The structure that `b` holds.
    pub open spec fn from_bytes(b: Seq<u8>) -> FuseGetAttrIn {
        FuseGetAttrIn {
            getattr_flags: le32(b.subrange(0, 4)) as u32,
            dummy: le32(b.subrange(4, 8)) as u32,
            fh: le64(b.subrange(8, 16)) as u64,
        }
    }

    /// Decodes the structure from its bytes.
    pub fn decode(b: &[u8]) -> (r: FuseGetAttrIn)
        requires
            b@.len() == 16,
        ensures
            r == FuseGetAttrIn::from_bytes(b@),
    {
        FuseGetAttrIn {
            getattr_flags: read_le32(b, 0),
            dummy: read_le32(b, 4),
            fh: read_le64(b, 8),
        }
    }
}

/// `struct fuse_open_in`.
#[derive(Debug, Clone, Copy, Default)]
pub struct FuseOpenIn {
    pub flags: u32,
    pub unused: u32,
}

impl FuseOpenIn {
    /// The size of the structure in bytes.
    pub const SIZE: usize = 8;

    /// The structure that `b` holds.
    pub open spec fn from_bytes(b: Seq<u8>) -> FuseOpenIn {
        FuseOpenIn {
            flags: le32(b.subrange(0, 4)) as u32,
            unused: le32(b.subrange(4, 8)) as u32,
        }
    }

    /// Decodes the structure from its bytes.
    pub fn decode(b: &[u8]) -> (r: FuseOpenIn)
        requires
            b@.len() == 8,
        ensures
            r == FuseOpenIn::from_bytes(b@),
    {
        FuseOpenIn {
            flags: read_le32(b, 0),
            unused: read_le32(b, 4),
        }
    }
}

/// `struct fuse_read_in`.
#[derive(Debug, Clone, Copy, Default)]
pub struct FuseReadIn {
    pub fh: u64,
    pub offset: u64,
    pub size: u32,
    pub read_flags: u32,
    pub lock_owner: u64,
    pub flags: u32,
    pub padding: u32,
}

impl FuseReadIn {
    /// The size of the structure in bytes.
    pub const SIZE: usize = 40;

    /// The structure that `b` holds.
    pub open spec fn from_bytes(b: Seq<u8>) -> FuseReadIn {
        FuseReadIn {
            fh: le64(b.subrange(0, 8)) as u64,
            offset: le64(b.subrange(8, 16)) as u64,
            size: le32(b.subrange(16, 20)) as u32,
            read_flags: le32(b.subrange(20, 24)) as u32,
            lock_owner: le64(b.subrange(24, 32)) as u64,
            flags: le32(b.subrange(32, 36)) as u32,
            padding: le32(b.subrange(36, 40)) as u32,
        }
    }

    /// Decodes the structure from its bytes.
    pub fn decode(b: &[u8]) -> (r: FuseReadIn)
        requires
            b@.len() == 40,
        ensures
            r == FuseReadIn::from_bytes(b@),
    {
        FuseReadIn {
            fh: read_le64(b, 0),
            offset: read_le64(b, 8),
            size: read_le32(b, 16),
            read_flags: read_le32(b, 20),
            lock_owner: read_le64(b, 24),
            flags: read_le32(b, 32),
            padding: read_le32(b, 36),
        }
    }
}

/// `struct fuse_write_in`.
#[derive(Debug, Clone, Copy, Default)]
pub struct FuseWriteIn {
    pub fh: u64,
    pub offset: u64,
    pub size: u32,
    pub write_flags: u32,
    pub lock_owner: u64,
    pub flags: u32,
    pub padding: u32,
}

impl FuseWriteIn {
    /// The size of the structure in bytes.
    pub const SIZE: usize = 40;

    /// The structure that `b` holds.
    pub open spec fn from_bytes(b: Seq<u8>) -> FuseWriteIn {
        FuseWriteIn {
            fh: le64(b.subrange(0, 8)) as u64,
            offset: le64(b.subrange(8, 16)) as u64,
            size: le32(b.subrange(16, 20)) as u32,
            write_flags: le32(b.subrange(20, 24)) as u32,
            lock_owner: le64(b.subrange(24, 32)) as u64,
            flags: le32(b.subrange(32, 36)) as u32,
            padding: le32(b.subrange(36, 40)) as u32,
        }
    }

    /// Decodes the structure from its bytes.
    pub fn decode(b: &[u8]) -> (r: FuseWriteIn)
        requires
            b@.len() == 40,
        ensures
            r == FuseWriteIn::from_bytes(b@),
    {
        FuseWriteIn {
            fh: read_le64(b, 0),
            offset: read_le64(b, 8),
            size: read_le32(b, 16),
            write_flags: read_le32(b, 20),
            lock_owner: read_le64(b, 24),
            flags: read_le32(b, 32),
            padding: read_le32(b, 36),
        }
    }
}

/// `struct fuse_out_header`: the header of every reply.
#[derive(Debug, Clone, Copy, Default)]
pub struct FuseOutHeader {
    pub len: u32,
    pub error: i32,
    pub unique: u64,
}

impl FuseOutHeader {
    /// The size of the structure in bytes.
    pub const SIZE: usize = 16;
}

impl FuseOut for FuseOutHeader {
    open spec fn bytes(&self) -> Seq<u8> {
        le32_bytes(self.len as int)
            + le32_bytes(self.error as u32 as int)
            + le64_bytes(self.unique as int)
    }

    proof fn lemma_bytes_len(&self) {
        assert(le32_bytes(self.len as int).len() == 4);
        assert(le32_bytes(self.error as u32 as int).len() == 4);
        assert(le64_bytes(self.unique as int).len() == 8);
    }

    fn encode(&self, out: &mut Vec<u8>) {
        let ghost start = out@;
        push_le32(out, self.len);
        let ghost acc = le32_bytes(self.len as int);
        proof {
            lemma_concat_associative(start, acc, le32_bytes(self.error as u32 as int));
        }
        push_le32(out, self.error as u32);
        let ghost acc = acc + le32_bytes(self.error as u32 as int);
        proof {
            lemma_concat_associative(start, acc, le64_bytes(self.unique as int));
        }
        push_le64(out, self.unique);
        let ghost acc = acc + le64_bytes(self.unique as int);
    }
}

/// `struct fuse_attr`.
#[derive(Debug, Clone, Copy, Default)]
pub struct FuseAttr {
    pub ino: u64,
    pub size: u64,
    pub blocks: u64,
    pub atime: u64,
    pub mtime: u64,
    pub ctime: u64,
    pub atimensec: u32,
    pub mtimensec: u32,
    pub ctimensec: u32,
    pub mode: u32,
    pub nlink: u32,
    pub uid: u32,
    pub gid: u32,
    pub rdev: u32,
    pub blksize: u32,
    pub padding: u32,
}

impl FuseAttr {
    /// The size of the structure in bytes.
    pub const SIZE: usize = 88;
}

impl FuseOut for FuseAttr {
    open spec fn bytes(&self) -> Seq<u8> {
        le64_bytes(self.ino as int)
            + le64_bytes(self.size as int)
            + le64_bytes(self.blocks as int)
            + le64_bytes(self.atime as int)
            + le64_bytes(self.mtime as int)
            + le64_bytes(self.ctime as int)
            + le32_bytes(self.atimensec as int)
            + le32_bytes(self.mtimensec as int)
            + le32_bytes(self.ctimensec as int)
            + le32_bytes(self.mode as int)
            + le32_bytes(self.nlink as int)
            + le32_bytes(self.uid as int)
            + le32_bytes(self.gid as int)
            + le32_bytes(self.rdev as int)
            + le32_bytes(self.blksize as int)
            + le32_bytes(self.padding as int)
    }

    proof fn lemma_bytes_len(&self) {
        assert(le64_bytes(self.ino as int).len() == 8);
        assert(le64_bytes(self.size as int).len() == 8);
        assert(le64_bytes(self.blocks as int).len() == 8);
        assert(le64_bytes(self.atime as int).len() == 8);
        assert(le64_bytes(self.mtime as int).len() == 8);
        assert(le64_bytes(self.ctime as int).len() == 8);
        assert(le32_bytes(self.atimensec as int).len() == 4);
        assert(le32_bytes(self.mtimensec as int).len() == 4);
        assert(le32_bytes(self.ctimensec as int).len() == 4);
        assert(le32_bytes(self.mode as int).len() == 4);
        assert(le32_bytes(self.nlink as int).len() == 4);
        assert(le32_bytes(self.uid as int).len() == 4);
        assert(le32_bytes(self.gid as int).len() == 4);
        assert(le32_bytes(self.rdev as int).len() == 4);
        assert(le32_bytes(self.blksize as int).len() == 4);
        assert(le32_bytes(self.padding as int).len() == 4);
    }

    fn encode(&self, out: &mut Vec<u8>) {
        let ghost start = out@;
        push_le64(out, self.ino);
        let ghost acc = le64_bytes(self.ino as int);
        proof {
            lemma_concat_associative(start, acc, le64_bytes(self.size as int));
        }
        push_le64(out, self.size);
        let ghost acc = acc + le64_bytes(self.size as int);
        proof {
            lemma_concat_associative(start, acc, le64_bytes(self.blocks as int));
        }
        push_le64(out, self.blocks);
        let ghost acc = acc + le64_bytes(self.blocks as int);
        proof {
            lemma_concat_associative(start, acc, le64_bytes(self.atime as int));
        }
        push_le64(out, self.atime);
        let ghost acc = acc + le64_bytes(self.atime as int);
        proof {
            lemma_concat_associative(start, acc, le64_bytes(self.mtime as int));
        }
        push_le64(out, self.mtime);
        let ghost acc = acc + le64_bytes(self.mtime as int);
        proof {
            lemma_concat_associative(start, acc, le64_bytes(self.ctime as int));
        }
        push_le64(out, self.ctime);
        let ghost acc = acc + le64_bytes(self.ctime as int);
        proof {
            lemma_concat_associative(start, acc, le32_bytes(self.atimensec as int));
        }
        push_le32(out, self.atimensec);
        let ghost acc = acc + le32_bytes(self.atimensec as int);
        proof {
            lemma_concat_associative(start, acc, le32_bytes(self.mtimensec as int));
        }
        push_le32(out, self.mtimensec);
        let ghost acc = acc + le32_bytes(self.mtimensec as int);
        proof {
            lemma_concat_associative(start, acc, le32_bytes(self.ctimensec as int));
        }
        push_le32(out, self.ctimensec);
        let ghost acc = acc + le32_bytes(self.ctimensec as int);
        proof {
            lemma_concat_associative(start, acc, le32_bytes(self.mode as int));
        }
        push_le32(out, self.mode);
        let ghost acc = acc + le32_bytes(self.mode as int);
        proof {
            lemma_concat_associative(start, acc, le32_bytes(self.nlink as int));
        }
        push_le32(out, self.nlink);
        let ghost acc = acc + le32_bytes(self.nlink as int);
        proof {
            lemma_concat_associative(start, acc, le32_bytes(self.uid as int));
        }
        push_le32(out, self.uid);
        let ghost acc = acc + le32_bytes(self.uid as int);
        proof {
            lemma_concat_associative(start, acc, le32_bytes(self.gid as int));
        }
        push_le32(out, self.gid);
        let ghost acc = acc + le32_bytes(self.gid as int);
        proof {
            lemma_concat_associative(start, acc, le32_bytes(self.rdev as int));
        }
        push_le32(out, self.rdev);
        let ghost acc = acc + le32_bytes(self.rdev as int);
        proof {
            lemma_concat_associative(start, acc, le32_bytes(self.blksize as int));
        }
        push_le32(out, self.blksize);
        let ghost acc = acc + le32_bytes(self.blksize as int);
        proof {
            lemma_concat_associative(start, acc, le32_bytes(self.padding as int));
        }
        push_le32(out, self.padding);
        let ghost acc = acc + le32_bytes(self.padding as int);
    }
}

/// `struct fuse_init_out`.
#[derive(Debug, Clone, Copy, Default)]
pub struct FuseInitOut {
    pub major: u32,
    pub minor: u32,
    pub max_readahead: u32,
    pub flags: u32,
    pub max_background: u16,
    pub congestion_threshold: u16,
    pub max_write: u32,
    pub time_gran: u32,
    pub unused: [u32; 9],
}

impl FuseInitOut {
    /// The size of the structure in bytes.
    pub const SIZE: usize = 64;
}

impl FuseOut for FuseInitOut {
    open spec fn bytes(&self) -> Seq<u8> {
        le32_bytes(self.major as int)
            + le32_bytes(self.minor as int)
            + le32_bytes(self.max_readahead as int)
            + le32_bytes(self.flags as int)
            + le16_bytes(self.max_background as int)
            + le16_bytes(self.congestion_threshold as int)
            + le32_bytes(self.max_write as int)
            + le32_bytes(self.time_gran as int)
            + le32_all(self.unused@)
    }

    proof fn lemma_bytes_len(&self) {
        assert(le32_bytes(self.major as int).len() == 4);
        assert(le32_bytes(self.minor as int).len() == 4);
        assert(le32_bytes(self.max_readahead as int).len() == 4);
        assert(le32_bytes(self.flags as int).len() == 4);
        assert(le16_bytes(self.max_background as int).len() == 2);
        assert(le16_bytes(self.congestion_threshold as int).len() == 2);
        assert(le32_bytes(self.max_write as int).len() == 4);
        assert(le32_bytes(self.time_gran as int).len() == 4);
        reveal_with_fuel(le32_all, 10);
    }

    fn encode(&self, out: &mut Vec<u8>) {
        let ghost start = out@;
        push_le32(out, self.major);
        let ghost acc = le32_bytes(self.major as int);
        proof {
            lemma_concat_associative(start, acc, le32_bytes(self.minor as int));
        }
        push_le32(out, self.minor);
        let ghost acc = acc + le32_bytes(self.minor as int);
        proof {
            lemma_concat_associative(start, acc, le32_bytes(self.max_readahead as int));
        }
        push_le32(out, self.max_readahead);
        let ghost acc = acc + le32_bytes(self.max_readahead as int);
        proof {
            lemma_concat_associative(start, acc, le32_bytes(self.flags as int));
        }
        push_le32(out, self.flags);
        let ghost acc = acc + le32_bytes(self.flags as int);
        proof {
            lemma_concat_associative(start, acc, le16_bytes(self.max_background as int));
        }
        push_le16(out, self.max_background);
        let ghost acc = acc + le16_bytes(self.max_background as int);
        proof {
            lemma_concat_associative(start, acc, le16_bytes(self.congestion_threshold as int));
        }
        push_le16(out, self.congestion_threshold);
        let ghost acc = acc + le16_bytes(self.congestion_threshold as int);
        proof {
            lemma_concat_associative(start, acc, le32_bytes(self.max_write as int));
        }
        push_le32(out, self.max_write);
        let ghost acc = acc + le32_bytes(self.max_write as int);
        proof {
            lemma_concat_associative(start, acc, le32_bytes(self.time_gran as int));
        }
        push_le32(out, self.time_gran);
        let ghost acc = acc + le32_bytes(self.time_gran as int);
        proof {
            lemma_concat_associative(start, acc, le32_all(self.unused@));
        }
        push_le32_all(out, &self.unused);
        let ghost acc = acc + le32_all(self.unused@);
    }
}

/// `struct fuse_attr_out`.
#[derive(Debug, Clone, Copy, Default)]
pub struct FuseGetAttrOut {
    pub attr_valid: u64,
    pub attr_valid_nsec: u32,
    pub dummy: u32,
    pub attr: FuseAttr,
}

impl FuseGetAttrOut {
    /// The size of the structure in bytes.
    pub const SIZE: usize = 104;
}

impl FuseOut for FuseGetAttrOut {
    open spec fn bytes(&self) -> Seq<u8> {
        le64_bytes(self.attr_valid as int)
            + le32_bytes(self.attr_valid_nsec as int)
            + le32_bytes(self.dummy as int)
            + self.attr.bytes()
    }

    proof fn lemma_bytes_len(&self) {
        assert(le64_bytes(self.attr_valid as int).len() == 8);
        assert(le32_bytes(self.attr_valid_nsec as int).len() == 4);
        assert(le32_bytes(self.dummy as int).len() == 4);
        lemma_attr_len(self.attr);
    }

    fn encode(&self, out: &mut Vec<u8>) {
        let ghost start = out@;
        push_le64(out, self.attr_valid);
        let ghost acc = le64_bytes(self.attr_valid as int);
        proof {
            lemma_concat_associative(start, acc, le32_bytes(self.attr_valid_nsec as int));
        }
        push_le32(out, self.attr_valid_nsec);
        let ghost acc = acc + le32_bytes(self.attr_valid_nsec as int);
        proof {
            lemma_concat_associative(start, acc, le32_bytes(self.dummy as int));
        }
        push_le32(out, self.dummy);
        let ghost acc = acc + le32_bytes(self.dummy as int);
        proof {
            lemma_concat_associative(start, acc, self.attr.bytes());
        }
        self.attr.encode(out);
        let ghost acc = acc + self.attr.bytes();
    }
}

/// `struct fuse_entry_out`.
#[derive(Debug, Clone, Copy, Default)]
pub struct FuseEntryOut {
    pub nodeid: u64,
    pub generation: u64,
    pub entry_valid: u64,
    pub attr_valid: u64,
    pub entry_valid_nsec: u32,
    pub attr_valid_nsec: u32,
    pub attr: FuseAttr,
}

impl FuseEntryOut {
    /// The size of the structure in bytes.
    pub const SIZE: usize = 128;
}

impl FuseOut for FuseEntryOut {
    open spec fn bytes(&self) -> Seq<u8> {
        le64_bytes(self.nodeid as int)
            + le64_bytes(self.generation as int)
            + le64_bytes(self.entry_valid as int)
            + le64_bytes(self.attr_valid as int)
            + le32_bytes(self.entry_valid_nsec as int)
            + le32_bytes(self.attr_valid_nsec as int)
            + self.attr.bytes()
    }

    proof fn lemma_bytes_len(&self) {
        assert(le64_bytes(self.nodeid as int).len() == 8);
        assert(le64_bytes(self.generation as int).len() == 8);
        assert(le64_bytes(self.entry_valid as int).len() == 8);
        assert(le64_bytes(self.attr_valid as int).len() == 8);
        assert(le32_bytes(self.entry_valid_nsec as int).len() == 4);
        assert(le32_bytes(self.attr_valid_nsec as int).len() == 4);
        lemma_attr_len(self.attr);
    }

    fn encode(&self, out: &mut Vec<u8>) {
        let ghost start = out@;
        push_le64(out, self.nodeid);
        let ghost acc = le64_bytes(self.nodeid as int);
        proof {
            lemma_concat_associative(start, acc, le64_bytes(self.generation as int));
        }
        push_le64(out, self.generation);
        let ghost acc = acc + le64_bytes(self.generation as int);
        proof {
            lemma_concat_associative(start, acc, le64_bytes(self.entry_valid as int));
        }
        push_le64(out, self.entry_valid);
        let ghost acc = acc + le64_bytes(self.entry_valid as int);
        proof {
            lemma_concat_associative(start, acc, le64_bytes(self.attr_valid as int));
        }
        push_le64(out, self.attr_valid);
        let ghost acc = acc + le64_bytes(self.attr_valid as int);
        proof {
            lemma_concat_associative(start, acc, le32_bytes(self.entry_valid_nsec as int));
        }
        push_le32(out, self.entry_valid_nsec);
        let ghost acc = acc + le32_bytes(self.entry_valid_nsec as int);
        proof {
            lemma_concat_associative(start, acc, le32_bytes(self.attr_valid_nsec as int));
        }
        push_le32(out, self.attr_valid_nsec);
        let ghost acc = acc + le32_bytes(self.attr_valid_nsec as int);
        proof {
            lemma_concat_associative(start, acc, self.attr.bytes());
        }
        self.attr.encode(out);
        let ghost acc = acc + self.attr.bytes();
    }
}

/// `struct fuse_open_out`.
#[derive(Debug, Clone, Copy, Default)]
pub struct FuseOpenOut {
    pub fh: u64,
    pub open_flags: u32,
    pub padding: u32,
}

impl FuseOpenOut {
    /// The size of the structure in bytes.
    pub const SIZE: usize = 16;
}

impl FuseOut for FuseOpenOut {
    open spec fn bytes(&self) -> Seq<u8> {
        le64_bytes(self.fh as int)
            + le32_bytes(self.open_flags as int)
            + le32_bytes(self.padding as int)
    }

    proof fn lemma_bytes_len(&self) {
        assert(le64_bytes(self.fh as int).len() == 8);
        assert(le32_bytes(self.open_flags as int).len() == 4);
        assert(le32_bytes(self.padding as int).len() == 4);
    }

    fn encode(&self, out: &mut Vec<u8>) {
        let ghost start = out@;
        push_le64(out, self.fh);
        let ghost acc = le64_bytes(self.fh as int);
        proof {
            lemma_concat_associative(start, acc, le32_bytes(self.open_flags as int));
        }
        push_le32(out, self.open_flags);
        let ghost acc = acc + le32_bytes(self.open_flags as int);
        proof {
            lemma_concat_associative(start, acc, le32_bytes(self.padding as int));
        }
        push_le32(out, self.padding);
        let ghost acc = acc + le32_bytes(self.padding as int);
    }
}

/// `struct fuse_write_out`.
#[derive(Debug, Clone, Copy, Default)]
pub struct FuseWriteOut {
    pub size: u32,
    pub padding: u32,
}

impl FuseWriteOut {
    /// The size of the structure in bytes.
    pub const SIZE: usize = 8;
}

impl FuseOut for FuseWriteOut {
    open spec fn bytes(&self) -> Seq<u8> {
        le32_bytes(self.size as int)
            + le32_bytes(self.padding as int)
    }

    proof fn lemma_bytes_len(&self) {
        assert(le32_bytes(self.size as int).len() == 4);
        assert(le32_bytes(self.padding as int).len() == 4);
    }

    fn encode(&self, out: &mut Vec<u8>) {
        let ghost start = out@;
        push_le32(out, self.size);
        let ghost acc = le32_bytes(self.size as int);
        proof {
            lemma_concat_associative(start, acc, le32_bytes(self.padding as int));
        }
        push_le32(out, self.padding);
        let ghost acc = acc + le32_bytes(self.padding as int);
    }
}

/// `struct fuse_dirent`, without the name that follows it.
#[derive(Debug, Clone, Copy, Default)]
pub struct FuseDirent {
    pub ino: u64,
    pub off: u64,
    pub namelen: u32,
    pub file_type: u32,
}

impl FuseDirent {
    /// The size of the structure in bytes.
    pub const SIZE: usize = 24;
}

impl FuseOut for FuseDirent {
    open spec fn bytes(&self) -> Seq<u8> {
        le64_bytes(self.ino as int)
            + le64_bytes(self.off as int)
            + le32_bytes(self.namelen as int)
            + le32_bytes(self.file_type as int)
    }

    proof fn lemma_bytes_len(&self) {
        assert(le64_bytes(self.ino as int).len() == 8);
        assert(le64_bytes(self.off as int).len() == 8);
        assert(le32_bytes(self.namelen as int).len() == 4);
        assert(le32_bytes(self.file_type as int).len() == 4);
    }

    fn encode(&self, out: &mut Vec<u8>) {
        let ghost start = out@;
        push_le64(out, self.ino);
        let ghost acc = le64_bytes(self.ino as int);
        proof {
            lemma_concat_associative(start, acc, le64_bytes(self.off as int));
        }
        push_le64(out, self.off);
        let ghost acc = acc + le64_bytes(self.off as int);
        proof {
            lemma_concat_associative(start, acc, le32_bytes(self.namelen as int));
        }
        push_le32(out, self.namelen);
        let ghost acc = acc + le32_bytes(self.namelen as int);
        proof {
            lemma_concat_associative(start, acc, le32_bytes(self.file_type as int));
        }
        push_le32(out, self.file_type);
        let ghost acc = acc + le32_bytes(self.file_type as int);
    }
}

/// The attributes take 88 bytes.
pub proof fn lemma_attr_len(a: FuseAttr)
    ensures
        a.bytes().len() == FuseAttr::SIZE,
{
    let p = le64_bytes(a.ino as int);
    assert(p.len() == 8);
    let p = p + le64_bytes(a.size as int);
    assert(p.len() == 16);
    let p = p + le64_bytes(a.blocks as int);
    assert(p.len() == 24);
    let p = p + le64_bytes(a.atime as int);
    assert(p.len() == 32);
    let p = p + le64_bytes(a.mtime as int);
    assert(p.len() == 40);
    let p = p + le64_bytes(a.ctime as int);
    assert(p.len() == 48);
    let p = p + le32_bytes(a.atimensec as int);
    assert(p.len() == 52);
    let p = p + le32_bytes(a.mtimensec as int);
    assert(p.len() == 56);
    let p = p + le32_bytes(a.ctimensec as int);
    assert(p.len() == 60);
    let p = p + le32_bytes(a.mode as int);
    assert(p.len() == 64);
    let p = p + le32_bytes(a.nlink as int);
    assert(p.len() == 68);
    let p = p + le32_bytes(a.uid as int);
    assert(p.len() == 72);
    let p = p + le32_bytes(a.gid as int);
    assert(p.len() == 76);
    let p = p + le32_bytes(a.rdev as int);
    assert(p.len() == 80);
    let p = p + le32_bytes(a.blksize as int);
    assert(p.len() == 84);
    let p = p + le32_bytes(a.padding as int);
    assert(p.len() == 88);
    assert(p == a.bytes());
}

/// Appends the little-endian bytes of each of `v`.
fn push_le32_all(out: &mut Vec<u8>, v: &[u32; 9])
    ensures
        final(out)@ == old(out)@ + le32_all(v@),
{
    let ghost start = out@;
    let mut i: usize = 0;
    while i < 9
        invariant
            i <= 9,
            v@.len() == 9,
            out@ == start + le32_all(v@.take(i as int)),
        decreases 9 - i,
    {
        push_le32(out, v[i]);
        proof {
            assert(v@.take(i + 1).drop_last() =~= v@.take(i as int));
        }
        i += 1;
    }
    assert(v@.take(9) =~= v@);
}

} // verus!
