//! The virtio-fs device: FUSE requests from the guest, answered from the
//! file system of the command.

use vstd::prelude::*;
use crate::fs::{fs_lookup, fs_read, inode_at, inode_write_result, inode_written, FileSystem, FsError, INodeNo, INodeView};
use crate::guest_memory::{GuestMemory, GuestMemoryError};
use crate::virtio::desc_chain::{
    chain_from, chain_regions, readable_of, seg_read, seg_read_obj, writable_of, wr_bytes, wr_obj, DescChain, DescChainReader,
    DescChainWriter, VirtqDesc, DESC_CHAIN_LEN_MAX,
};
use crate::virtio::device::{DeviceError, DeviceEvent, VirtioDevice};
use crate::virtio::net::chain_segments;
use crate::virtio::virtqueue::{used_pushed, Virtqueue};
use crate::virtio::fuse::{
    errno_value, Errno, FuseAttr, FuseFlushIn, FuseGetAttrIn, FuseGetAttrOut, FuseInHeader, FuseInitIn,
    FuseInitOut, FuseOpenIn, FuseOpenOut, FuseOut, FuseOutHeader, FuseReadIn, FuseReleaseIn, FuseWriteIn,
    FuseWriteOut, FUSE_FLUSH, FUSE_GETATTR, FUSE_INIT, FUSE_LOOKUP, FUSE_OPEN, FUSE_READ, FUSE_RELEASE,
    FUSE_WRITE,
};

verus! {

/// Why a request could not be served.
#[derive(Debug, Clone, Copy, PartialEq, Eq)]
pub enum Error {
    /// A buffer of the request lies outside the guest's RAM, or the reply
    /// does not fit the guest's buffers.
    GuestMemory(GuestMemoryError),
    /// The operation is not implemented for this kind of node.
    Unimplemented,
}

/// What a reply says: an error, or success with an optional structure and
/// optional bytes after it.
pub enum ReplyKind {
    Error(Errno),
    Data(Option<Seq<u8>>, Option<Seq<u8>>),
}

/// The header of a reply of `len` bytes.
pub open spec fn out_header(len: int, error: i32, unique: u64) -> Seq<u8> {
    (FuseOutHeader { len: (len % 0x1_0000_0000) as u32, error, unique }).bytes()
}

/// The length of a successful reply: the header, the structure and the
/// bytes.
pub open spec fn reply_len(out: Option<Seq<u8>>, data: Option<Seq<u8>>) -> int {
    FuseOutHeader::SIZE + match out {
        Some(o) => o.len() as int,
        None => 0,
    } + match data {
        Some(d) => d.len() as int,
        None => 0,
    }
}

/// The RAM after writing a reply into the regions `regs`: the header and
/// the structure each as one object, then the bytes across the buffers;
/// `None` where a write fails.
pub open spec fn reply_ram(
    base: int,
    ram: Seq<u8>,
    regs: Seq<(int, int)>,
    hdr: Seq<u8>,
    out: Option<Seq<u8>>,
    data: Option<Seq<u8>>,
) -> Option<Seq<u8>> {
    match wr_obj(base, ram, regs, hdr) {
        None => None,
        Some((ram1, regs1)) => {
            let step = match out {
                None => Some((ram1, regs1)),
                Some(o) => wr_obj(base, ram1, regs1, o),
            };
            match step {
                None => None,
                Some((ram2, regs2)) => match data {
                    None => Some(ram2),
                    Some(d) => match wr_bytes(base, ram2, regs2, d) {
                        None => None,
                        Some((ram3, _)) => Some(ram3),
                    },
                },
            }
        },
    }
}

/// A reply of kind `kind` went into the regions `regs`: on success the
/// RAM is as `reply_ram` says and the result is the reply's length.
pub open spec fn replied<E>(
    regs: Seq<(int, int)>,
    unique: u64,
    old_mem: GuestMemory,
    new_mem: GuestMemory,
    kind: ReplyKind,
    r: Result<usize, E>,
) -> bool {
    &&& new_mem.base == old_mem.base
    &&& match kind {
        ReplyKind::Error(e) => match reply_ram(
            old_mem.base as int,
            old_mem.ram@,
            regs,
            out_header(FuseOutHeader::SIZE as int, errno_value(e), unique),
            None,
            None,
        ) {
            Some(ram) => r == Ok::<usize, E>(FuseOutHeader::SIZE) && new_mem.ram@ == ram,
            None => r is Err,
        },
        ReplyKind::Data(out, data) => match reply_ram(
            old_mem.base as int,
            old_mem.ram@,
            regs,
            out_header(reply_len(out, data), 0, unique),
            out,
            data,
        ) {
            Some(ram) => r == Ok::<usize, E>(reply_len(out, data) as usize) && new_mem.ram@ == ram,
            None => r is Err,
        },
    }
}

/// The reply to one request: where it goes and the request's identifier.
pub struct Reply {
    pub unique: u64,
    pub desc_writer: DescChainWriter,
}

impl Reply {
    /// A well-formed writer that nothing has been written to yet.
    pub open spec fn wf(&self) -> bool {
        self.desc_writer.wf() && self.desc_writer.written_len == 0
    }

    pub fn new(desc_writer: DescChainWriter, unique: u64) -> (r: Reply)
        ensures
            r.desc_writer == desc_writer,
            r.unique == unique,
    {
        Reply { desc_writer, unique }
    }

    /// Writes a successful reply: the header, then `out` as one object,
    /// then `bytes`. Returns the reply's length.
    pub fn do_reply(self, mem: &mut GuestMemory, out: Option<&[u8]>, bytes: Option<&[u8]>) -> (r: Result<
        usize,
        GuestMemoryError,
    >)
        requires
            self.wf(),
            old(mem).wf(),
            out matches Some(o) ==> o@.len() <= 0x1000,
            bytes matches Some(b) ==> b@.len() <= usize::MAX - 0x2000,
        ensures
            final(mem).wf(),
            replied(
                self.desc_writer.regions(),
                self.unique,
                *old(mem),
                *final(mem),
                ReplyKind::Data(
                    match out {
                        Some(o) => Some(o@),
                        None => None,
                    },
                    match bytes {
                        Some(b) => Some(b@),
                        None => None,
                    },
                ),
                r,
            ),
    {
        let mut len: usize = 16;
        if let Some(o) = out {
            len = len + o.len();
        }
        if let Some(b) = bytes {
            len = len + b.len();
        }
        #[verifier::truncate]
        let len32 = len as u32;
        assert(len32 == (len as int) % 0x1_0000_0000) by (bit_vector)
            requires
                len32 == len as u32,
        ;
        let header = FuseOutHeader { len: len32, error: 0, unique: self.unique };
        let mut hdr: Vec<u8> = Vec::new();
        header.encode(&mut hdr);
        let mut writer = self.desc_writer;
        writer.write_obj(mem, hdr.as_slice())?;
        if let Some(o) = out {
            writer.write_obj(mem, o)?;
        }
        if let Some(b) = bytes {
            writer.write_bytes(mem, b)?;
        }
        Ok(len)
    }

    /// Writes an error reply: the header alone, with the error's number.
    pub fn reply_error(self, mem: &mut GuestMemory, error: Errno) -> (r: Result<usize, GuestMemoryError>)
        requires
            self.wf(),
            old(mem).wf(),
        ensures
            final(mem).wf(),
            replied(self.desc_writer.regions(), self.unique, *old(mem), *final(mem), ReplyKind::Error(error), r),
    {
        let header = FuseOutHeader { len: 16, error: error.as_i32(), unique: self.unique };
        let mut hdr: Vec<u8> = Vec::new();
        header.encode(&mut hdr);
        let mut writer = self.desc_writer;
        writer.write_obj(mem, hdr.as_slice())?;
        Ok(16)
    }

    /// Writes a successful reply with nothing after the header.
    pub fn reply_without_data(self, mem: &mut GuestMemory) -> (r: Result<usize, GuestMemoryError>)
        requires
            self.wf(),
            old(mem).wf(),
        ensures
            final(mem).wf(),
            replied(self.desc_writer.regions(), self.unique, *old(mem), *final(mem), ReplyKind::Data(None, None), r),
    {
        self.do_reply(mem, None, None)
    }

    /// Writes a successful reply carrying `out`.
    pub fn reply<T: FuseOut>(self, mem: &mut GuestMemory, out: &T) -> (r: Result<usize, GuestMemoryError>)
        requires
            self.wf(),
            old(mem).wf(),
        ensures
            final(mem).wf(),
            replied(
                self.desc_writer.regions(),
                self.unique,
                *old(mem),
                *final(mem),
                ReplyKind::Data(Some(out.bytes()), None),
                r,
            ),
    {
        let mut bytes: Vec<u8> = Vec::new();
        out.encode(&mut bytes);
        proof {
            out.lemma_bytes_len();
        }
        self.do_reply(mem, Some(bytes.as_slice()), None)
    }
}

/// The outcome of a read: the length of the reply, or why it failed.
pub struct ReadResult(pub Result<usize, Error>);

/// The result of a reply as a read's outcome.
pub open spec fn as_read_result(r: Result<usize, GuestMemoryError>) -> Result<usize, Error> {
    match r {
        Ok(n) => Ok(n),
        Err(e) => Err(Error::GuestMemory(e)),
    }
}

/// Completes a read with the data read, or with an error.
pub struct ReadCompleter(pub Reply);

impl ReadCompleter {
    pub fn error(self, mem: &mut GuestMemory, error: Errno) -> (r: ReadResult)
        requires
            self.0.wf(),
            old(mem).wf(),
        ensures
            final(mem).wf(),
            replied(self.0.desc_writer.regions(), self.0.unique, *old(mem), *final(mem), ReplyKind::Error(error), r.0),
            r.0 matches Err(e) ==> e is GuestMemory,
    {
        let res = self.0.reply_error(mem, error);
        proof {
            assert(replied(self.0.desc_writer.regions(), self.0.unique, *old(mem), *mem, ReplyKind::Error(error), res));
        }
        ReadResult(
            match res {
                Ok(n) => Ok(n),
                Err(e) => Err(Error::GuestMemory(e)),
            },
        )
    }

    pub fn complete(self, mem: &mut GuestMemory, data: &[u8]) -> (r: ReadResult)
        requires
            self.0.wf(),
            old(mem).wf(),
            data@.len() <= usize::MAX - 0x2000,
        ensures
            final(mem).wf(),
            replied(self.0.desc_writer.regions(), self.0.unique, *old(mem), *final(mem), ReplyKind::Data(None, Some(data@)), r.0),
            r.0 matches Err(e) ==> e is GuestMemory,
    {
        let res = self.0.do_reply(mem, None, Some(data));
        proof {
            assert(replied(self.0.desc_writer.regions(), self.0.unique, *old(mem), *mem, ReplyKind::Data(None, Some(data@)), res));
        }
        ReadResult(
            match res {
                Ok(n) => Ok(n),
                Err(e) => Err(Error::GuestMemory(e)),
            },
        )
    }
}

/// Completes a directory read with one entry, with the end of the
/// directory, or with an error.
pub struct ReadDirCompleter(pub Reply);

impl ReadDirCompleter {
    pub fn error(self, mem: &mut GuestMemory, error: Errno) -> (r: ReadResult)
        requires
            self.0.wf(),
            old(mem).wf(),
        ensures
            final(mem).wf(),
            replied(self.0.desc_writer.regions(), self.0.unique, *old(mem), *final(mem), ReplyKind::Error(error), r.0),
            r.0 matches Err(e) ==> e is GuestMemory,
    {
        let res = self.0.reply_error(mem, error);
        proof {
            assert(replied(self.0.desc_writer.regions(), self.0.unique, *old(mem), *mem, ReplyKind::Error(error), res));
        }
        ReadResult(
            match res {
                Ok(n) => Ok(n),
                Err(e) => Err(Error::GuestMemory(e)),
            },
        )
    }

    pub fn complete(self, mem: &mut GuestMemory, dirent: crate::virtio::fuse::FuseDirent, filename: &[u8]) -> (r: ReadResult)
        requires
            self.0.wf(),
            old(mem).wf(),
            filename@.len() <= usize::MAX - 0x2000,
        ensures
            final(mem).wf(),
            replied(
                self.0.desc_writer.regions(),
                self.0.unique,
                *old(mem),
                *final(mem),
                ReplyKind::Data(Some(dirent.bytes()), Some(filename@)),
                r.0,
            ),
            r.0 matches Err(e) ==> e is GuestMemory,
    {
        let mut bytes: Vec<u8> = Vec::new();
        dirent.encode(&mut bytes);
        proof {
            dirent.lemma_bytes_len();
        }
        let res = self.0.do_reply(mem, Some(bytes.as_slice()), Some(filename));
        proof {
            assert(replied(
                self.0.desc_writer.regions(),
                self.0.unique,
                *old(mem),
                *mem,
                ReplyKind::Data(Some(dirent.bytes()), Some(filename@)),
                res,
            ));
        }
        ReadResult(
            match res {
                Ok(n) => Ok(n),
                Err(e) => Err(Error::GuestMemory(e)),
            },
        )
    }

    pub fn complete_with_eof(self, mem: &mut GuestMemory) -> (r: ReadResult)
        requires
            self.0.wf(),
            old(mem).wf(),
        ensures
            final(mem).wf(),
            replied(self.0.desc_writer.regions(), self.0.unique, *old(mem), *final(mem), ReplyKind::Data(None, None), r.0),
            r.0 matches Err(e) ==> e is GuestMemory,
    {
        let res = self.0.do_reply(mem, None, None);
        proof {
            assert(replied(self.0.desc_writer.regions(), self.0.unique, *old(mem), *mem, ReplyKind::Data(None, None), res));
        }
        ReadResult(
            match res {
                Ok(n) => Ok(n),
                Err(e) => Err(Error::GuestMemory(e)),
            },
        )
    }
}

/// The file system as values.
pub struct FsState {
    pub table: Seq<(u64, INodeView)>,
    pub next_fh: u64,
}

/// What a request does: the file system after it, and the reply, or why
/// no reply is written.
pub enum FsOutcome {
    Replied(FsState, ReplyKind),
    Failed(FsState, Error),
}

/// `b` without its trailing zero bytes.
pub open spec fn trim_nuls(b: Seq<u8>) -> Seq<u8>
    decreases b.len(),
{
    if b.len() > 0 && b.last() == 0 {
        trim_nuls(b.drop_last())
    } else {
        b
    }
}

/// The reply to `FUSE_INIT`: the driver's version back, nothing else
/// offered.
pub open spec fn init_out(i: FuseInitIn) -> FuseInitOut {
    FuseInitOut {
        major: i.major,
        minor: i.minor,
        max_readahead: 0,
        flags: 0,
        max_background: 0,
        congestion_threshold: 0,
        max_write: 0,
        time_gran: 0,
        unused: [0u32, 0, 0, 0, 0, 0, 0, 0, 0],
    }
}

/// Where reading the request's body fails, the request fails that way.
pub open spec fn memory_failed(st: FsState) -> FsOutcome {
    FsOutcome::Failed(st, Error::GuestMemory(GuestMemoryError::OutOfRange))
}

/// `FUSE_INIT`: version 7 is accepted, and the driver's version is
/// replied.
pub open spec fn init_request(st: FsState, segs: Seq<Seq<Option<u8>>>) -> FsOutcome {
    match seg_read_obj(segs, FuseInitIn::SIZE as nat) {
        None => memory_failed(st),
        Some((b, _)) => {
            let i = FuseInitIn::from_bytes(b);
            if i.major != 7 {
                FsOutcome::Replied(st, ReplyKind::Error(Errno::TODO))
            } else {
                FsOutcome::Replied(st, ReplyKind::Data(Some(init_out(i).bytes()), None))
            }
        },
    }
}

/// `FUSE_LOOKUP`: the name follows the header, with trailing zero bytes
/// ignored.
pub open spec fn lookup_request(st: FsState, hdr: FuseInHeader, segs: Seq<Seq<Option<u8>>>) -> FsOutcome {
    if hdr.len < FuseInHeader::SIZE {
        FsOutcome::Replied(st, ReplyKind::Error(Errno::TODO))
    } else {
        match seg_read(segs, (hdr.len - FuseInHeader::SIZE) as nat) {
            None => memory_failed(st),
            Some((raw, _)) => match fs_lookup(st.table, hdr.nodeid, trim_nuls(raw)) {
                Ok(e) => FsOutcome::Replied(st, ReplyKind::Data(Some(e.bytes()), None)),
                Err(FsError::Errno(e)) => FsOutcome::Replied(st, ReplyKind::Error(e)),
                Err(FsError::Unimplemented) => FsOutcome::Failed(st, Error::Unimplemented),
            },
        }
    }
}

/// `FUSE_OPEN`: a known inode gets the next file handle.
pub open spec fn open_request(st: FsState, hdr: FuseInHeader, segs: Seq<Seq<Option<u8>>>) -> FsOutcome {
    match seg_read_obj(segs, FuseOpenIn::SIZE as nat) {
        None => memory_failed(st),
        Some(_) => if inode_at(st.table, hdr.nodeid) == -1 {
            FsOutcome::Replied(st, ReplyKind::Error(Errno::TODO))
        } else {
            FsOutcome::Replied(
                FsState { next_fh: (if st.next_fh == u64::MAX { 0 } else { (st.next_fh + 1) as u64 }), ..st },
                ReplyKind::Data(Some((FuseOpenOut { fh: st.next_fh, open_flags: 0, padding: 0 }).bytes()), None),
            )
        },
    }
}

/// `FUSE_GETATTR`: the attributes of a known inode, with its number.
pub open spec fn getattr_request(st: FsState, hdr: FuseInHeader, segs: Seq<Seq<Option<u8>>>) -> FsOutcome {
    match seg_read_obj(segs, FuseGetAttrIn::SIZE as nat) {
        None => memory_failed(st),
        Some(_) => {
            let i = inode_at(st.table, hdr.nodeid);
            if i == -1 {
                FsOutcome::Replied(st, ReplyKind::Error(Errno::TODO))
            } else {
                FsOutcome::Replied(
                    st,
                    ReplyKind::Data(
                        Some(
                            (FuseGetAttrOut {
                                attr_valid: 0,
                                attr_valid_nsec: 0,
                                dummy: 0,
                                attr: FuseAttr { ino: hdr.nodeid, ..crate::fs::inode_attr(st.table[i].1) },
                            }).bytes(),
                        ),
                        None,
                    ),
                )
            }
        },
    }
}

/// `FUSE_FLUSH` and `FUSE_RELEASE`: nothing to do but reply, once the body
/// of `n` bytes is read.
pub open spec fn empty_request(st: FsState, segs: Seq<Seq<Option<u8>>>, n: nat) -> FsOutcome {
    match seg_read_obj(segs, n) {
        None => memory_failed(st),
        Some(_) => FsOutcome::Replied(st, ReplyKind::Data(None, None)),
    }
}

/// `FUSE_READ`: the inode's data.
pub open spec fn read_request(st: FsState, hdr: FuseInHeader, segs: Seq<Seq<Option<u8>>>) -> FsOutcome {
    match seg_read_obj(segs, FuseReadIn::SIZE as nat) {
        None => memory_failed(st),
        Some((b, _)) => {
            let ri = FuseReadIn::from_bytes(b);
            match fs_read(st.table, hdr.nodeid, ri.offset, ri.size) {
                None => FsOutcome::Failed(st, Error::Unimplemented),
                Some(kind) => FsOutcome::Replied(st, kind),
            }
        },
    }
}

/// `FUSE_WRITE`: the data follows the request structure; its length is
/// the request's size less the structure's size.
pub open spec fn write_request(st: FsState, hdr: FuseInHeader, segs: Seq<Seq<Option<u8>>>) -> FsOutcome {
    match seg_read_obj(segs, FuseWriteIn::SIZE as nat) {
        None => memory_failed(st),
        Some((b, rest)) => {
            let wi = FuseWriteIn::from_bytes(b);
            if wi.size < FuseWriteIn::SIZE {
                FsOutcome::Replied(st, ReplyKind::Error(Errno::TODO))
            } else {
                match seg_read(rest, (wi.size - FuseWriteIn::SIZE) as nat) {
                    None => memory_failed(st),
                    Some((data, _)) => {
                        let i = inode_at(st.table, hdr.nodeid);
                        if i == -1 {
                            FsOutcome::Replied(st, ReplyKind::Error(Errno::TODO))
                        } else {
                            let n = st.table[i].1;
                            let st2 = FsState {
                                table: st.table.update(i, (hdr.nodeid, inode_written(n, data))),
                                ..st
                            };
                            match inode_write_result(n, data) {
                                Ok(size) => FsOutcome::Replied(
                                    st2,
                                    ReplyKind::Data(Some((FuseWriteOut { size, padding: 0 }).bytes()), None),
                                ),
                                Err(FsError::Errno(e)) => FsOutcome::Replied(st2, ReplyKind::Error(e)),
                                Err(FsError::Unimplemented) => FsOutcome::Failed(st2, Error::Unimplemented),
                            }
                        }
                    },
                }
            }
        },
    }
}

/// What a request with header `hdr` and body in `segs` does to the file
/// system `st`, for the operations the device serves.
pub open spec fn fs_request(st: FsState, hdr: FuseInHeader, segs: Seq<Seq<Option<u8>>>) -> FsOutcome {
    if hdr.opcode == FUSE_INIT {
        init_request(st, segs)
    } else if hdr.opcode == FUSE_LOOKUP {
        lookup_request(st, hdr, segs)
    } else if hdr.opcode == FUSE_OPEN {
        open_request(st, hdr, segs)
    } else if hdr.opcode == FUSE_GETATTR {
        getattr_request(st, hdr, segs)
    } else if hdr.opcode == FUSE_FLUSH {
        empty_request(st, segs, FuseFlushIn::SIZE as nat)
    } else if hdr.opcode == FUSE_RELEASE {
        empty_request(st, segs, FuseReleaseIn::SIZE as nat)
    } else if hdr.opcode == FUSE_READ {
        read_request(st, hdr, segs)
    } else {
        write_request(st, hdr, segs)
    }
}

/// Whether the device serves requests with this opcode.
pub open spec fn served_opcode(op: u32) -> bool {
    op == FUSE_INIT || op == FUSE_LOOKUP || op == FUSE_OPEN || op == FUSE_GETATTR || op == FUSE_FLUSH
        || op == FUSE_RELEASE || op == FUSE_READ || op == FUSE_WRITE
}

/// A request went as `outcome` says: the file system is `fs`, and the
/// reply is written or the failure returned.
pub open spec fn request_done(
    outcome: FsOutcome,
    fs: FsState,
    regs: Seq<(int, int)>,
    unique: u64,
    old_mem: GuestMemory,
    new_mem: GuestMemory,
    r: Result<usize, Error>,
) -> bool {
    match outcome {
        FsOutcome::Failed(st, e) => fs == st && r == Err::<usize, Error>(e) && new_mem == old_mem,
        FsOutcome::Replied(st, kind) => fs == st && replied(regs, unique, old_mem, new_mem, kind, r)
            && (r matches Err(e) ==> e is GuestMemory),
    }
}

/// The virtio-fs device, with the file system it serves.
pub struct VirtioFs {
    pub fs: FileSystem,
}

impl VirtioFs {
    pub fn new(fs: FileSystem) -> (r: VirtioFs)
        ensures
            r.fs == fs,
    {
        VirtioFs { fs }
    }

    pub open spec fn state(&self) -> FsState {
        FsState { table: self.fs.table(), next_fh: self.fs.next_fh }
    }

    /// Answers `FUSE_INIT`.
    #[verifier::rlimit(40)]
    fn do_init(&mut self, mem: &mut GuestMemory, hdr: &FuseInHeader, reader: &mut DescChainReader, reply: Reply) -> (r: Result<
        usize,
        Error,
    >)
        requires
            old(self).fs.wf(),
            old(reader).wf(),
            reply.wf(),
            old(mem).wf(),
        ensures
            final(self).fs.wf(),
            final(mem).wf(),
            request_done(
                init_request(old(self).state(), old(reader).segments(&*old(mem))),
                final(self).state(),
                reply.desc_writer.regions(),
                reply.unique,
                *old(mem),
                *final(mem),
                r,
            ),
    {
        let b = match reader.read_obj(mem, FuseInitIn::SIZE) {
            Ok(b) => b,
            Err(e) => return Err(Error::GuestMemory(e)),
        };
        let init_in = FuseInitIn::decode(b.as_slice());
        if init_in.major != 7 {
            return as_error(reply.reply_error(mem, Errno::TODO));
        }
        let out = FuseInitOut {
            major: init_in.major,
            minor: init_in.minor,
            max_readahead: 0,
            flags: 0,
            max_background: 0,
            congestion_threshold: 0,
            max_write: 0,
            time_gran: 0,
            unused: [0u32, 0, 0, 0, 0, 0, 0, 0, 0],
        };
        proof {
            assert(out.unused@ =~= init_out(init_in).unused@);
            assert(out == init_out(init_in));
        }
        as_error(reply.reply(mem, &out))
    }

    /// Answers `FUSE_LOOKUP`.
    #[verifier::rlimit(40)]
    fn do_lookup(&mut self, mem: &mut GuestMemory, hdr: &FuseInHeader, reader: &mut DescChainReader, reply: Reply) -> (r: Result<
        usize,
        Error,
    >)
        requires
            old(self).fs.wf(),
            old(reader).wf(),
            reply.wf(),
            old(mem).wf(),
        ensures
            final(self).fs.wf(),
            final(mem).wf(),
            request_done(
                lookup_request(old(self).state(), *hdr, old(reader).segments(&*old(mem))),
                final(self).state(),
                reply.desc_writer.regions(),
                reply.unique,
                *old(mem),
                *final(mem),
                r,
            ),
    {
        if hdr.len < 40 {
            return as_error(reply.reply_error(mem, Errno::TODO));
        }
        let raw = match reader.read_zerocopy(mem, (hdr.len - 40) as usize) {
            Ok(b) => b,
            Err(e) => return Err(Error::GuestMemory(e)),
        };
        let filename = trim_trailing_nuls(raw.as_slice());
        match self.fs.lookup(INodeNo::new(hdr.nodeid), filename.as_slice()) {
            Ok(out) => as_error(reply.reply(mem, &out)),
            Err(FsError::Errno(e)) => as_error(reply.reply_error(mem, e)),
            Err(FsError::Unimplemented) => Err(Error::Unimplemented),
        }
    }

    /// Answers `FUSE_OPEN`.
    fn do_open(&mut self, mem: &mut GuestMemory, hdr: &FuseInHeader, reader: &mut DescChainReader, reply: Reply) -> (r: Result<
        usize,
        Error,
    >)
        requires
            old(self).fs.wf(),
            old(reader).wf(),
            reply.wf(),
            old(mem).wf(),
        ensures
            final(self).fs.wf(),
            final(mem).wf(),
            request_done(
                open_request(old(self).state(), *hdr, old(reader).segments(&*old(mem))),
                final(self).state(),
                reply.desc_writer.regions(),
                reply.unique,
                *old(mem),
                *final(mem),
                r,
            ),
    {
        let b = match reader.read_obj(mem, FuseOpenIn::SIZE) {
            Ok(b) => b,
            Err(e) => return Err(Error::GuestMemory(e)),
        };
        let open_in = FuseOpenIn::decode(b.as_slice());
        match self.fs.open(INodeNo::new(hdr.nodeid), open_in) {
            Ok(out) => as_error(reply.reply(mem, &out)),
            Err(FsError::Errno(e)) => as_error(reply.reply_error(mem, e)),
            Err(FsError::Unimplemented) => Err(Error::Unimplemented),
        }
    }

    /// Answers `FUSE_GETATTR`.
    fn do_getattr(&mut self, mem: &mut GuestMemory, hdr: &FuseInHeader, reader: &mut DescChainReader, reply: Reply) -> (r: Result<
        usize,
        Error,
    >)
        requires
            old(self).fs.wf(),
            old(reader).wf(),
            reply.wf(),
            old(mem).wf(),
        ensures
            final(self).fs.wf(),
            final(mem).wf(),
            request_done(
                getattr_request(old(self).state(), *hdr, old(reader).segments(&*old(mem))),
                final(self).state(),
                reply.desc_writer.regions(),
                reply.unique,
                *old(mem),
                *final(mem),
                r,
            ),
    {
        let b = match reader.read_obj(mem, FuseGetAttrIn::SIZE) {
            Ok(b) => b,
            Err(e) => return Err(Error::GuestMemory(e)),
        };
        let getattr_in = FuseGetAttrIn::decode(b.as_slice());
        match self.fs.getattr(INodeNo::new(hdr.nodeid), getattr_in) {
            Ok(out) => as_error(reply.reply(mem, &out)),
            Err(FsError::Errno(e)) => as_error(reply.reply_error(mem, e)),
            Err(FsError::Unimplemented) => Err(Error::Unimplemented),
        }
    }

    /// Answers `FUSE_FLUSH`.
    fn do_flush(&mut self, mem: &mut GuestMemory, hdr: &FuseInHeader, reader: &mut DescChainReader, reply: Reply) -> (r: Result<
        usize,
        Error,
    >)
        requires
            old(self).fs.wf(),
            old(reader).wf(),
            reply.wf(),
            old(mem).wf(),
        ensures
            final(self).fs.wf(),
            final(mem).wf(),
            request_done(
                empty_request(old(self).state(), old(reader).segments(&*old(mem)), FuseFlushIn::SIZE as nat),
                final(self).state(),
                reply.desc_writer.regions(),
                reply.unique,
                *old(mem),
                *final(mem),
                r,
            ),
    {
        let b = match reader.read_obj(mem, FuseFlushIn::SIZE) {
            Ok(b) => b,
            Err(e) => return Err(Error::GuestMemory(e)),
        };
        let flush_in = FuseFlushIn::decode(b.as_slice());
        match self.fs.flush(INodeNo::new(hdr.nodeid), flush_in) {
            Ok(()) => as_error(reply.reply_without_data(mem)),
            Err(FsError::Errno(e)) => as_error(reply.reply_error(mem, e)),
            Err(FsError::Unimplemented) => Err(Error::Unimplemented),
        }
    }

    /// Answers `FUSE_RELEASE`.
    fn do_release(&mut self, mem: &mut GuestMemory, hdr: &FuseInHeader, reader: &mut DescChainReader, reply: Reply) -> (r: Result<
        usize,
        Error,
    >)
        requires
            old(self).fs.wf(),
            old(reader).wf(),
            reply.wf(),
            old(mem).wf(),
        ensures
            final(self).fs.wf(),
            final(mem).wf(),
            request_done(
                empty_request(old(self).state(), old(reader).segments(&*old(mem)), FuseReleaseIn::SIZE as nat),
                final(self).state(),
                reply.desc_writer.regions(),
                reply.unique,
                *old(mem),
                *final(mem),
                r,
            ),
    {
        let b = match reader.read_obj(mem, FuseReleaseIn::SIZE) {
            Ok(b) => b,
            Err(e) => return Err(Error::GuestMemory(e)),
        };
        let release_in = FuseReleaseIn::decode(b.as_slice());
        match self.fs.release(INodeNo::new(hdr.nodeid), release_in) {
            Ok(()) => as_error(reply.reply_without_data(mem)),
            Err(FsError::Errno(e)) => as_error(reply.reply_error(mem, e)),
            Err(FsError::Unimplemented) => Err(Error::Unimplemented),
        }
    }

    /// Answers `FUSE_READ`.
    fn do_read(&mut self, mem: &mut GuestMemory, hdr: &FuseInHeader, reader: &mut DescChainReader, reply: Reply) -> (r: Result<
        usize,
        Error,
    >)
        requires
            old(self).fs.wf(),
            old(reader).wf(),
            reply.wf(),
            old(mem).wf(),
        ensures
            final(self).fs.wf(),
            final(mem).wf(),
            request_done(
                read_request(old(self).state(), *hdr, old(reader).segments(&*old(mem))),
                final(self).state(),
                reply.desc_writer.regions(),
                reply.unique,
                *old(mem),
                *final(mem),
                r,
            ),
    {
        let b = match reader.read_obj(mem, FuseReadIn::SIZE) {
            Ok(b) => b,
            Err(e) => return Err(Error::GuestMemory(e)),
        };
        let read_in = FuseReadIn::decode(b.as_slice());
        let result = self.fs.read(mem, INodeNo::new(hdr.nodeid), read_in, ReadCompleter(reply));
        result.0
    }

    /// Answers `FUSE_WRITE`.
    fn do_write(&mut self, mem: &mut GuestMemory, hdr: &FuseInHeader, reader: &mut DescChainReader, reply: Reply) -> (r: Result<
        usize,
        Error,
    >)
        requires
            old(self).fs.wf(),
            old(reader).wf(),
            reply.wf(),
            old(mem).wf(),
        ensures
            final(self).fs.wf(),
            final(mem).wf(),
            request_done(
                write_request(old(self).state(), *hdr, old(reader).segments(&*old(mem))),
                final(self).state(),
                reply.desc_writer.regions(),
                reply.unique,
                *old(mem),
                *final(mem),
                r,
            ),
    {
        let b = match reader.read_obj(mem, FuseWriteIn::SIZE) {
            Ok(b) => b,
            Err(e) => return Err(Error::GuestMemory(e)),
        };
        let write_in = FuseWriteIn::decode(b.as_slice());
        if write_in.size < 40 {
            return as_error(reply.reply_error(mem, Errno::TODO));
        }
        let data = match reader.read_zerocopy(mem, (write_in.size - 40) as usize) {
            Ok(d) => d,
            Err(e) => return Err(Error::GuestMemory(e)),
        };
        match self.fs.write(INodeNo::new(hdr.nodeid), write_in, data.as_slice()) {
            Ok(out) => as_error(reply.reply(mem, &out)),
            Err(FsError::Errno(e)) => as_error(reply.reply_error(mem, e)),
            Err(FsError::Unimplemented) => Err(Error::Unimplemented),
        }
    }

    /// Serves one request whose header has been read; the body follows in
    /// `reader`.
    fn serve(&mut self, mem: &mut GuestMemory, hdr: &FuseInHeader, reader: &mut DescChainReader, reply: Reply) -> (r: Result<
        usize,
        Error,
    >)
        requires
            old(self).fs.wf(),
            old(reader).wf(),
            reply.wf(),
            old(mem).wf(),
        ensures
            final(self).fs.wf(),
            final(mem).wf(),
            request_done(
                fs_request(old(self).state(), *hdr, old(reader).segments(&*old(mem))),
                final(self).state(),
                reply.desc_writer.regions(),
                reply.unique,
                *old(mem),
                *final(mem),
                r,
            ),
    {
        if hdr.opcode == FUSE_INIT {
            self.do_init(mem, hdr, reader, reply)
        } else if hdr.opcode == FUSE_LOOKUP {
            self.do_lookup(mem, hdr, reader, reply)
        } else if hdr.opcode == FUSE_OPEN {
            self.do_open(mem, hdr, reader, reply)
        } else if hdr.opcode == FUSE_GETATTR {
            self.do_getattr(mem, hdr, reader, reply)
        } else if hdr.opcode == FUSE_FLUSH {
            self.do_flush(mem, hdr, reader, reply)
        } else if hdr.opcode == FUSE_RELEASE {
            self.do_release(mem, hdr, reader, reply)
        } else if hdr.opcode == FUSE_READ {
            self.do_read(mem, hdr, reader, reply)
        } else {
            self.do_write(mem, hdr, reader, reply)
        }
    }
}

/// A reply's result as a request's result.
fn as_error(r: Result<usize, GuestMemoryError>) -> (out: Result<usize, Error>)
    ensures
        out == as_read_result(r),
{
    match r {
        Ok(n) => Ok(n),
        Err(e) => Err(Error::GuestMemory(e)),
    }
}

/// `b` without its trailing zero bytes.
fn trim_trailing_nuls(b: &[u8]) -> (r: Vec<u8>)
    ensures
        r@ == trim_nuls(b@),
{
    let mut end = b.len();
    assert(b@.take(end as int) =~= b@);
    while end > 0 && b[end - 1] == 0
        invariant
            end <= b@.len(),
            trim_nuls(b@) == trim_nuls(b@.take(end as int)),
        decreases end,
    {
        proof {
            assert(b@.take(end as int).drop_last() =~= b@.take(end - 1));
        }
        end -= 1;
    }
    let r = vstd::slice::slice_to_vec(vstd::slice::slice_subrange(b, 0, end));
    proof {
        assert(b@.subrange(0, end as int) =~= b@.take(end as int));
    }
    r
}

/// A reply went into guest memory `m1` with result `res`, and the chain
/// went back to the guest with the reply's length where it was written.
pub open spec fn answered(
    kind: ReplyKind,
    regs: Seq<(int, int)>,
    unique: u64,
    head: u16,
    vq: Virtqueue,
    mem: GuestMemory,
    m1: GuestMemory,
    res: Result<usize, GuestMemoryError>,
    vq2: Virtqueue,
    mem2: GuestMemory,
) -> bool {
    &&& replied(regs, unique, mem, m1, kind, res)
    &&& match res {
        Ok(n) => used_pushed(vq, m1, head, ((n as int) % 0x1_0000_0000) as u32, vq2, mem2),
        Err(_) => vq2 == vq && mem2 == m1,
    }
}

/// Serving a chain went as `outcome` says.
pub open spec fn served(
    outcome: FsOutcome,
    fs: FsState,
    regs: Seq<(int, int)>,
    unique: u64,
    head: u16,
    vq: Virtqueue,
    mem: GuestMemory,
    vq2: Virtqueue,
    mem2: GuestMemory,
    r: Result<Vec<DeviceEvent>, DeviceError>,
) -> bool {
    match outcome {
        FsOutcome::Failed(st, Error::Unimplemented) => fs == st && r == Err::<Vec<DeviceEvent>, DeviceError>(
            DeviceError::Unimplemented,
        ),
        FsOutcome::Failed(st, Error::GuestMemory(_)) => fs == st && r is Ok && r->Ok_0@.len() == 0 && vq2 == vq
            && mem2 == mem,
        FsOutcome::Replied(st, kind) => fs == st && r is Ok && r->Ok_0@.len() == 0 && exists|
            m1: GuestMemory,
            res: Result<usize, GuestMemoryError>,
        | #[trigger] answered(kind, regs, unique, head, vq, mem, m1, res, vq2, mem2),
    }
}

/// The configuration space: the tag `virtfs` padded with zeros to 36
/// bytes, one request queue, no notification buffer.
pub open spec fn fs_config_bytes() -> Seq<u8> {
    seq![0x76u8, 0x69, 0x72, 0x74, 0x66, 0x73] + Seq::new(30, |i: int| 0u8) + seq![1u8, 0, 0, 0]
        + seq![0u8, 0, 0, 0]
}

/// Reading the configuration space at `offset` into `dst`: as many bytes
/// as fit from `offset` on, at the start of `dst`; past the end nothing.
pub open spec fn fs_config(offset: u64, dst: Seq<u8>) -> Seq<u8> {
    let cfg = fs_config_bytes();
    if offset >= cfg.len() {
        dst
    } else {
        let n = if dst.len() < cfg.len() - offset { dst.len() as int } else { cfg.len() - offset };
        Seq::new(dst.len(), |j: int| if j < n { cfg[offset + j] } else { dst[j] })
    }
}

/// The device ID of a file-system device.
pub const VIRTIO_FS_DEVICE_ID: u32 = 26;

impl VirtioFs {
    /// Serves one chain: reads the request's header and answers requests
    /// of the operations it serves; a request with another operation, or
    /// whose header cannot be read, is dropped.
    pub fn process_chain(&mut self, mem: &mut GuestMemory, vq: &mut Virtqueue, chain: DescChain) -> (r: Result<
        Vec<DeviceEvent>,
        DeviceError,
    >)
        requires
            old(self).fs.wf(),
            old(mem).wf(),
            old(vq).wf(),
            old(vq).fits(),
        ensures
            final(self).fs.wf(),
            final(mem).wf(),
            final(mem).base == old(mem).base,
            final(vq).wf(),
            final(vq).index == old(vq).index,
            final(vq).num_descs == old(vq).num_descs,
            final(vq).desc_gpaddr == old(vq).desc_gpaddr,
            final(vq).avail_gpaddr == old(vq).avail_gpaddr,
            final(vq).used_gpaddr == old(vq).used_gpaddr,
            match chain_from(&*old(mem), old(vq).desc_gpaddr.0 as int, chain.head as int, DESC_CHAIN_LEN_MAX as nat) {
                None => r == Err::<Vec<DeviceEvent>, DeviceError>(DeviceError::DescChain(GuestMemoryError::OutOfRange))
                    && *final(vq) == *old(vq) && *final(mem) == *old(mem) && final(self).state() == old(self).state(),
                Some(descs) => match seg_read_obj(chain_segments(&*old(mem), readable_of(descs)), FuseInHeader::SIZE as nat) {
                    None => r is Ok && r->Ok_0@.len() == 0 && *final(vq) == *old(vq) && *final(mem) == *old(mem)
                        && final(self).state() == old(self).state(),
                    Some((h, rest)) => if !served_opcode(FuseInHeader::from_bytes(h).opcode) {
                        r is Ok && r->Ok_0@.len() == 0 && *final(vq) == *old(vq) && *final(mem) == *old(mem)
                            && final(self).state() == old(self).state()
                    } else {
                        served(
                            fs_request(old(self).state(), FuseInHeader::from_bytes(h), rest),
                            final(self).state(),
                            chain_regions(writable_of(descs)),
                            FuseInHeader::from_bytes(h).unique,
                            chain.head,
                            *old(vq),
                            *old(mem),
                            *final(vq),
                            *final(mem),
                            r,
                        )
                    },
                },
            },
    {
        let (mut reader, writer) = match chain.split(vq, mem) {
            Ok(rw) => rw,
            Err(e) => return Err(DeviceError::DescChain(e)),
        };
        proof {
            assert(reader.segments(mem) =~= chain_segments(mem, reader.descs@));
            assert(writer.regions() =~= chain_regions(writer.descs@));
        }
        let h = match reader.read_obj(mem, FuseInHeader::SIZE) {
            Ok(h) => h,
            Err(_) => return Ok(Vec::new()),
        };
        let hdr = FuseInHeader::decode(h.as_slice());
        let op = hdr.opcode;
        if !(op == FUSE_INIT || op == FUSE_LOOKUP || op == FUSE_OPEN || op == FUSE_GETATTR || op == FUSE_FLUSH
            || op == FUSE_RELEASE || op == FUSE_READ || op == FUSE_WRITE) {
            return Ok(Vec::new());
        }
        let ghost m0 = *mem;
        let ghost q0 = *vq;
        let ghost segs = reader.segments(mem);
        let ghost regs = writer.regions();
        let reply = Reply::new(writer, hdr.unique);
        let result = self.serve(mem, &hdr, &mut reader, reply);
        let ghost m1 = *mem;
        let ghost res = match result {
            Ok(n) => Ok::<usize, GuestMemoryError>(n),
            Err(Error::GuestMemory(e)) => Err(e),
            Err(Error::Unimplemented) => Err(GuestMemoryError::OutOfRange),
        };
        match result {
            Ok(len) => {
                let len64 = len as u64;
                #[verifier::truncate]
                let len32 = len64 as u32;
                assert(len32 == len64 % 0x1_0000_0000) by (bit_vector)
                    requires
                        len32 == len64 as u32,
                ;
                vq.push_used(mem, chain, len32);
            },
            Err(Error::GuestMemory(_)) => {},
            Err(Error::Unimplemented) => {
                return Err(DeviceError::Unimplemented);
            },
        }
        proof {
            if let FsOutcome::Replied(st, kind) = fs_request(old(self).state(), hdr, segs) {
                assert(answered(kind, regs, hdr.unique, chain.head, q0, m0, m1, res, *vq, *mem));
            }
        }
        Ok(Vec::new())
    }
}

impl VirtioFs {
    /// Reads the configuration space at `offset` into `dst`.
    pub fn read_config(&self, offset: u64, dst: &mut Vec<u8>)
        ensures
            final(dst)@ == fs_config(offset, old(dst)@),
    {
        let mut cfg: Vec<u8> = Vec::new();
        cfg.push(0x76);
        cfg.push(0x69);
        cfg.push(0x72);
        cfg.push(0x74);
        cfg.push(0x66);
        cfg.push(0x73);
        let mut z: usize = 0;
        while z < 30
            invariant
                z <= 30,
                cfg@ == seq![0x76u8, 0x69, 0x72, 0x74, 0x66, 0x73] + Seq::new(z as nat, |i: int| 0u8),
            decreases 30 - z,
        {
            cfg.push(0);
            z += 1;
            proof {
                assert(cfg@ =~= seq![0x76u8, 0x69, 0x72, 0x74, 0x66, 0x73] + Seq::new(z as nat, |i: int| 0u8));
            }
        }
        crate::bytes::push_le32(&mut cfg, 1);
        crate::bytes::push_le32(&mut cfg, 0);
        proof {
            assert(cfg@ =~= fs_config_bytes());
        }
        if offset >= 44 {
            return;
        }
        let start = offset as usize;
        let copy_len = if dst.len() < 44 - start {
            dst.len()
        } else {
            44 - start
        };
        let ghost d0 = dst@;
        let mut i: usize = 0;
        while i < copy_len
            invariant
                i <= copy_len,
                copy_len <= d0.len(),
                start + copy_len <= 44,
                cfg@ == fs_config_bytes(),
                dst@.len() == d0.len(),
                forall|j: int| 0 <= j < i ==> dst@[j] == cfg@[start + j],
                forall|j: int| i <= j < d0.len() ==> dst@[j] == d0[j],
            decreases copy_len - i,
        {
            dst.set(i, cfg[start + i]);
            i += 1;
        }
        proof {
            assert(dst@ =~= fs_config(offset, d0));
        }
    }
}

impl VirtioDevice for VirtioFs {
    open spec fn inv(&self) -> bool {
        self.fs.wf()
    }

    open spec fn spec_num_queues(&self) -> u32 {
        3
    }

    open spec fn spec_device_features(&self) -> u64 {
        0
    }

    open spec fn spec_device_id(&self) -> u32 {
        VIRTIO_FS_DEVICE_ID
    }

    open spec fn spec_vendor_id(&self) -> u32 {
        0
    }

    open spec fn spec_config(&self, offset: u64, dst: Seq<u8>) -> Option<Seq<u8>> {
        Some(fs_config(offset, dst))
    }

    fn num_queues(&self) -> (r: u32) {
        3
    }

    fn device_features(&self) -> (r: u64) {
        0
    }

    fn device_id(&self) -> (r: u32) {
        VIRTIO_FS_DEVICE_ID
    }

    fn vendor_id(&self) -> (r: u32) {
        0
    }

    fn config_read(&self, offset: u64, dst: &mut Vec<u8>) -> (r: Result<(), DeviceError>) {
        self.read_config(offset, dst);
        Ok(())
    }

    open spec fn chain_served(
        &self,
        new: &Self,
        m0: GuestMemory,
        m1: GuestMemory,
        q0: Virtqueue,
        q1: Virtqueue,
        chain: DescChain,
        r: Result<Vec<DeviceEvent>, DeviceError>,
    ) -> bool {
        match chain_from(&m0, q0.desc_gpaddr.0 as int, chain.head as int, DESC_CHAIN_LEN_MAX as nat) {
            None => r == Err::<Vec<DeviceEvent>, DeviceError>(DeviceError::DescChain(GuestMemoryError::OutOfRange))
                && q1 == q0 && m1 == m0 && new.state() == self.state(),
            Some(descs) => match seg_read_obj(chain_segments(&m0, readable_of(descs)), FuseInHeader::SIZE as nat) {
                None => r is Ok && r->Ok_0@.len() == 0 && q1 == q0 && m1 == m0
                    && new.state() == self.state(),
                Some((h, rest)) => if !served_opcode(FuseInHeader::from_bytes(h).opcode) {
                    r is Ok && r->Ok_0@.len() == 0 && q1 == q0 && m1 == m0
                        && new.state() == self.state()
                } else {
                    served(
                        fs_request(self.state(), FuseInHeader::from_bytes(h), rest),
                        new.state(),
                        chain_regions(writable_of(descs)),
                        FuseInHeader::from_bytes(h).unique,
                        chain.head,
                        q0,
                        m0,
                        q1,
                        m1,
                        r,
                    )
                },
            },
        }
    }

    fn process(&mut self, mem: &mut GuestMemory, vq: &mut Virtqueue, chain: DescChain) -> (r: Result<
        Vec<DeviceEvent>,
        DeviceError,
    >)
        ensures
            final(self).fs.wf(),
            final(mem).wf(),
            final(mem).base == old(mem).base,
            final(vq).wf(),
            final(vq).index == old(vq).index,
            final(vq).num_descs == old(vq).num_descs,
            final(vq).desc_gpaddr == old(vq).desc_gpaddr,
            final(vq).avail_gpaddr == old(vq).avail_gpaddr,
            final(vq).used_gpaddr == old(vq).used_gpaddr,
    {
        self.process_chain(mem, vq, chain)
    }
}

} // verus!
