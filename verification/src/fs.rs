//! The file system the guest mounts over virtio-fs: a root directory of
//! files that the host gives the command, such as its standard input and
//! output.

use vstd::prelude::*;
use vstd::string::StringSliceAdditionalSpecFns;
use crate::guest_memory::GuestMemory;
use crate::virtio::fs::{replied, Error, ReadCompleter, ReadDirCompleter, ReadResult, ReplyKind};
use crate::virtio::fuse::{
    Errno, FuseAttr, FuseDirent, FuseEntryOut, FuseFlushIn, FuseGetAttrIn, FuseGetAttrOut, FuseOpenIn,
    FuseOpenOut, FuseOut, FuseReadIn, FuseReleaseIn, FuseWriteIn, FuseWriteOut,
};

verus! {

/// An inode number.
#[derive(Debug, Clone, Copy, PartialEq, Eq, Hash, Structural)]
pub struct INodeNo(pub u64);

impl INodeNo {
    pub fn new(id: u64) -> (r: INodeNo)
        ensures
            r.0 == id,
    {
        INodeNo(id)
    }

    /// The root directory, `FUSE_ROOT_ID`.
    pub fn root_dir() -> (r: INodeNo)
        ensures
            r.0 == 1,
    {
        INodeNo(1)
    }
}

/// The mode of a regular file readable by all and writable by its owner.
pub const MODE_REGULAR_FILE: u32 = 0o100644;

/// The mode of a directory that all can read and enter.
pub const MODE_DIRECTORY: u32 = 0o40755;

/// The directory-entry type of a regular file.
pub const DT_REG: u32 = 0x08;

/// Why a file-system operation failed.
#[derive(Debug, Clone, Copy, PartialEq, Eq)]
pub enum FsError {
    /// The operation failed with this error, which goes back to the guest.
    Errno(Errno),
    /// The operation is not implemented for this kind of node.
    Unimplemented,
}

/// A file whose content is given up front; the guest can only read it.
pub struct BufferedStdin(pub Vec<u8>);

impl BufferedStdin {
    pub fn new(text: Vec<u8>) -> (r: BufferedStdin)
        ensures
            r.0@ == text@,
    {
        BufferedStdin(text)
    }
}

/// A file that collects what the guest writes to it.
pub struct BufferedStdout(pub Vec<u8>);

impl BufferedStdout {
    pub fn new() -> (r: BufferedStdout)
        ensures
            r.0@ == Seq::<u8>::empty(),
    {
        BufferedStdout(Vec::new())
    }

    /// What the guest has written so far.
    pub fn buffer(&self) -> (r: &Vec<u8>)
        ensures
            r@ == self.0@,
    {
        &self.0
    }
}

/// A file of the root directory.
pub enum FileLike {
    Stdin(BufferedStdin),
    Stdout(BufferedStdout),
}

/// A file as values.
pub enum FileView {
    Stdin(Seq<u8>),
    Stdout(Seq<u8>),
}

impl FileLike {
    pub open spec fn view(&self) -> FileView {
        match self {
            FileLike::Stdin(f) => FileView::Stdin(f.0@),
            FileLike::Stdout(f) => FileView::Stdout(f.0@),
        }
    }

    /// The size the file reports: the length of an input, 0 for an output.
    pub fn size(&self) -> (r: usize)
        ensures
            r == file_size(self@),
    {
        match self {
            FileLike::Stdin(f) => f.0.len(),
            FileLike::Stdout(_) => 0,
        }
    }

    /// Reads up to `size` bytes at `offset` and completes the read with
    /// them; an offset past the end of the input is refused. An output
    /// cannot be read.
    pub fn read_at(&self, mem: &mut GuestMemory, offset: usize, size: usize, completer: ReadCompleter) -> (r: ReadResult)
        requires
            completer.0.wf(),
            old(mem).wf(),
            file_fits(self@),
        ensures
            final(mem).wf(),
            read_done(
                file_read(self@, offset as int, size as int),
                completer.0.desc_writer.regions(),
                completer.0.unique,
                *old(mem),
                *final(mem),
                r.0,
            ),
    {
        match self {
            FileLike::Stdin(f) => {
                if offset > f.0.len() {
                    return completer.error(mem, Errno::EINVAL);
                }
                let read_len = if size < f.0.len() - offset {
                    size
                } else {
                    f.0.len() - offset
                };
                let slice = vstd::slice::slice_subrange(f.0.as_slice(), offset, offset + read_len);
                completer.complete(mem, slice)
            },
            FileLike::Stdout(_) => ReadResult(Err(Error::Unimplemented)),
        }
    }

    /// Writes `data`: an input refuses it, an output appends it whatever
    /// the offset.
    pub fn write_at(&mut self, _offset: usize, data: &[u8]) -> (r: Result<usize, Errno>)
        ensures
            match old(self)@ {
                FileView::Stdin(_) => r == Err::<usize, Errno>(Errno::EACCES) && final(self)@ == old(self)@,
                FileView::Stdout(b) => r == Ok::<usize, Errno>(data@.len() as usize) && final(self)@
                    == FileView::Stdout(b + data@),
            },
    {
        match self {
            FileLike::Stdin(_) => Err(Errno::EACCES),
            FileLike::Stdout(f) => {
                crate::bytes::push_all(&mut f.0, data);
                Ok(data.len())
            },
        }
    }
}

/// The file is small enough for a reply that carries all of it.
pub open spec fn file_fits(f: FileView) -> bool {
    f matches FileView::Stdin(b) ==> b.len() <= usize::MAX - 0x2000
}

pub open spec fn file_size(f: FileView) -> int {
    match f {
        FileView::Stdin(b) => b.len() as int,
        FileView::Stdout(_) => 0,
    }
}

/// What reading `size` bytes at `offset` replies: `None` where reading is
/// not implemented.
pub open spec fn file_read(f: FileView, offset: int, size: int) -> Option<ReplyKind> {
    match f {
        FileView::Stdin(b) => if offset > b.len() {
            Some(ReplyKind::Error(Errno::EINVAL))
        } else {
            let n = if size < b.len() - offset { size } else { b.len() - offset };
            Some(ReplyKind::Data(None, Some(b.subrange(offset, offset + n))))
        },
        FileView::Stdout(_) => None,
    }
}

/// A read went as `plan` says: the reply is written, or the read is not
/// implemented and nothing is written.
pub open spec fn read_done(
    plan: Option<ReplyKind>,
    regs: Seq<(int, int)>,
    unique: u64,
    old_mem: GuestMemory,
    new_mem: GuestMemory,
    r: Result<usize, Error>,
) -> bool {
    match plan {
        None => r == Err::<usize, Error>(Error::Unimplemented) && new_mem == old_mem,
        Some(kind) => replied(regs, unique, old_mem, new_mem, kind, r) && (r matches Err(e) ==> e is GuestMemory),
    }
}

/// A directory: names and the inodes they lead to.
pub struct Directory {
    pub files: Vec<(Vec<u8>, INodeNo)>,
}

impl Directory {
    /// The entries as values.
    pub open spec fn entries(&self) -> Seq<(Seq<u8>, u64)> {
        self.files@.map_values(|e: (Vec<u8>, INodeNo)| (e.0@, e.1.0))
    }

    pub fn new() -> (r: Directory)
        ensures
            r.entries() == Seq::<(Seq<u8>, u64)>::empty(),
            r.files@.len() == 0,
    {
        let r = Directory { files: Vec::new() };
        assert(r.entries() =~= Seq::<(Seq<u8>, u64)>::empty());
        r
    }

    /// The entry named `filename`.
    pub fn lookup(&self, filename: &[u8]) -> (r: Result<INodeNo, Errno>)
        ensures
            first_entry(self.entries(), filename@) == -1 ==> r == Err::<INodeNo, Errno>(Errno::TODO),
            first_entry(self.entries(), filename@) != -1 ==> r == Ok::<INodeNo, Errno>(
                INodeNo(self.entries()[first_entry(self.entries(), filename@)].1),
            ),
    {
        let ghost e0 = self.entries();
        let mut i: usize = 0;
        while i < self.files.len()
            invariant
                i <= self.files@.len(),
                e0 == self.entries(),
                forall|j: int| 0 <= j < i ==> (#[trigger] e0[j]).0 != filename@,
            decreases self.files@.len() - i,
        {
            proof {
                assert(e0[i as int] == (self.files@[i as int].0@, self.files@[i as int].1.0));
            }
            if bytes_equal(self.files[i].0.as_slice(), filename) {
                proof {
                    lemma_first_entry(e0, filename@, i as int);
                }
                return Ok(self.files[i].1);
            }
            i += 1;
        }
        proof {
            lemma_no_entry(e0, filename@);
        }
        Err(Errno::TODO)
    }

    /// Adds an entry, or points the entry with the same name elsewhere.
    pub fn insert_entry(&mut self, ino: INodeNo, name: Vec<u8>)
        ensures
            final(self).entries() == insert_entry_spec(old(self).entries(), ino.0, name@),
    {
        let ghost e0 = self.entries();
        let mut i: usize = 0;
        while i < self.files.len()
            invariant
                i <= self.files@.len(),
                self.entries() == e0,
                e0 == old(self).entries(),
                forall|j: int| 0 <= j < i ==> (#[trigger] e0[j]).0 != name@,
            decreases self.files@.len() - i,
        {
            proof {
                assert(e0[i as int] == (self.files@[i as int].0@, self.files@[i as int].1.0));
            }
            if bytes_equal(self.files[i].0.as_slice(), name.as_slice()) {
                let (old_name, _) = self.files.remove(i);
                self.files.insert(i, (old_name, ino));
                proof {
                    assert(self.entries() =~= e0.update(i as int, (name@, ino.0)));
                    lemma_first_entry(e0, name@, i as int);
                }
                return;
            }
            i += 1;
        }
        self.files.push((name, ino));
        proof {
            assert(self.entries() =~= e0.push((name@, ino.0)));
            lemma_no_entry(e0, name@);
        }
    }
}

/// The entries after an entry for `name` is made to lead to `ino`.
pub open spec fn insert_entry_spec(files: Seq<(Seq<u8>, u64)>, ino: u64, name: Seq<u8>) -> Seq<(Seq<u8>, u64)> {
    let i = first_entry(files, name);
    if i == -1 {
        files.push((name, ino))
    } else {
        files.update(i, (name, ino))
    }
}

/// The index of the first pair whose key is `key`, or -1.
pub open spec fn first_key<K, V>(t: Seq<(K, V)>, key: K) -> int
    decreases t.len(),
{
    if t.len() == 0 {
        -1
    } else if first_key(t.drop_last(), key) != -1 {
        first_key(t.drop_last(), key)
    } else if t.last().0 == key {
        t.len() - 1
    } else {
        -1
    }
}

/// `first_key` finds the first pair with the key, and only where there is
/// one.
pub proof fn lemma_first_key<K, V>(t: Seq<(K, V)>, key: K)
    ensures
        first_key(t, key) == -1 ==> forall|k: int| 0 <= k < t.len() ==> (#[trigger] t[k]).0 != key,
        first_key(t, key) != -1 ==> 0 <= first_key(t, key) < t.len() && t[first_key(t, key)].0 == key
            && forall|k: int| 0 <= k < first_key(t, key) ==> (#[trigger] t[k]).0 != key,
    decreases t.len(),
{
    if t.len() > 0 {
        lemma_first_key(t.drop_last(), key);
        assert forall|k: int| 0 <= k < t.len() - 1 implies t.drop_last()[k] == #[trigger] t[k] by {}
    }
}

/// The index of the first entry named `name`, or -1.
pub open spec fn first_entry(files: Seq<(Seq<u8>, u64)>, name: Seq<u8>) -> int {
    first_key(files, name)
}

proof fn lemma_first_entry(files: Seq<(Seq<u8>, u64)>, name: Seq<u8>, i: int)
    requires
        0 <= i < files.len(),
        files[i].0 == name,
        forall|k: int| 0 <= k < i ==> (#[trigger] files[k]).0 != name,
    ensures
        first_entry(files, name) == i,
{
    lemma_first_key(files, name);
    let f = first_entry(files, name);
    if f == -1 {
        assert(files[i].0 != name);
    } else if f < i {
        assert(files[f].0 != name);
    } else if f > i {
        assert(files[i].0 != name);
    }
}

proof fn lemma_no_entry(files: Seq<(Seq<u8>, u64)>, name: Seq<u8>)
    requires
        forall|k: int| 0 <= k < files.len() ==> (#[trigger] files[k]).0 != name,
    ensures
        first_entry(files, name) == -1,
{
    lemma_first_key(files, name);
    if first_entry(files, name) != -1 {
        assert(files[first_entry(files, name)].0 == name);
    }
}

/// Whether two byte strings are equal.
pub fn bytes_equal(a: &[u8], b: &[u8]) -> (r: bool)
    ensures
        r == (a@ == b@),
{
    if a.len() != b.len() {
        return false;
    }
    let mut i: usize = 0;
    while i < a.len()
        invariant
            i <= a@.len(),
            a@.len() == b@.len(),
            forall|j: int| 0 <= j < i ==> a@[j] == b@[j],
        decreases a@.len() - i,
    {
        if a[i] != b[i] {
            return false;
        }
        i += 1;
    }
    assert(a@ =~= b@);
    true
}

/// An inode: the root directory or a file.
pub enum INode {
    Directory(Directory),
    File(FileLike),
}

/// An inode as values.
pub enum INodeView {
    Directory(Seq<(Seq<u8>, u64)>),
    File(FileView),
}

/// The attributes of a node of `size` bytes with `mode`, the rest zero.
pub open spec fn attr_of(size: u64, mode: u32) -> FuseAttr {
    FuseAttr {
        ino: 0,
        size,
        blocks: 0,
        atime: 0,
        mtime: 0,
        ctime: 0,
        atimensec: 0,
        mtimensec: 0,
        ctimensec: 0,
        mode,
        nlink: 0,
        uid: 0,
        gid: 0,
        rdev: 0,
        blksize: 0,
        padding: 0,
    }
}

fn make_attr(size: u64, mode: u32) -> (r: FuseAttr)
    ensures
        r == attr_of(size, mode),
{
    FuseAttr {
        ino: 0,
        size,
        blocks: 0,
        atime: 0,
        mtime: 0,
        ctime: 0,
        atimensec: 0,
        mtimensec: 0,
        ctimensec: 0,
        mode,
        nlink: 0,
        uid: 0,
        gid: 0,
        rdev: 0,
        blksize: 0,
        padding: 0,
    }
}

/// The attributes of an inode: a directory has size 0, a file the size it
/// reports.
pub open spec fn inode_attr(n: INodeView) -> FuseAttr {
    match n {
        INodeView::Directory(_) => attr_of(0, MODE_DIRECTORY),
        INodeView::File(f) => attr_of(file_size(f) as u64, MODE_REGULAR_FILE),
    }
}

/// What reading a directory replies: its first entry, named, or the end
/// of the directory where it is empty; whatever the offset.
pub open spec fn dir_read(entries: Seq<(Seq<u8>, u64)>) -> ReplyKind {
    if entries.len() == 0 {
        ReplyKind::Data(None, None)
    } else {
        ReplyKind::Data(
            Some(
                (FuseDirent {
                    ino: entries[0].1,
                    off: 0,
                    namelen: (entries[0].0.len() % 0x1_0000_0000) as u32,
                    file_type: DT_REG,
                }).bytes(),
            ),
            Some(entries[0].0),
        )
    }
}

/// The names are short enough for a reply that carries one.
pub open spec fn names_fit(entries: Seq<(Seq<u8>, u64)>) -> bool {
    forall|k: int| 0 <= k < entries.len() ==> (#[trigger] entries[k]).0.len() <= usize::MAX - 0x2000
}

impl INode {
    pub open spec fn view(&self) -> INodeView {
        match self {
            INode::Directory(d) => INodeView::Directory(d.entries()),
            INode::File(f) => INodeView::File(f@),
        }
    }

    /// Every reply about the inode fits.
    pub open spec fn fits(&self) -> bool {
        match self@ {
            INodeView::Directory(e) => names_fit(e),
            INodeView::File(f) => file_fits(f),
        }
    }

    pub fn attr(&self) -> (r: FuseAttr)
        ensures
            r == inode_attr(self@),
    {
        match self {
            INode::Directory(_) => make_attr(0, MODE_DIRECTORY),
            INode::File(f) => make_attr(f.size() as u64, MODE_REGULAR_FILE),
        }
    }

    /// The entry named `filename` of a directory; a file has none to look
    /// up.
    pub fn lookup(&self, filename: &[u8]) -> (r: Result<INodeNo, FsError>)
        ensures
            match self@ {
                INodeView::Directory(e) => if first_entry(e, filename@) == -1 {
                    r == Err::<INodeNo, FsError>(FsError::Errno(Errno::TODO))
                } else {
                    r == Ok::<INodeNo, FsError>(INodeNo(e[first_entry(e, filename@)].1))
                },
                INodeView::File(_) => r == Err::<INodeNo, FsError>(FsError::Unimplemented),
            },
    {
        match self {
            INode::Directory(d) => match d.lookup(filename) {
                Ok(ino) => Ok(ino),
                Err(e) => Err(FsError::Errno(e)),
            },
            INode::File(_) => Err(FsError::Unimplemented),
        }
    }

    /// Reads `size` bytes at `offset` of a file; a directory cannot be read
    /// this way.
    pub fn read(&self, mem: &mut GuestMemory, offset: u64, size: u32, completer: ReadCompleter) -> (r: ReadResult)
        requires
            completer.0.wf(),
            old(mem).wf(),
            self.fits(),
        ensures
            final(mem).wf(),
            read_done(
                inode_read(self@, offset, size),
                completer.0.desc_writer.regions(),
                completer.0.unique,
                *old(mem),
                *final(mem),
                r.0,
            ),
    {
        match self {
            INode::Directory(_) => ReadResult(Err(Error::Unimplemented)),
            INode::File(f) => {
                #[verifier::truncate]
                let off = offset as usize;
                f.read_at(mem, off, size as usize, completer)
            },
        }
    }

    /// Reads a directory: its first entry; a file is not a directory.
    pub fn readdir(&self, mem: &mut GuestMemory, _offset: u64, _size: u32, completer: ReadDirCompleter) -> (r: ReadResult)
        requires
            completer.0.wf(),
            old(mem).wf(),
            self.fits(),
        ensures
            final(mem).wf(),
            read_done(
                Some(inode_readdir(self@)),
                completer.0.desc_writer.regions(),
                completer.0.unique,
                *old(mem),
                *final(mem),
                r.0,
            ),
    {
        match self {
            INode::Directory(d) => {
                if d.files.len() == 0 {
                    return completer.complete_with_eof(mem);
                }
                let name = &d.files[0].0;
                let ino = d.files[0].1;
                proof {
                    assert(d.entries()[0] == (d.files@[0].0@, d.files@[0].1.0));
                }
                let len = name.len() as u64;
                #[verifier::truncate]
                let namelen = len as u32;
                assert(namelen == len % 0x1_0000_0000) by (bit_vector)
                    requires
                        namelen == len as u32,
                ;
                completer.complete(
                    mem,
                    FuseDirent { ino: ino.0, off: 0, namelen, file_type: DT_REG },
                    name.as_slice(),
                )
            },
            INode::File(_) => completer.error(mem, Errno::ENOTDIR),
        }
    }

    /// Writes to a file as `FileLike::write_at` does and returns the length
    /// written; a directory cannot be written.
    pub fn write(&mut self, offset: u64, data: &[u8]) -> (r: Result<u32, FsError>)
        ensures
            final(self)@ == inode_written(old(self)@, data@),
            r == inode_write_result(old(self)@, data@),
    {
        let _n = data.len();
        if let INode::File(f) = self {
            #[verifier::truncate]
            let off = offset as usize;
            return match f.write_at(off, data) {
                Ok(len) => {
                    let len64 = len as u64;
                    #[verifier::truncate]
                    let len32 = len64 as u32;
                    assert(len32 == len64 % 0x1_0000_0000) by (bit_vector)
                        requires
                            len32 == len64 as u32,
                    ;
                    Ok(len32)
                },
                Err(e) => Err(FsError::Errno(e)),
            };
        }
        Err(FsError::Unimplemented)
    }
}

/// An inode after `data` is written to it: only an output changes, by
/// appending the data.
pub open spec fn inode_written(n: INodeView, data: Seq<u8>) -> INodeView {
    match n {
        INodeView::File(FileView::Stdout(b)) => INodeView::File(FileView::Stdout(b + data)),
        _ => n,
    }
}

/// What writing `data` to an inode returns: the length written modulo
/// 2^32 for an output, `EACCES` for an input; a directory cannot be
/// written.
pub open spec fn inode_write_result(n: INodeView, data: Seq<u8>) -> Result<u32, FsError> {
    match n {
        INodeView::Directory(_) => Err(FsError::Unimplemented),
        INodeView::File(FileView::Stdin(_)) => Err(FsError::Errno(Errno::EACCES)),
        INodeView::File(FileView::Stdout(_)) => Ok((data.len() % 0x1_0000_0000) as u32),
    }
}

/// What reading an inode replies; `None` where that is not implemented.
pub open spec fn inode_read(n: INodeView, offset: u64, size: u32) -> Option<ReplyKind> {
    match n {
        INodeView::Directory(_) => None,
        INodeView::File(f) => file_read(f, (offset as usize) as int, size as int),
    }
}

/// What reading an inode as a directory replies.
pub open spec fn inode_readdir(n: INodeView) -> ReplyKind {
    match n {
        INodeView::Directory(e) => dir_read(e),
        INodeView::File(_) => ReplyKind::Error(Errno::ENOTDIR),
    }
}

/// The index of the first inode with number `ino`, or -1.
pub open spec fn inode_at(t: Seq<(u64, INodeView)>, ino: u64) -> int {
    first_key(t, ino)
}

proof fn lemma_inode_at(t: Seq<(u64, INodeView)>, ino: u64)
    ensures
        inode_at(t, ino) == -1 ==> forall|k: int| 0 <= k < t.len() ==> (#[trigger] t[k]).0 != ino,
        inode_at(t, ino) != -1 ==> 0 <= inode_at(t, ino) < t.len() && t[inode_at(t, ino)].0 == ino
            && forall|k: int| 0 <= k < inode_at(t, ino) ==> (#[trigger] t[k]).0 != ino,
{
    lemma_first_key(t, ino);
}

/// The file system: its inodes by number, and the next file handle to
/// hand out.
pub struct FileSystem {
    pub inodes: Vec<(INodeNo, INode)>,
    pub next_fh: u64,
}

impl FileSystem {
    /// The inodes as values.
    pub open spec fn table(&self) -> Seq<(u64, INodeView)> {
        self.inodes@.map_values(|e: (INodeNo, INode)| (e.0.0, e.1@))
    }

    /// Every reply about an inode fits, and every directory entry leads to
    /// an inode of the table.
    pub open spec fn wf(&self) -> bool {
        &&& forall|k: int| 0 <= k < self.inodes@.len() ==> (#[trigger] self.inodes@[k]).1.fits()
        &&& entries_resolve(self.table())
    }

    /// The index of inode `ino`.
    fn find(&self, ino: INodeNo) -> (r: Option<usize>)
        ensures
            inode_at(self.table(), ino.0) == -1 <==> r is None,
            r matches Some(i) ==> i as int == inode_at(self.table(), ino.0),
    {
        proof {
            lemma_inode_at(self.table(), ino.0);
        }
        let mut i: usize = 0;
        while i < self.inodes.len()
            invariant
                i <= self.inodes@.len(),
                self.table().len() == self.inodes@.len(),
                forall|k: int| 0 <= k < i ==> (#[trigger] self.table()[k]).0 != ino.0,
            decreases self.inodes@.len() - i,
        {
            proof {
                assert(self.table()[i as int].0 == self.inodes@[i as int].0.0);
            }
            if self.inodes[i].0.0 == ino.0 {
                proof {
                    lemma_inode_at(self.table(), ino.0);
                    let f = inode_at(self.table(), ino.0);
                    if f != -1 && f < i {
                        assert(self.table()[f].0 != ino.0);
                    }
                }
                return Some(i);
            }
            i += 1;
        }
        None
    }

    /// Looks up `filename` in directory `dir_ino`: the entry's inode number
    /// and attributes.
    pub fn lookup(&self, dir_ino: INodeNo, filename: &[u8]) -> (r: Result<FuseEntryOut, FsError>)
        requires
            self.wf(),
        ensures
            r == fs_lookup(self.table(), dir_ino.0, filename@),
    {
        let i = match self.find(dir_ino) {
            Some(i) => i,
            None => return Err(FsError::Errno(Errno::TODO)),
        };
        proof {
            lemma_inode_at(self.table(), dir_ino.0);
            assert(self.table()[i as int].1 == self.inodes@[i as int].1@);
        }
        let child = self.inodes[i].1.lookup(filename)?;
        let j = match self.find(child) {
            Some(j) => j,
            None => {
                proof {
                    let e = dir_entries(self.table()[i as int].1);
                    lemma_first_key(e, filename@);
                    let k = first_entry(e, filename@);
                    assert(inode_at(self.table(), dir_entries(self.table()[i as int].1)[k].1) != -1);
                }
                return Err(FsError::Errno(Errno::TODO));
            },
        };
        proof {
            lemma_inode_at(self.table(), child.0);
            assert(self.table()[j as int].1 == self.inodes@[j as int].1@);
        }
        let attr = self.inodes[j].1.attr();
        Ok(FuseEntryOut {
            nodeid: child.0,
            generation: 0,
            entry_valid: 0,
            attr_valid: 0,
            entry_valid_nsec: 0,
            attr_valid_nsec: 0,
            attr,
        })
    }

    /// Opens inode `ino`: hands out the next file handle.
    pub fn open(&mut self, ino: INodeNo, _open_in: FuseOpenIn) -> (r: Result<FuseOpenOut, FsError>)
        ensures
            final(self).inodes@ == old(self).inodes@,
            inode_at(old(self).table(), ino.0) == -1 ==> r == Err::<FuseOpenOut, FsError>(
                FsError::Errno(Errno::TODO),
            ) && final(self).next_fh == old(self).next_fh,
            inode_at(old(self).table(), ino.0) != -1 ==> r == Ok::<FuseOpenOut, FsError>(
                FuseOpenOut { fh: old(self).next_fh, open_flags: 0, padding: 0 },
            ) && final(self).next_fh == (if old(self).next_fh == u64::MAX {
                0
            } else {
                (old(self).next_fh + 1) as u64
            }),
    {
        if self.find(ino).is_none() {
            return Err(FsError::Errno(Errno::TODO));
        }
        let fh = self.next_fh;
        self.next_fh = self.next_fh.wrapping_add(1);
        Ok(FuseOpenOut { fh, open_flags: 0, padding: 0 })
    }

    /// The attributes of inode `ino`, with its number.
    pub fn getattr(&self, ino: INodeNo, _getattr_in: FuseGetAttrIn) -> (r: Result<FuseGetAttrOut, FsError>)
        ensures
            inode_at(self.table(), ino.0) == -1 ==> r == Err::<FuseGetAttrOut, FsError>(
                FsError::Errno(Errno::TODO),
            ),
            inode_at(self.table(), ino.0) != -1 ==> r == Ok::<FuseGetAttrOut, FsError>(
                FuseGetAttrOut {
                    attr_valid: 0,
                    attr_valid_nsec: 0,
                    dummy: 0,
                    attr: FuseAttr { ino: ino.0, ..inode_attr(self.table()[inode_at(self.table(), ino.0)].1) },
                },
            ),
    {
        let i = match self.find(ino) {
            Some(i) => i,
            None => return Err(FsError::Errno(Errno::TODO)),
        };
        proof {
            lemma_inode_at(self.table(), ino.0);
            assert(self.table()[i as int].1 == self.inodes@[i as int].1@);
        }
        let mut attr = self.inodes[i].1.attr();
        attr.ino = ino.0;
        Ok(FuseGetAttrOut { attr, attr_valid: 0, attr_valid_nsec: 0, dummy: 0 })
    }

    /// Flushing needs nothing.
    pub fn flush(&self, _ino: INodeNo, _flush_in: FuseFlushIn) -> (r: Result<(), FsError>)
        ensures
            r is Ok,
    {
        Ok(())
    }

    /// Releasing needs nothing.
    pub fn release(&self, _ino: INodeNo, _release_in: FuseReleaseIn) -> (r: Result<(), FsError>)
        ensures
            r is Ok,
    {
        Ok(())
    }

    /// Reads from inode `ino` as `read_in` says, completing the read.
    pub fn read(&self, mem: &mut GuestMemory, ino: INodeNo, read_in: FuseReadIn, completer: ReadCompleter) -> (r: ReadResult)
        requires
            self.wf(),
            completer.0.wf(),
            old(mem).wf(),
        ensures
            final(mem).wf(),
            read_done(
                fs_read(self.table(), ino.0, read_in.offset, read_in.size),
                completer.0.desc_writer.regions(),
                completer.0.unique,
                *old(mem),
                *final(mem),
                r.0,
            ),
    {
        let i = match self.find(ino) {
            Some(i) => i,
            None => return completer.error(mem, Errno::TODO),
        };
        proof {
            lemma_inode_at(self.table(), ino.0);
            assert(self.table()[i as int].1 == self.inodes@[i as int].1@);
        }
        self.inodes[i].1.read(mem, read_in.offset, read_in.size, completer)
    }

    /// Reads directory `ino` as `read_in` says, completing the read.
    pub fn readdir(&self, mem: &mut GuestMemory, ino: INodeNo, read_in: FuseReadIn, completer: ReadDirCompleter) -> (r: ReadResult)
        requires
            self.wf(),
            completer.0.wf(),
            old(mem).wf(),
        ensures
            final(mem).wf(),
            read_done(
                Some(fs_readdir(self.table(), ino.0)),
                completer.0.desc_writer.regions(),
                completer.0.unique,
                *old(mem),
                *final(mem),
                r.0,
            ),
    {
        let i = match self.find(ino) {
            Some(i) => i,
            None => return completer.error(mem, Errno::TODO),
        };
        proof {
            lemma_inode_at(self.table(), ino.0);
            assert(self.table()[i as int].1 == self.inodes@[i as int].1@);
        }
        self.inodes[i].1.readdir(mem, read_in.offset, read_in.size, completer)
    }

    /// Writes `data` to inode `ino`.
    pub fn write(&mut self, ino: INodeNo, write_in: FuseWriteIn, data: &[u8]) -> (r: Result<FuseWriteOut, FsError>)
        requires
            old(self).wf(),
        ensures
            final(self).wf(),
            final(self).next_fh == old(self).next_fh,
            inode_at(old(self).table(), ino.0) == -1 ==> r == Err::<FuseWriteOut, FsError>(
                FsError::Errno(Errno::TODO),
            ) && final(self).table() == old(self).table(),
            inode_at(old(self).table(), ino.0) != -1 ==> {
                let i = inode_at(old(self).table(), ino.0);
                let n = old(self).table()[i].1;
                &&& final(self).table() == old(self).table().update(i, (ino.0, inode_written(n, data@)))
                &&& r == match inode_write_result(n, data@) {
                    Ok(size) => Ok::<FuseWriteOut, FsError>(FuseWriteOut { size, padding: 0 }),
                    Err(e) => Err(e),
                }
            },
    {
        let i = match self.find(ino) {
            Some(i) => i,
            None => return Err(FsError::Errno(Errno::TODO)),
        };
        let ghost t = self.table();
        proof {
            lemma_inode_at(t, ino.0);
        }
        let (no, mut node) = self.inodes.remove(i);
        let res = node.write(write_in.offset, data);
        self.inodes.insert(i, (no, node));
        proof {
            assert(self.table() =~= t.update(i as int, (ino.0, inode_written(t[i as int].1, data@))));
            lemma_written_keeps(t, i as int, data@);
            assert forall|k: int| 0 <= k < self.inodes@.len() implies (#[trigger] self.inodes@[k]).1.fits() by {
                if k != i {
                    assert(self.inodes@[k] == old(self).inodes@[k]);
                } else {
                    assert(old(self).inodes@[k].1.fits());
                }
            }
        }
        match res {
            Ok(size) => Ok(FuseWriteOut { size, padding: 0 }),
            Err(e) => Err(e),
        }
    }
}

/// The entries of a directory; a file has none.
pub open spec fn dir_entries(n: INodeView) -> Seq<(Seq<u8>, u64)> {
    match n {
        INodeView::Directory(e) => e,
        INodeView::File(_) => Seq::empty(),
    }
}

/// Every directory entry leads to an inode of the table.
pub open spec fn entries_resolve(t: Seq<(u64, INodeView)>) -> bool {
    forall|k: int, j: int|
        0 <= k < t.len() && 0 <= j < dir_entries(t[k].1).len() ==> inode_at(
            t,
            #[trigger] dir_entries(t[k].1)[j].1,
        ) != -1
}

/// Writing to one inode keeps every directory entry leading to an inode.
proof fn lemma_written_keeps(t: Seq<(u64, INodeView)>, i: int, data: Seq<u8>)
    requires
        0 <= i < t.len(),
        entries_resolve(t),
    ensures
        entries_resolve(t.update(i, (t[i].0, inode_written(t[i].1, data)))),
{
    let u = t.update(i, (t[i].0, inode_written(t[i].1, data)));
    assert forall|ino: u64| inode_at(t, ino) != -1 implies #[trigger] inode_at(u, ino) != -1 by {
        lemma_inode_at(t, ino);
        lemma_inode_at(u, ino);
        let f = inode_at(t, ino);
        assert(u[f].0 == ino);
    }
    assert forall|k: int, j: int|
        0 <= k < u.len() && 0 <= j < dir_entries(u[k].1).len() implies inode_at(
            u,
            #[trigger] dir_entries(u[k].1)[j].1,
        ) != -1 by {
        if k == i {
            assert(dir_entries(t[k].1) == dir_entries(u[k].1));
        } else {
            assert(t[k] == u[k]);
        }
        assert(inode_at(t, dir_entries(t[k].1)[j].1) != -1);
    }
}

/// What looking up `name` in directory `dir` gives.
pub open spec fn fs_lookup(t: Seq<(u64, INodeView)>, dir: u64, name: Seq<u8>) -> Result<FuseEntryOut, FsError> {
    let i = inode_at(t, dir);
    if i == -1 {
        Err(FsError::Errno(Errno::TODO))
    } else {
        match t[i].1 {
            INodeView::File(_) => Err(FsError::Unimplemented),
            INodeView::Directory(e) => if first_entry(e, name) == -1 {
                Err(FsError::Errno(Errno::TODO))
            } else {
                let child = e[first_entry(e, name)].1;
                Ok(
                    FuseEntryOut {
                        nodeid: child,
                        generation: 0,
                        entry_valid: 0,
                        attr_valid: 0,
                        entry_valid_nsec: 0,
                        attr_valid_nsec: 0,
                        attr: inode_attr(t[inode_at(t, child)].1),
                    },
                )
            },
        }
    }
}

/// What reading inode `ino` replies; `None` where reading it is not
/// implemented.
pub open spec fn fs_read(t: Seq<(u64, INodeView)>, ino: u64, offset: u64, size: u32) -> Option<ReplyKind> {
    let i = inode_at(t, ino);
    if i == -1 {
        Some(ReplyKind::Error(Errno::TODO))
    } else {
        inode_read(t[i].1, offset, size)
    }
}

/// What reading inode `ino` as a directory replies.
pub open spec fn fs_readdir(t: Seq<(u64, INodeView)>, ino: u64) -> ReplyKind {
    let i = inode_at(t, ino);
    if i == -1 {
        ReplyKind::Error(Errno::TODO)
    } else {
        inode_readdir(t[i].1)
    }
}

/// Builds the file system: files are added to the root directory under
/// the inode numbers 2, 3, and so on.
pub struct FileSystemBuilder {
    pub next_ino: u64,
    pub entries: Vec<(Vec<u8>, INodeNo, FileLike)>,
}

impl FileSystemBuilder {
    /// The root directory's entries as values.
    pub open spec fn names(&self) -> Seq<(Seq<u8>, u64)> {
        self.entries@.map_values(|e: (Vec<u8>, INodeNo, FileLike)| (e.0@, e.1.0))
    }

    /// The files of the entries as values.
    pub open spec fn files(&self) -> Seq<FileView> {
        self.entries@.map_values(|e: (Vec<u8>, INodeNo, FileLike)| e.2@)
    }

    /// Inode numbers stay below the next one and above the root's, and
    /// every reply about an entry fits.
    pub open spec fn wf(&self) -> bool {
        &&& 2 <= self.next_ino
        &&& forall|k: int| 0 <= k < self.entries@.len() ==> 2 <= (#[trigger] self.entries@[k]).1.0 < self.next_ino
        &&& names_fit(self.names())
        &&& forall|k: int| 0 <= k < self.entries@.len() ==> file_fits((#[trigger] self.entries@[k]).2@)
    }

    pub fn new() -> (r: FileSystemBuilder)
        ensures
            r.wf(),
            r.next_ino == 2,
            r.names() == Seq::<(Seq<u8>, u64)>::empty(),
    {
        let r = FileSystemBuilder { next_ino: 2, entries: Vec::new() };
        assert(r.names() =~= Seq::<(Seq<u8>, u64)>::empty());
        r
    }

    /// Adds `file` to the root directory as `name`, under the next inode
    /// number; an entry with the same name is replaced.
    pub fn add_root_file(&mut self, name: &str, file: FileLike)
        requires
            old(self).wf(),
            old(self).next_ino < u64::MAX,
            name.spec_bytes().len() <= usize::MAX - 0x2000,
            file_fits(file@),
        ensures
            final(self).wf(),
            final(self).next_ino == old(self).next_ino + 1,
            final(self).names() == insert_entry_spec(old(self).names(), old(self).next_ino, name.spec_bytes()),
            ({
                let i = first_entry(old(self).names(), name.spec_bytes());
                final(self).files() == if i == -1 {
                    old(self).files().push(file@)
                } else {
                    old(self).files().update(i, file@)
                }
            }),
    {
        let ino = INodeNo::new(self.next_ino);
        self.next_ino = self.next_ino + 1;
        let bytes = name.as_bytes();
        let ghost n0 = self.names();
        let ghost f0 = self.files();
        let ghost e0 = self.entries@;
        let mut i: usize = 0;
        while i < self.entries.len()
            invariant
                i <= self.entries@.len(),
                self.entries@ == e0,
                n0 == old(self).names(),
                f0 == old(self).files(),
                self.names() == n0,
                self.next_ino == old(self).next_ino + 1,
                bytes@ == name.spec_bytes(),
                forall|j: int| 0 <= j < i ==> (#[trigger] n0[j]).0 != bytes@,
                old(self).wf(),
                e0 == old(self).entries@,
                file_fits(file@),
                ino.0 == old(self).next_ino,
                old(self).next_ino < u64::MAX,
                name.spec_bytes().len() <= usize::MAX - 0x2000,
            decreases self.entries@.len() - i,
        {
            proof {
                assert(n0[i as int] == (self.entries@[i as int].0@, self.entries@[i as int].1.0));
            }
            if bytes_equal(self.entries[i].0.as_slice(), bytes) {
                let ghost fv = file@;
                let (old_name, _, _) = self.entries.remove(i);
                self.entries.insert(i, (old_name, ino, file));
                proof {
                    assert(self.entries@[i as int].2@ == fv);
                    assert(old_name@ == bytes@);
                    lemma_first_entry(n0, bytes@, i as int);
                    assert(self.names() =~= n0.update(i as int, (bytes@, ino.0)));
                    assert(self.files() =~= f0.update(i as int, fv));
                    assert forall|k: int| 0 <= k < self.entries@.len() implies 2 <= (#[trigger] self.entries@[k]).1.0
                        < self.next_ino && file_fits(self.entries@[k].2@) by {
                        if k != i {
                            assert(self.entries@[k] == e0[k]);
                        }
                    }
                    assert forall|k: int| 0 <= k < self.names().len() implies (#[trigger] self.names()[k]).0.len()
                        <= usize::MAX - 0x2000 by {
                        if k != i {
                            assert(self.names()[k] == n0[k]);
                        }
                    }
                }
                return;
            }
            i += 1;
        }
        let owned = vstd::slice::slice_to_vec(bytes);
        self.entries.push((owned, ino, file));
        proof {
            lemma_no_entry(n0, bytes@);
            assert(self.names() =~= n0.push((bytes@, ino.0)));
            assert(self.files() =~= f0.push(file@));
            assert forall|k: int| 0 <= k < self.entries@.len() implies 2 <= (#[trigger] self.entries@[k]).1.0
                < self.next_ino && file_fits(self.entries@[k].2@) by {
                if k < e0.len() {
                    assert(self.entries@[k] == e0[k]);
                }
            }
            assert forall|k: int| 0 <= k < self.names().len() implies (#[trigger] self.names()[k]).0.len()
                <= usize::MAX - 0x2000 by {
                if k < n0.len() {
                    assert(self.names()[k] == n0[k]);
                }
            }
        }
    }

    /// The file system: an inode for each file, then the root directory
    /// (inode 1) with the files' names; file handles start at 1.
    pub fn build(self) -> (r: FileSystem)
        requires
            self.wf(),
        ensures
            r.wf(),
            r.next_fh == 1,
            r.table() == built_table(self.names(), self.files()),
    {
        let ghost names = self.names();
        let ghost files = self.files();
        let ghost n = self.entries@.len();
        let mut inodes: Vec<(INodeNo, INode)> = Vec::new();
        let mut dir = Directory::new();
        let mut entries = self.entries;
        let total = entries.len();
        let mut rest: Vec<(Vec<u8>, INodeNo, FileLike)> = Vec::new();
        let ghost e0 = entries@;
        // Take the entries apart from the last, then put them together in
        // their order.
        while entries.len() > 0
            invariant
                entries@.len() + rest@.len() == n,
                e0.len() == n,
                entries@ == e0.take(entries@.len() as int),
                forall|k: int| 0 <= k < rest@.len() ==> #[trigger] rest@[k] == e0[n - 1 - k],
            decreases entries@.len(),
        {
            let e = entries.pop().unwrap();
            proof {
                assert(e == e0[entries@.len() as int]);
            }
            rest.push(e);
            proof {
                assert(entries@ =~= e0.take(entries@.len() as int));
            }
        }
        let mut k: usize = 0;
        while rest.len() > 0
            invariant
                k + rest@.len() == n,
                n <= usize::MAX,
                e0.len() == n,
                forall|j: int| 0 <= j < rest@.len() ==> #[trigger] rest@[j] == e0[n - 1 - j],
                inodes@.len() == k,
                forall|j: int| 0 <= j < k ==> (#[trigger] inodes@[j]).0.0 == e0[j].1.0 && inodes@[j].1@ == INodeView::File(e0[j].2@)
                    && inodes@[j].1 is File,
                dir.entries() == names.take(k as int),
                dir.files@.len() == k,
                names == e0.map_values(|e: (Vec<u8>, INodeNo, FileLike)| (e.0@, e.1.0)),
                files == e0.map_values(|e: (Vec<u8>, INodeNo, FileLike)| e.2@),
            decreases rest@.len(),
        {
            let (name, ino, file) = rest.pop().unwrap();
            proof {
                assert((name, ino, file) == e0[k as int]);
            }
            let ghost nm = name@;
            let ghost de = dir.entries();
            dir.files.push((name, ino));
            inodes.push((ino, INode::File(file)));
            proof {
                assert(dir.files@.len() == k + 1);
                assert(dir.entries()[k as int] == (nm, ino.0));
                assert forall|j: int| 0 <= j < k implies dir.entries()[j] == #[trigger] de[j] by {}
                assert(names[k as int] == (e0[k as int].0@, e0[k as int].1.0));
                assert(dir.entries() =~= names.take(k + 1));
            }
            k += 1;
        }
        proof {
            assert(dir.entries() =~= names);
        }
        inodes.push((INodeNo::root_dir(), INode::Directory(dir)));
        let r = FileSystem { inodes, next_fh: 1 };
        proof {
            let expected = Seq::new(names.len(), |j: int| (names[j].1, INodeView::File(files[j]))).push(
                (1u64, INodeView::Directory(names)),
            );
            assert(r.table() =~= expected);
            assert forall|j: int| 0 <= j < r.inodes@.len() implies (#[trigger] r.inodes@[j]).1.fits() by {
                if j < n {
                    assert(self.entries@[j] == e0[j]);
                    assert(file_fits(e0[j].2@));
                } else {
                    assert(names_fit(names));
                }
            }
            assert forall|a: int, b: int|
                0 <= a < r.table().len() && 0 <= b < dir_entries(r.table()[a].1).len() implies inode_at(
                    r.table(),
                    #[trigger] dir_entries(r.table()[a].1)[b].1,
                ) != -1 by {
                assert(a == n);
                assert(dir_entries(r.table()[a].1)[b].1 == r.table()[b].0);
                lemma_first_key(r.table(), r.table()[b].0);
            }
        }
        r
    }
}

/// The inode table of a file system built from the root directory's
/// entries `names` and their files: an inode per file, then the root
/// directory (inode 1).
pub open spec fn built_table(names: Seq<(Seq<u8>, u64)>, files: Seq<FileView>) -> Seq<(u64, INodeView)> {
    Seq::new(names.len(), |k: int| (names[k].1, INodeView::File(files[k]))).push(
        (1u64, INodeView::Directory(names)),
    )
}

/// A file added to the root directory is found there: looking its name up
/// in the root directory gives its inode number.
pub proof fn law_root_file_found(names: Seq<(Seq<u8>, u64)>, files: Seq<FileView>, name: Seq<u8>)
    requires
        names.len() == files.len(),
        forall|k: int| 0 <= k < names.len() ==> (#[trigger] names[k]).1 >= 2,
        first_entry(names, name) != -1,
    ensures
        fs_lookup(built_table(names, files), 1, name) matches Ok(e) && e.nodeid == names[first_entry(
            names,
            name,
        )].1,
{
    let t = built_table(names, files);
    lemma_first_key(t, 1u64);
    lemma_first_key(names, name);
    assert(t[names.len() as int].0 == 1u64);
    if inode_at(t, 1u64) != names.len() {
        let i = inode_at(t, 1u64);
        assert(t[i].0 == names[i].1);
    }
}

/// What the guest reads from an input file from its start, asking for at
/// least its length, is the whole input.
pub proof fn law_input_read_whole(b: Seq<u8>, size: int)
    requires
        size >= b.len(),
    ensures
        file_read(FileView::Stdin(b), 0, size) == Some(ReplyKind::Data(None, Some(b))),
{
    assert(b.subrange(0, b.len() as int) =~= b);
}

/// What the guest writes to an output file, write after write, is what
/// the file holds, in order.
pub proof fn law_output_collects_writes(b: Seq<u8>, d1: Seq<u8>, d2: Seq<u8>)
    ensures
        inode_written(inode_written(INodeView::File(FileView::Stdout(b)), d1), d2) == INodeView::File(
            FileView::Stdout(b + d1 + d2),
        ),
{
}

/// Reading the command's input at `offset`: past its end the read is
/// refused; otherwise the reply holds as many bytes as asked for and left
/// from `offset` on, byte `j` of the reply being byte `offset + j` of the
/// input. Reading `s1` bytes at `o` and then `s2` bytes right after gives
/// what one read of `s1 + s2` bytes at `o` gives, where the first read was
/// not cut short.
pub proof fn law_input_read_at(b: Seq<u8>, offset: int, size: int, s2: int)
    requires
        0 <= offset,
        0 <= size,
        0 <= s2,
    ensures
        offset > b.len() ==> file_read(FileView::Stdin(b), offset, size) == Some(ReplyKind::Error(Errno::EINVAL)),
        offset <= b.len() ==> (file_read(FileView::Stdin(b), offset, size) matches Some(ReplyKind::Data(None, Some(d)))
            && d.len() == (if size < b.len() - offset { size } else { b.len() - offset }) && forall|j: int|
            0 <= j < d.len() ==> #[trigger] d[j] == b[offset + j]),
        offset + size <= b.len() ==> (file_read(FileView::Stdin(b), offset, size) matches Some(
            ReplyKind::Data(None, Some(d1)),
        ) && file_read(FileView::Stdin(b), offset + size, s2) matches Some(ReplyKind::Data(None, Some(d2)))
            && file_read(FileView::Stdin(b), offset, size + s2) matches Some(ReplyKind::Data(None, Some(d)))
            && d == d1 + d2),
{
    if offset + size <= b.len() {
        let n2 = if s2 < b.len() - (offset + size) { s2 } else { b.len() - (offset + size) };
        assert(b.subrange(offset, offset + size + n2) =~= b.subrange(offset, offset + size) + b.subrange(
            offset + size,
            offset + size + n2,
        ));
    }
}

} // verus!
