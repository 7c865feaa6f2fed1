use starina::fs::{BufferedStdin, BufferedStdout, FileLike, FileSystemBuilder, FsError, INodeNo};
use starina::virtio::fuse::{Errno, FuseWriteIn};

fn write_in(size: u32) -> FuseWriteIn {
    FuseWriteIn { fh: 1, offset: 0, size, write_flags: 0, lock_owner: 0, flags: 0, padding: 0 }
}

#[test]
fn root_files_are_found_by_name() {
    let mut b = FileSystemBuilder::new();
    b.add_root_file("stdin", FileLike::Stdin(BufferedStdin::new(b"hello".to_vec())));
    b.add_root_file("stdout", FileLike::Stdout(BufferedStdout::new()));
    let fs = b.build();
    let e = fs.lookup(INodeNo::root_dir(), b"stdin").unwrap();
    assert_eq!(e.nodeid, 2);
    assert_eq!(e.attr.size, 5);
    let e = fs.lookup(INodeNo::root_dir(), b"stdout").unwrap();
    assert_eq!(e.nodeid, 3);
    assert!(fs.lookup(INodeNo::root_dir(), b"missing").is_err());
}

#[test]
fn same_name_replaces_the_entry() {
    let mut b = FileSystemBuilder::new();
    b.add_root_file("f", FileLike::Stdin(BufferedStdin::new(b"a".to_vec())));
    b.add_root_file("f", FileLike::Stdin(BufferedStdin::new(b"abc".to_vec())));
    let fs = b.build();
    let e = fs.lookup(INodeNo::root_dir(), b"f").unwrap();
    assert_eq!(e.nodeid, 3);
    assert_eq!(e.attr.size, 3);
}

#[test]
fn writes_to_stdout_collect_in_order() {
    let mut b = FileSystemBuilder::new();
    b.add_root_file("stdout", FileLike::Stdout(BufferedStdout::new()));
    b.add_root_file("stdin", FileLike::Stdin(BufferedStdin::new(b"in".to_vec())));
    let mut fs = b.build();
    assert_eq!(fs.write(INodeNo::new(2), write_in(3), b"abc").unwrap().size, 3);
    assert_eq!(fs.write(INodeNo::new(2), write_in(2), b"de").unwrap().size, 2);
    match &fs.inodes[0].1 {
        starina::fs::INode::File(FileLike::Stdout(out)) => assert_eq!(out.buffer(), &b"abcde".to_vec()),
        _ => panic!("stdout is not an output"),
    }
    assert_eq!(fs.write(INodeNo::new(3), write_in(1), b"x").unwrap_err(), FsError::Errno(Errno::EACCES));
    assert_eq!(fs.write(INodeNo::new(1), write_in(1), b"x").unwrap_err(), FsError::Unimplemented);
}
