use starina::command::Command;
use starina::fs::{BufferedStdin, BufferedStdout, FileLike, INodeNo};
use starina::ipc::{MessageBuffer, MessageInfo};
use starina::loopback::{loop_file_name, LoopDevice};
use starina::port_forward::Port;
use starina::wasm_host::wasmtime_page_size;

#[test]
fn command_builder_collects_everything() {
    let mut c = Command::new("/bin/sh");
    c.arg("-c").arg("echo hi").port(Port::Tcp { host: 8080, guest: 80 });
    c.stdout(FileLike::Stdout(BufferedStdout::new()));
    assert_eq!(c.program, "/bin/sh");
    assert_eq!(c.args, vec!["-c".to_string(), "echo hi".to_string()]);
    assert_eq!(c.ports, vec![Port::Tcp { host: 8080, guest: 80 }]);
    assert!(c.stdin.is_none());
    assert!(c.stdout.is_some());
}

#[test]
fn command_root_directory() {
    let mut c = Command::new("cat");
    c.stdin(FileLike::Stdin(BufferedStdin::new(b"input".to_vec())));
    c.stdout(FileLike::Stdout(BufferedStdout::new()));
    let json = br#"{"program":"cat","args":[]}"#.to_vec();
    let fs = c.root_files(json.clone()).build();
    let e = fs.lookup(INodeNo::root_dir(), b"command").unwrap();
    assert_eq!(e.nodeid, 2);
    assert_eq!(e.attr.size, json.len() as u64);
    assert_eq!(fs.lookup(INodeNo::root_dir(), b"stdout").unwrap().nodeid, 3);
    assert_eq!(fs.lookup(INodeNo::root_dir(), b"stdin").unwrap().nodeid, 4);
}

#[test]
fn command_without_files_has_only_the_command() {
    let fs = Command::new("true").root_files(b"{}".to_vec()).build();
    assert!(fs.lookup(INodeNo::root_dir(), b"command").is_ok());
    assert!(fs.lookup(INodeNo::root_dir(), b"stdin").is_err());
    assert!(fs.lookup(INodeNo::root_dir(), b"stdout").is_err());
}

#[test]
fn message_info_fields() {
    let info = MessageInfo::new(0x1234, 100, 2);
    assert_eq!(info.all(), 0x1234_0000 | (2 << 14) | 100);
    assert_eq!(info.len(), 100);
    assert_eq!(info.id_and_num_handles_bits(), 0x1234_0000 | (2 << 14));
    assert_eq!(MessageInfo::from_raw(7).all(), 7);
    let b = MessageBuffer::new();
    assert!(b.data.iter().all(|&x| x == 0));
}

#[test]
fn loop_device_paths_and_names() {
    let d = LoopDevice::new(3);
    assert_eq!(d.device_path(), "/dev/loop3");
    assert_eq!(LoopDevice::new(12).device_path, "/dev/loop12");
    let n = loop_file_name(b"/tmp/disk.img");
    assert_eq!(&n[..13], b"/tmp/disk.img");
    assert!(n[13..].iter().all(|&x| x == 0));
    let long = vec![b'a'; 100];
    let n = loop_file_name(&long);
    assert!(n[..63].iter().all(|&x| x == b'a'));
    assert_eq!(n[63], 0);
}

#[test]
fn wasm_page_size() {
    assert_eq!(wasmtime_page_size(), 4096);
}

#[test]
fn negative_message_kind_wraps_like_a_sign_extended_cast() {
    assert_eq!(starina::message::MessageInfo(-(1 << 18)).kind(), usize::MAX);
    assert_eq!(starina::message::MessageInfo(i32::MIN).kind(), usize::MAX - 8191);
    assert_eq!(starina::message::MessageInfo(5 << 18).kind(), 5);
}
