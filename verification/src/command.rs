//! A command to run in the Linux guest: the program and its arguments,
//! the files that stand for its standard input and output, and the ports
//! forwarded to it. The guest finds the command in the root directory of
//! the shared file system, as a JSON document named `command`.

use vstd::prelude::*;
use crate::fs::{file_fits, first_entry, insert_entry_spec, BufferedStdin, FileLike, FileSystemBuilder, FileView};
use crate::port_forward::Port;
use crate::text::push_str;
use vstd::string::StringSliceAdditionalSpecFns;

verus! {

/// A command to run in the guest.
pub struct Command {
    pub program: String,
    pub args: Vec<String>,
    pub stdin: Option<FileLike>,
    pub stdout: Option<FileLike>,
    pub ports: Vec<Port>,
}

/// The root directory after adding `file` as `name` under inode `ino`, as
/// `FileSystemBuilder::add_root_file` does: the names with their inode
/// numbers, and the files.
pub open spec fn add_file(
    s: (Seq<(Seq<u8>, u64)>, Seq<FileView>),
    ino: u64,
    name: Seq<u8>,
    file: FileView,
) -> (Seq<(Seq<u8>, u64)>, Seq<FileView>) {
    let i = first_entry(s.0, name);
    (insert_entry_spec(s.0, ino, name), if i == -1 {
        s.1.push(file)
    } else {
        s.1.update(i, file)
    })
}

/// The root directory of the guest's file system for a command: `command`
/// (the JSON document), then `stdout` and `stdin` where the command has
/// them, numbered from inode 2 on.
pub open spec fn command_root(json: Seq<u8>, stdout: Option<FileView>, stdin: Option<FileView>) -> (
    Seq<(Seq<u8>, u64)>,
    Seq<FileView>,
) {
    let s1 = add_file((Seq::empty(), Seq::empty()), 2, "command".spec_bytes(), FileView::Stdin(json));
    let (s2, next) = match stdout {
        Some(f) => (add_file(s1, 3, "stdout".spec_bytes(), f), 4u64),
        None => (s1, 3u64),
    };
    match stdin {
        Some(f) => add_file(s2, next, "stdin".spec_bytes(), f),
        None => s2,
    }
}

pub open spec fn file_view(f: Option<FileLike>) -> Option<FileView> {
    match f {
        Some(f) => Some(f@),
        None => None,
    }
}

impl Command {
    /// A command running `program`, with no arguments, files or ports.
    pub fn new(program: &str) -> (r: Command)
        ensures
            r.program@ == program@,
            r.args@.len() == 0,
            r.stdin is None,
            r.stdout is None,
            r.ports@.len() == 0,
    {
        let mut p = String::new();
        push_str(&mut p, program);
        Command { program: p, args: Vec::new(), stdin: None, stdout: None, ports: Vec::new() }
    }

    /// Adds an argument.
    pub fn arg(&mut self, arg: &str) -> (r: &mut Command)
        ensures
            r.args@.len() == old(self).args@.len() + 1,
            r.args@.last()@ == arg@,
            forall|i: int| 0 <= i < old(self).args@.len() ==> #[trigger] r.args@[i] == old(self).args@[i],
            r.program == old(self).program,
            r.stdin == old(self).stdin,
            r.stdout == old(self).stdout,
            r.ports == old(self).ports,
            *final(self) == *final(r),
    {
        let mut a = String::new();
        push_str(&mut a, arg);
        self.args.push(a);
        self
    }

    /// Sets the file that stands for the program's standard input.
    pub fn stdin(&mut self, file: FileLike) -> (r: &mut Command)
        ensures
            *r == (Command { stdin: Some(file), ..*old(self) }),
            *final(self) == *final(r),
    {
        self.stdin = Some(file);
        self
    }

    /// Sets the file that stands for the program's standard output.
    pub fn stdout(&mut self, file: FileLike) -> (r: &mut Command)
        ensures
            *r == (Command { stdout: Some(file), ..*old(self) }),
            *final(self) == *final(r),
    {
        self.stdout = Some(file);
        self
    }

    /// Forwards a port to the program.
    pub fn port(&mut self, port: Port) -> (r: &mut Command)
        ensures
            r.ports@ == old(self).ports@.push(port),
            r.program == old(self).program,
            r.args == old(self).args,
            r.stdin == old(self).stdin,
            r.stdout == old(self).stdout,
            *final(self) == *final(r),
    {
        self.ports.push(port);
        self
    }

    /// The root directory of the guest's file system for the command, with
    /// `command_json`, the command as JSON, as `command`; see
    /// `command_root`.
    pub fn root_files(self, command_json: Vec<u8>) -> (r: FileSystemBuilder)
        requires
            command_json@.len() <= usize::MAX - 0x2000,
            self.stdin matches Some(f) ==> file_fits(f@),
            self.stdout matches Some(f) ==> file_fits(f@),
        ensures
            r.wf(),
            (r.names(), r.files()) == command_root(command_json@, file_view(self.stdout), file_view(self.stdin)),
    {
        let mut builder = FileSystemBuilder::new();
        let ghost json = command_json@;
        proof {
            reveal_strlit("command");
            reveal_strlit("stdout");
            reveal_strlit("stdin");
            vstd::string::is_ascii_spec_bytes("command");
            vstd::string::is_ascii_spec_bytes("stdout");
            vstd::string::is_ascii_spec_bytes("stdin");
            assert(vstd::string::is_ascii("command"));
            assert(vstd::string::is_ascii("stdout"));
            assert(vstd::string::is_ascii("stdin"));
            assert(builder.names().len() == 0);
            assert(builder.files() =~= Seq::<FileView>::empty());
        }
        builder.add_root_file("command", FileLike::Stdin(BufferedStdin::new(command_json)));
        match self.stdout {
            Some(stdout) => {
                builder.add_root_file("stdout", stdout);
            },
            None => {},
        }
        match self.stdin {
            Some(stdin) => {
                builder.add_root_file("stdin", stdin);
            },
            None => {},
        }
        builder
    }
}

} // verus!
