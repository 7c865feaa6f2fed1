//! The flattened device tree that describes the RISC-V guest machine to
//! Linux: memory, CPUs with their interrupt controllers, the PLIC and the
//! virtio-mmio devices. The blob itself is written by `vm_fdt`; this module
//! decides what goes into it.

use vstd::prelude::*;
use crate::address::GPAddr;
use crate::net::GuestNet;
use crate::net::{linux_ip_param, NetView};
use crate::net::packet::ipv4_text;
use crate::text::{decimal, hex_min, push_decimal, push_hex, push_str};
use crate::virtio::device::VIRTIO_MMIO_SIZE;

verus! {

#[verifier::external_type_specification]
#[verifier::external_body]
pub struct ExFdtWriter(vm_fdt::FdtWriter);

#[verifier::external_type_specification]
#[verifier::external_body]
pub struct ExFdtWriterNode(vm_fdt::FdtWriterNode);

/// Why `vm_fdt` refused to write the device tree, in its own words.
#[derive(Debug, Clone, PartialEq, Eq)]
pub struct FdtError {
    pub message: String,
}

/// One step of writing a device tree: a node opened or closed, or a
/// property of the open node, by name and value.
pub enum FdtItem {
    BeginNode(Seq<char>),
    EndNode,
    Null(Seq<char>),
    Str(Seq<char>, Seq<char>),
    StrList(Seq<char>, Seq<Seq<char>>),
    U32(Seq<char>, u32),
    U32s(Seq<char>, Seq<u32>),
    U64s(Seq<char>, Seq<u64>),
    Phandle(u32),
}

/// What has been written into a device-tree writer, in order: its
/// structure block, each token read as the item whose call wrote it. The
/// writer's depth of open nodes is `depth` of these items, and it refuses
/// properties after a node closed (`node_closed`) until the next opens.
pub uninterp spec fn fdt_items(w: vm_fdt::FdtWriter) -> Seq<FdtItem>;

/// How many bytes a writer holds so far: the header and structure block,
/// and the strings block.
pub uninterp spec fn fdt_size(w: vm_fdt::FdtWriter) -> nat;

/// The phandles a writer has been asked to give, whether or not the
/// property then went in.
pub uninterp spec fn fdt_phandles(w: vm_fdt::FdtWriter) -> Set<u32>;

/// The depth of the node that a handle closes.
pub uninterp spec fn fdt_node_depth(n: vm_fdt::FdtWriterNode) -> int;

/// The blob that a writer made by `FdtWriter::new` produces once `items`
/// have been written into it.
pub uninterp spec fn fdt_blob(items: Seq<FdtItem>) -> Seq<u8>;

/// A character `vm_fdt` takes in a node name.
pub open spec fn node_char_ok(c: char) -> bool {
    ('0' <= c <= '9') || ('a' <= c <= 'z') || ('A' <= c <= 'Z') || c == ',' || c == '.' || c == '_' || c == '+'
        || c == '-'
}

/// `s` is a node name of `k` characters, starting with a letter, followed
/// by `@` and a unit address where `k` is short of its end.
pub open spec fn node_name_split(s: Seq<char>, k: int) -> bool {
    &&& 1 <= k <= 31
    &&& k <= s.len()
    &&& ('a' <= s[0] <= 'z') || ('A' <= s[0] <= 'Z')
    &&& forall|i: int| 0 <= i < s.len() && i != k ==> node_char_ok(#[trigger] s[i])
    &&& k < s.len() ==> s[k] == '@'
}

/// A node name `vm_fdt` takes: empty (the root), or a name with an
/// optional unit address.
pub open spec fn node_name_ok(s: Seq<char>) -> bool {
    s.len() == 0 || exists|k: int| #[trigger] node_name_split(s, k)
}

/// A character `vm_fdt` takes in a property name.
pub open spec fn prop_char_ok(c: char) -> bool {
    ('0' <= c <= '9') || ('a' <= c <= 'z') || ('A' <= c <= 'Z') || c == ',' || c == '.' || c == '_' || c == '+'
        || c == '?' || c == '#' || c == '-'
}

/// A property name `vm_fdt` takes: 1 to 31 characters it allows.
pub open spec fn prop_name_ok(s: Seq<char>) -> bool {
    1 <= s.len() <= 31 && forall|i: int| 0 <= i < s.len() ==> prop_char_ok(#[trigger] s[i])
}

/// `s` holds no NUL character.
pub open spec fn no_nul(s: Seq<char>) -> bool {
    forall|i: int| 0 <= i < s.len() ==> #[trigger] s[i] != '\0'
}

/// The most bytes a string list takes, each string with its NUL.
pub open spec fn strs_bytes(vs: Seq<Seq<char>>) -> nat
    decreases vs.len(),
{
    if vs.len() == 0 {
        0
    } else {
        strs_bytes(vs.drop_last()) + 4 * vs.last().len() + 1
    }
}

/// Whether the last node opened or closed in `items` was closed.
pub open spec fn node_closed(items: Seq<FdtItem>) -> bool
    decreases items.len(),
{
    if items.len() == 0 {
        false
    } else {
        match items.last() {
            FdtItem::EndNode => true,
            FdtItem::BeginNode(_) => false,
            _ => node_closed(items.drop_last()),
        }
    }
}

/// A writer takes a property named `name` of at most `val_bytes` bytes: a
/// node is open, none was closed since, the name is valid, and the blob
/// stays within 4 GiB.
pub open spec fn prop_fits(w: vm_fdt::FdtWriter, name: Seq<char>, val_bytes: nat) -> bool {
    &&& depth(fdt_items(w)) > 0
    &&& !node_closed(fdt_items(w))
    &&& prop_name_ok(name)
    &&& fdt_size(w) + val_bytes <= u32::MAX
}

/// `FdtWriter::new`: a writer with nothing written yet; its header and
/// empty reservation map take 56 bytes. It never fails.
#[verifier::external_body]
fn fdt_new() -> (r: Result<vm_fdt::FdtWriter, FdtError>)
    ensures
        r is Ok,
        r matches Ok(w) ==> fdt_items(w) == Seq::<FdtItem>::empty() && fdt_size(w) == 56 && fdt_phandles(w)
            == Set::<u32>::empty(),
{
    match vm_fdt::FdtWriter::new() {
        Ok(w) => Ok(w),
        Err(e) => Err(FdtError { message: e.to_string() }),
    }
}

/// `FdtWriter::begin_node`: where it succeeds, the node is opened and its
/// handle closes at the new depth; where it fails, nothing is written. It
/// succeeds below depth 64 with a valid name.
#[verifier::external_body]
fn fdt_begin_node(w: &mut vm_fdt::FdtWriter, name: &str) -> (r: Result<vm_fdt::FdtWriterNode, FdtError>)
    ensures
        r matches Ok(n) ==> fdt_items(*final(w)) == fdt_items(*old(w)).push(FdtItem::BeginNode(name@))
            && fdt_node_depth(n) == depth(fdt_items(*final(w))) && fdt_size(*final(w)) <= fdt_size(*old(w))
            + name@.len() + 8,
        r is Err ==> fdt_items(*final(w)) == fdt_items(*old(w)) && fdt_size(*final(w)) == fdt_size(*old(w)),
        fdt_phandles(*final(w)) == fdt_phandles(*old(w)),
        depth(fdt_items(*old(w))) < 64 && node_name_ok(name@) ==> r is Ok,
{
    match w.begin_node(name) {
        Ok(n) => Ok(n),
        Err(e) => Err(FdtError { message: e.to_string() }),
    }
}

/// `FdtWriter::end_node`: where it succeeds, the node is closed; where it
/// fails, nothing is written. It succeeds for the handle of the innermost
/// open node.
#[verifier::external_body]
fn fdt_end_node(w: &mut vm_fdt::FdtWriter, node: vm_fdt::FdtWriterNode) -> (r: Result<(), FdtError>)
    ensures
        r is Ok ==> fdt_items(*final(w)) == fdt_items(*old(w)).push(FdtItem::EndNode) && fdt_size(*final(w))
            <= fdt_size(*old(w)) + 4,
        r is Err ==> fdt_items(*final(w)) == fdt_items(*old(w)) && fdt_size(*final(w)) == fdt_size(*old(w)),
        fdt_phandles(*final(w)) == fdt_phandles(*old(w)),
        fdt_node_depth(node) == depth(fdt_items(*old(w))) ==> r is Ok,
{
    match w.end_node(node) {
        Ok(()) => Ok(()),
        Err(e) => Err(FdtError { message: e.to_string() }),
    }
}

/// `FdtWriter::property_null`: an empty property, or nothing written. It
/// succeeds where `prop_fits` holds.
#[verifier::external_body]
fn fdt_property_null(w: &mut vm_fdt::FdtWriter, name: &str) -> (r: Result<(), FdtError>)
    ensures
        r is Ok ==> fdt_items(*final(w)) == fdt_items(*old(w)).push(FdtItem::Null(name@)) && fdt_size(*final(w))
            <= fdt_size(*old(w)) + name@.len() + 16,
        r is Err ==> fdt_items(*final(w)) == fdt_items(*old(w)) && fdt_size(*final(w)) == fdt_size(*old(w)),
        fdt_phandles(*final(w)) == fdt_phandles(*old(w)),
        prop_fits(*old(w), name@, 0) ==> r is Ok,
{
    match w.property_null(name) {
        Ok(()) => Ok(()),
        Err(e) => Err(FdtError { message: e.to_string() }),
    }
}

/// `FdtWriter::property_string`: a string property, or nothing written;
/// the string takes at most four bytes a character and its NUL. It
/// succeeds where `prop_fits` holds and the string holds no NUL.
#[verifier::external_body]
fn fdt_property_string(w: &mut vm_fdt::FdtWriter, name: &str, val: &str) -> (r: Result<(), FdtError>)
    ensures
        r is Ok ==> fdt_items(*final(w)) == fdt_items(*old(w)).push(FdtItem::Str(name@, val@)) && fdt_size(
            *final(w),
        ) <= fdt_size(*old(w)) + name@.len() + 16 + 4 * val@.len() + 1,
        r is Err ==> fdt_items(*final(w)) == fdt_items(*old(w)) && fdt_size(*final(w)) == fdt_size(*old(w)),
        fdt_phandles(*final(w)) == fdt_phandles(*old(w)),
        prop_fits(*old(w), name@, 4 * val@.len() + 1) && no_nul(val@) ==> r is Ok,
{
    match w.property_string(name, val) {
        Ok(()) => Ok(()),
        Err(e) => Err(FdtError { message: e.to_string() }),
    }
}

/// `FdtWriter::property_string_list`: a string-list property, or nothing
/// written. It succeeds where `prop_fits` holds and no string holds a NUL.
#[verifier::external_body]
fn fdt_property_string_list(w: &mut vm_fdt::FdtWriter, name: &str, values: Vec<String>) -> (r: Result<(), FdtError>)
    ensures
        r is Ok ==> fdt_items(*final(w)) == fdt_items(*old(w)).push(
            FdtItem::StrList(name@, values@.map_values(|v: String| v@)),
        ) && fdt_size(*final(w)) <= fdt_size(*old(w)) + name@.len() + 16 + strs_bytes(
            values@.map_values(|v: String| v@),
        ),
        r is Err ==> fdt_items(*final(w)) == fdt_items(*old(w)) && fdt_size(*final(w)) == fdt_size(*old(w)),
        fdt_phandles(*final(w)) == fdt_phandles(*old(w)),
        prop_fits(*old(w), name@, strs_bytes(values@.map_values(|v: String| v@))) && (forall|i: int|
            0 <= i < values@.len() ==> no_nul(#[trigger] values@[i]@)) ==> r is Ok,
{
    match w.property_string_list(name, values) {
        Ok(()) => Ok(()),
        Err(e) => Err(FdtError { message: e.to_string() }),
    }
}

/// `FdtWriter::property_u32`: a 32-bit property, or nothing written. It
/// succeeds where `prop_fits` holds.
#[verifier::external_body]
fn fdt_property_u32(w: &mut vm_fdt::FdtWriter, name: &str, val: u32) -> (r: Result<(), FdtError>)
    ensures
        r is Ok ==> fdt_items(*final(w)) == fdt_items(*old(w)).push(FdtItem::U32(name@, val)) && fdt_size(
            *final(w),
        ) <= fdt_size(*old(w)) + name@.len() + 20,
        r is Err ==> fdt_items(*final(w)) == fdt_items(*old(w)) && fdt_size(*final(w)) == fdt_size(*old(w)),
        fdt_phandles(*final(w)) == fdt_phandles(*old(w)),
        prop_fits(*old(w), name@, 4) ==> r is Ok,
{
    match w.property_u32(name, val) {
        Ok(()) => Ok(()),
        Err(e) => Err(FdtError { message: e.to_string() }),
    }
}

/// `FdtWriter::property_array_u32`: a property of 32-bit cells, or nothing
/// written. It succeeds where `prop_fits` holds.
#[verifier::external_body]
fn fdt_property_array_u32(w: &mut vm_fdt::FdtWriter, name: &str, cells: &[u32]) -> (r: Result<(), FdtError>)
    ensures
        r is Ok ==> fdt_items(*final(w)) == fdt_items(*old(w)).push(FdtItem::U32s(name@, cells@)) && fdt_size(
            *final(w),
        ) <= fdt_size(*old(w)) + name@.len() + 16 + 4 * cells@.len(),
        r is Err ==> fdt_items(*final(w)) == fdt_items(*old(w)) && fdt_size(*final(w)) == fdt_size(*old(w)),
        fdt_phandles(*final(w)) == fdt_phandles(*old(w)),
        prop_fits(*old(w), name@, 4 * cells@.len()) ==> r is Ok,
{
    match w.property_array_u32(name, cells) {
        Ok(()) => Ok(()),
        Err(e) => Err(FdtError { message: e.to_string() }),
    }
}

/// `FdtWriter::property_array_u64`: a property of 64-bit cells, or nothing
/// written. It succeeds where `prop_fits` holds.
#[verifier::external_body]
fn fdt_property_array_u64(w: &mut vm_fdt::FdtWriter, name: &str, cells: &[u64]) -> (r: Result<(), FdtError>)
    ensures
        r is Ok ==> fdt_items(*final(w)) == fdt_items(*old(w)).push(FdtItem::U64s(name@, cells@)) && fdt_size(
            *final(w),
        ) <= fdt_size(*old(w)) + name@.len() + 16 + 8 * cells@.len(),
        r is Err ==> fdt_items(*final(w)) == fdt_items(*old(w)) && fdt_size(*final(w)) == fdt_size(*old(w)),
        fdt_phandles(*final(w)) == fdt_phandles(*old(w)),
        prop_fits(*old(w), name@, 8 * cells@.len()) ==> r is Ok,
{
    match w.property_array_u64(name, cells) {
        Ok(()) => Ok(()),
        Err(e) => Err(FdtError { message: e.to_string() }),
    }
}

/// `FdtWriter::property_phandle`: the node's phandle, or nothing written.
/// The phandle counts as asked for either way; one asked for before fails,
/// and a new one succeeds where a node is open and none closed since.
#[verifier::external_body]
fn fdt_property_phandle(w: &mut vm_fdt::FdtWriter, val: u32) -> (r: Result<(), FdtError>)
    ensures
        r is Ok ==> fdt_items(*final(w)) == fdt_items(*old(w)).push(FdtItem::Phandle(val)) && fdt_size(*final(w))
            <= fdt_size(*old(w)) + 27,
        r is Err ==> fdt_items(*final(w)) == fdt_items(*old(w)) && fdt_size(*final(w)) == fdt_size(*old(w)),
        fdt_phandles(*final(w)) == fdt_phandles(*old(w)).insert(val),
        !fdt_phandles(*old(w)).contains(val) && depth(fdt_items(*old(w))) > 0 && !node_closed(fdt_items(*old(w)))
            && fdt_size(*old(w)) + 4 <= u32::MAX ==> r is Ok,
{
    match w.property_phandle(val) {
        Ok(()) => Ok(()),
        Err(e) => Err(FdtError { message: e.to_string() }),
    }
}

/// `FdtWriter::finish`: the blob of what was written. It succeeds where
/// every node is closed and the blob stays within 4 GiB.
#[verifier::external_body]
fn fdt_finish(w: vm_fdt::FdtWriter) -> (r: Result<Vec<u8>, FdtError>)
    ensures
        r matches Ok(b) ==> b@ == fdt_blob(fdt_items(w)),
        depth(fdt_items(w)) == 0 && fdt_size(w) + 4 <= u32::MAX ==> r is Ok,
{
    match w.finish() {
        Ok(b) => Ok(b),
        Err(e) => Err(FdtError { message: e.to_string() }),
    }
}

/// The timer frequency the guest is told.
pub const TIMEBASE_FREQ: u32 = 10000000;

/// The PLIC's phandle; the CPUs' interrupt controllers take 2, 3, ...
pub const PLIC_PHANDLE: u32 = 1;

/// The instruction-set extensions each CPU announces.
pub open spec fn isa_extensions() -> Seq<Seq<char>> {
    seq!["i"@, "m"@, "a"@, "f"@, "d"@, "sstc"@]
}

/// The node of hart `hart`, with its interrupt controller of phandle
/// `hart + 2`.
pub open spec fn cpu_items(hart: u32) -> Seq<FdtItem> {
    seq![
        FdtItem::BeginNode("cpu@"@ + hex_min(hart as nat)),
        FdtItem::Str("device_type"@, "cpu"@),
        FdtItem::Str("compatible"@, "riscv"@),
        FdtItem::U32("reg"@, hart),
        FdtItem::Str("status"@, "okay"@),
        FdtItem::Str("mmu-type"@, "riscv,sv48"@),
        FdtItem::Str("riscv,isa-base"@, "rv64i"@),
        FdtItem::StrList("riscv,isa-extensions"@, isa_extensions()),
        FdtItem::BeginNode("interrupt-controller"@),
        FdtItem::U32("#interrupt-cells"@, 1),
        FdtItem::U32("#address-cells"@, 0),
        FdtItem::Str("compatible"@, "riscv,cpu-intc"@),
        FdtItem::Null("interrupt-controller"@),
        FdtItem::Phandle((hart + 2) as u32),
        FdtItem::EndNode,
        FdtItem::EndNode,
    ]
}

/// The nodes of harts `0 .. n`.
pub open spec fn cpus_items(n: nat) -> Seq<FdtItem>
    decreases n,
{
    if n == 0 {
        Seq::empty()
    } else {
        cpus_items((n - 1) as nat) + cpu_items((n - 1) as u32)
    }
}

/// The PLIC's `interrupts-extended` cells for harts `0 .. n`: each hart's
/// interrupt controller, context 9.
pub open spec fn interrupts_extended(n: nat) -> Seq<u32>
    decreases n,
{
    if n == 0 {
        Seq::empty()
    } else {
        interrupts_extended((n - 1) as nat) + seq![(n + 1) as u32, 9u32]
    }
}

/// The node of a virtio-mmio device at `addr` raising `irq`.
pub open spec fn virtio_items(addr: GPAddr, irq: u8) -> Seq<FdtItem> {
    seq![
        FdtItem::BeginNode("virtio-mmio@"@ + decimal(addr.0 as nat)),
        FdtItem::Str("compatible"@, "virtio,mmio"@),
        FdtItem::U64s("reg"@, seq![addr.0 as u64, VIRTIO_MMIO_SIZE as u64]),
        FdtItem::U32s("interrupts"@, seq![irq as u32]),
        FdtItem::U32("interrupt-parent"@, PLIC_PHANDLE),
        FdtItem::EndNode,
    ]
}

/// The nodes of the virtio-mmio devices `ms`, in order.
pub open spec fn virtios_items(ms: Seq<(GPAddr, u8)>) -> Seq<FdtItem>
    decreases ms.len(),
{
    if ms.len() == 0 {
        Seq::empty()
    } else {
        virtios_items(ms.drop_last()) + virtio_items(ms.last().0, ms.last().1)
    }
}

/// The kernel command line.
pub open spec fn bootargs(ip_param: Seq<char>) -> Seq<char> {
    "console=hvc earlycon=sbi quiet panic=-1 "@ + ip_param
}

/// The head of the tree: the root's properties, `chosen` with the command
/// line, and the memory node.
pub open spec fn head_items(ram_start: GPAddr, ram_size: u64, ip_param: Seq<char>) -> Seq<FdtItem> {
    seq![
        FdtItem::BeginNode(Seq::empty()),
        FdtItem::Str("compatible"@, "riscv-virtio"@),
        FdtItem::U32("#address-cells"@, 2),
        FdtItem::U32("#size-cells"@, 2),
        FdtItem::BeginNode("chosen"@),
        FdtItem::Str("bootargs"@, bootargs(ip_param)),
        FdtItem::EndNode,
        FdtItem::BeginNode("memory@"@ + hex_min(ram_start.0 as nat)),
        FdtItem::Str("device_type"@, "memory"@),
        FdtItem::U64s("reg"@, seq![ram_start.0 as u64, ram_size]),
        FdtItem::EndNode,
        FdtItem::BeginNode("cpus"@),
        FdtItem::U32("#address-cells"@, 1),
        FdtItem::U32("#size-cells"@, 0),
        FdtItem::U32("timebase-frequency"@, TIMEBASE_FREQ),
    ]
}

/// The bus of peripherals up to the PLIC node (its register window is
/// `plic_mmio_size` bytes at 0x0a00_0000 whatever `plic_base` says).
pub open spec fn soc_items(num_cpus: u32, plic_base: GPAddr, plic_mmio_size: usize) -> Seq<FdtItem> {
    seq![
        FdtItem::EndNode,
        FdtItem::BeginNode("soc"@),
        FdtItem::U32("#address-cells"@, 2),
        FdtItem::U32("#size-cells"@, 2),
        FdtItem::Str("compatible"@, "simple-bus"@),
        FdtItem::Null("ranges"@),
        FdtItem::BeginNode("plic@"@ + hex_min(plic_base.0 as nat)),
        FdtItem::Str("compatible"@, "riscv,plic0"@),
        FdtItem::Phandle(PLIC_PHANDLE),
        FdtItem::U32("#address-cells"@, 0),
        FdtItem::U32("#interrupt-cells"@, 1),
        FdtItem::U32("riscv,ndev"@, 3),
        FdtItem::Null("interrupt-controller"@),
        FdtItem::U64s("reg"@, seq![0x0a00_0000u64, plic_mmio_size as u64]),
        FdtItem::U32s("interrupts-extended"@, interrupts_extended(num_cpus as nat)),
        FdtItem::EndNode,
    ]
}

/// Everything written into the guest's device tree, in order.
pub open spec fn guest_fdt_items(
    num_cpus: u32,
    ram_start: GPAddr,
    ram_size: u64,
    plic_base: GPAddr,
    plic_mmio_size: usize,
    mmios: Seq<(GPAddr, u8)>,
    ip_param: Seq<char>,
) -> Seq<FdtItem> {
    head_items(ram_start, ram_size, ip_param) + cpus_items(num_cpus as nat) + soc_items(
        num_cpus,
        plic_base,
        plic_mmio_size,
    ) + virtios_items(mmios) + seq![FdtItem::EndNode, FdtItem::EndNode]
}

/// A new string holding `t`.
fn owned(t: &str) -> (r: String)
    ensures
        r@ == t@,
{
    let mut s = String::new();
    push_str(&mut s, t);
    s
}

/// The most bytes the node of one hart takes.
#[verifier::inline]
pub open spec fn cpu_node_bytes() -> nat {
    1024
}

/// `s` and `t` hold no NUL character, so neither does `s + t`.
proof fn lemma_no_nul_add(s: Seq<char>, t: Seq<char>)
    requires
        no_nul(s),
        no_nul(t),
    ensures
        no_nul(s + t),
{
    assert forall|i: int| 0 <= i < (s + t).len() implies #[trigger] (s + t)[i] != '\0' by {
        if i < s.len() {
            assert((s + t)[i] == s[i]);
        } else {
            assert((s + t)[i] == t[i - s.len()]);
        }
    }
}

/// Writes the node of hart `hart`. It succeeds where the writer is inside
/// the `cpus` node, the phandle `hart + 2` was not asked for, and the node
/// fits within 4 GiB.
#[verifier::rlimit(40)]
fn write_cpu(fdt: &mut vm_fdt::FdtWriter, hart: u32) -> (r: Result<(), FdtError>)
    requires
        hart <= u32::MAX - 2,
    ensures
        r is Ok ==> fdt_items(*final(fdt)) == fdt_items(*old(fdt)) + cpu_items(hart) && depth(
            fdt_items(*final(fdt)),
        ) == depth(fdt_items(*old(fdt))) && fdt_size(*final(fdt)) <= fdt_size(*old(fdt)) + cpu_node_bytes()
            && fdt_phandles(*final(fdt)) == fdt_phandles(*old(fdt)).insert((hart + 2) as u32),
        depth(fdt_items(*old(fdt))) == 2 && !fdt_phandles(*old(fdt)).contains((hart + 2) as u32) && fdt_size(
            *old(fdt),
        ) + cpu_node_bytes() <= u32::MAX ==> r is Ok,
{
    proof {
        broadcast use lemma_depth_push, lemma_closed_push;
        reveal_strlit("cpu@");
        reveal_strlit("device_type");
        reveal_strlit("cpu");
        reveal_strlit("compatible");
        reveal_strlit("riscv");
        reveal_strlit("reg");
        reveal_strlit("status");
        reveal_strlit("okay");
        reveal_strlit("mmu-type");
        reveal_strlit("riscv,sv48");
        reveal_strlit("riscv,isa-base");
        reveal_strlit("rv64i");
        reveal_strlit("riscv,isa-extensions");
        reveal_strlit("i");
        reveal_strlit("m");
        reveal_strlit("a");
        reveal_strlit("f");
        reveal_strlit("d");
        reveal_strlit("sstc");
        reveal_strlit("interrupt-controller");
        reveal_strlit("#interrupt-cells");
        reveal_strlit("#address-cells");
        reveal_strlit("riscv,cpu-intc");
        assert(pow16(8) == 0x1_0000_0000) by {
            reveal_with_fuel(pow16, 9);
        }
        lemma_hex_min(hart as nat, 8);
    }
    let ghost i0 = fdt_items(*fdt);
    let mut name = String::new();
    push_str(&mut name, "cpu@");
    push_hex(&mut name, hart as u64);
    proof {
        assert(node_name_split(name@, 3));
    }
    let cpu_node = fdt_begin_node(fdt, name.as_str())?;
    fdt_property_string(fdt, "device_type", "cpu")?;
    fdt_property_string(fdt, "compatible", "riscv")?;
    fdt_property_u32(fdt, "reg", hart)?;
    fdt_property_string(fdt, "status", "okay")?;
    fdt_property_string(fdt, "mmu-type", "riscv,sv48")?;
    fdt_property_string(fdt, "riscv,isa-base", "rv64i")?;
    let exts = vec![owned("i"), owned("m"), owned("a"), owned("f"), owned("d"), owned("sstc")];
    assert(exts@.map_values(|v: String| v@) =~= isa_extensions());
    proof {
        assert(strs_bytes(isa_extensions()) == 42) by {
            reveal_with_fuel(strs_bytes, 7);
            assert(isa_extensions().drop_last() =~= seq!["i"@, "m"@, "a"@, "f"@, "d"@]);
            assert(isa_extensions().drop_last().drop_last() =~= seq!["i"@, "m"@, "a"@, "f"@]);
            assert(isa_extensions().drop_last().drop_last().drop_last() =~= seq!["i"@, "m"@, "a"@]);
            assert(isa_extensions().drop_last().drop_last().drop_last().drop_last() =~= seq!["i"@, "m"@]);
            assert(isa_extensions().drop_last().drop_last().drop_last().drop_last().drop_last() =~= seq!["i"@]);
            assert(seq!["i"@].drop_last() =~= Seq::<Seq<char>>::empty());
        }
        assert forall|i: int| 0 <= i < exts@.len() implies no_nul(#[trigger] exts@[i]@) by {
            assert(exts@[i]@ == isa_extensions()[i]);
            if i == 0 {
            } else if i == 1 {
            } else if i == 2 {
            } else if i == 3 {
            } else if i == 4 {
            } else {
            }
        }
    }
    fdt_property_string_list(fdt, "riscv,isa-extensions", exts)?;
    proof {
        assert(node_name_split("interrupt-controller"@, 20));
    }
    let intc_node = fdt_begin_node(fdt, "interrupt-controller")?;
    fdt_property_u32(fdt, "#interrupt-cells", 1)?;
    fdt_property_u32(fdt, "#address-cells", 0)?;
    fdt_property_string(fdt, "compatible", "riscv,cpu-intc")?;
    fdt_property_null(fdt, "interrupt-controller")?;
    fdt_property_phandle(fdt, hart + 2)?;
    fdt_end_node(fdt, intc_node)?;
    fdt_end_node(fdt, cpu_node)?;
    assert(fdt_items(*fdt) =~= i0 + cpu_items(hart));
    Ok(())
}

/// The most bytes the node of one virtio-mmio device takes.
#[verifier::inline]
pub open spec fn virtio_node_bytes() -> nat {
    256
}

/// The most bytes the head of the tree takes, with `ip_len` characters of
/// network configuration on the command line.
#[verifier::inline]
pub open spec fn head_bytes(ip_len: nat) -> nat {
    1024 + 4 * ip_len
}

/// The most bytes the peripheral bus up to the PLIC node takes, for
/// `num_cpus` harts.
#[verifier::inline]
pub open spec fn soc_bytes(num_cpus: nat) -> nat {
    1024 + 8 * num_cpus
}

/// Writes the node of the virtio-mmio device at `addr` raising `irq`. It
/// succeeds where the writer is inside the peripheral bus and the node
/// fits within 4 GiB.
#[verifier::rlimit(40)]
fn write_virtio(fdt: &mut vm_fdt::FdtWriter, addr: GPAddr, irq: u8) -> (r: Result<(), FdtError>)
    ensures
        r is Ok ==> fdt_items(*final(fdt)) == fdt_items(*old(fdt)) + virtio_items(addr, irq) && depth(
            fdt_items(*final(fdt)),
        ) == depth(fdt_items(*old(fdt))) && fdt_size(*final(fdt)) <= fdt_size(*old(fdt)) + virtio_node_bytes(),
        fdt_phandles(*final(fdt)) == fdt_phandles(*old(fdt)),
        depth(fdt_items(*old(fdt))) == 2 && fdt_size(*old(fdt)) + virtio_node_bytes() <= u32::MAX ==> r is Ok,
{
    proof {
        broadcast use lemma_depth_push, lemma_closed_push;
        reveal_strlit("virtio-mmio@");
        reveal_strlit("compatible");
        reveal_strlit("virtio,mmio");
        reveal_strlit("reg");
        reveal_strlit("interrupts");
        reveal_strlit("interrupt-parent");
        assert(pow10(20) == 100_000_000_000_000_000_000) by {
            reveal_with_fuel(pow10, 21);
        }
        lemma_decimal(addr.0 as nat, 20);
    }
    let ghost i0 = fdt_items(*fdt);
    let mut name = String::new();
    push_str(&mut name, "virtio-mmio@");
    push_decimal(&mut name, addr.as_usize() as u64);
    proof {
        assert(node_name_split(name@, 11));
    }
    let node = fdt_begin_node(fdt, name.as_str())?;
    fdt_property_string(fdt, "compatible", "virtio,mmio")?;
    let reg = vec![addr.as_usize() as u64, VIRTIO_MMIO_SIZE as u64];
    assert(reg@ =~= seq![addr.0 as u64, VIRTIO_MMIO_SIZE as u64]);
    fdt_property_array_u64(fdt, "reg", reg.as_slice())?;
    let irqs = vec![irq as u32];
    assert(irqs@ =~= seq![irq as u32]);
    fdt_property_array_u32(fdt, "interrupts", irqs.as_slice())?;
    fdt_property_u32(fdt, "interrupt-parent", PLIC_PHANDLE)?;
    fdt_end_node(fdt, node)?;
    assert(fdt_items(*fdt) =~= i0 + virtio_items(addr, irq));
    Ok(())
}

/// The command line holds no NUL where the network configuration holds
/// none.
proof fn lemma_bootargs_no_nul(ip_param: Seq<char>)
    requires
        no_nul(ip_param),
    ensures
        no_nul(bootargs(ip_param)),
        bootargs(ip_param).len() == 40 + ip_param.len(),
{
    reveal_strlit("console=hvc earlycon=sbi quiet panic=-1 ");
    lemma_no_nul_add("console=hvc earlycon=sbi quiet panic=-1 "@, ip_param);
}

/// Writes the head of the tree, up to the properties of the `cpus` node,
/// which it leaves open along with the root; hands back both nodes. It
/// succeeds on a fresh writer where the network configuration holds no
/// NUL and the head fits within 4 GiB.
#[verifier::rlimit(60)]
fn write_head(fdt: &mut vm_fdt::FdtWriter, ram_start: GPAddr, ram_size: u64, ip_param: &str) -> (r: Result<
    (vm_fdt::FdtWriterNode, vm_fdt::FdtWriterNode),
    FdtError,
>)
    ensures
        r matches Ok((root, cpus)) ==> fdt_items(*final(fdt)) == fdt_items(*old(fdt)) + head_items(
            ram_start,
            ram_size,
            ip_param@,
        ) && fdt_node_depth(root) == depth(fdt_items(*old(fdt))) + 1 && fdt_node_depth(cpus) == depth(
            fdt_items(*old(fdt)),
        ) + 2 && depth(fdt_items(*final(fdt))) == depth(fdt_items(*old(fdt))) + 2 && !node_closed(
            fdt_items(*final(fdt)),
        ) && fdt_size(*final(fdt)) <= fdt_size(*old(fdt)) + head_bytes(ip_param@.len()),
        fdt_phandles(*final(fdt)) == fdt_phandles(*old(fdt)),
        depth(fdt_items(*old(fdt))) == 0 && no_nul(ip_param@) && fdt_size(*old(fdt)) + head_bytes(
            ip_param@.len(),
        ) <= u32::MAX ==> r is Ok,
{
    proof {
        broadcast use lemma_depth_push, lemma_closed_push;
        reveal_strlit("");
        reveal_strlit("compatible");
        reveal_strlit("riscv-virtio");
        reveal_strlit("#address-cells");
        reveal_strlit("#size-cells");
        reveal_strlit("chosen");
        reveal_strlit("bootargs");
        reveal_strlit("memory@");
        reveal_strlit("device_type");
        reveal_strlit("memory");
        reveal_strlit("reg");
        reveal_strlit("cpus");
        reveal_strlit("timebase-frequency");
        assert(pow16(16) == 0x1_0000_0000_0000_0000) by {
            reveal_with_fuel(pow16, 17);
        }
        lemma_hex_min(ram_start.0 as nat, 16);
        if no_nul(ip_param@) {
            lemma_bootargs_no_nul(ip_param@);
        }
        assert(bootargs(ip_param@).len() == 40 + ip_param@.len()) by {
            reveal_strlit("console=hvc earlycon=sbi quiet panic=-1 ");
        }
    }
    let ghost i0 = fdt_items(*fdt);
    let root_node = fdt_begin_node(fdt, "")?;
    fdt_property_string(fdt, "compatible", "riscv-virtio")?;
    fdt_property_u32(fdt, "#address-cells", 2)?;
    fdt_property_u32(fdt, "#size-cells", 2)?;
    proof {
        assert(node_name_split("chosen"@, 6));
    }
    let chosen_node = fdt_begin_node(fdt, "chosen")?;
    let mut args = String::new();
    push_str(&mut args, "console=hvc earlycon=sbi quiet panic=-1 ");
    push_str(&mut args, ip_param);
    fdt_property_string(fdt, "bootargs", args.as_str())?;
    fdt_end_node(fdt, chosen_node)?;
    let mut name = String::new();
    push_str(&mut name, "memory@");
    push_hex(&mut name, ram_start.as_usize() as u64);
    proof {
        assert(node_name_split(name@, 6));
    }
    let memory_node = fdt_begin_node(fdt, name.as_str())?;
    fdt_property_string(fdt, "device_type", "memory")?;
    let reg = vec![ram_start.as_usize() as u64, ram_size];
    assert(reg@ =~= seq![ram_start.0 as u64, ram_size]);
    fdt_property_array_u64(fdt, "reg", reg.as_slice())?;
    fdt_end_node(fdt, memory_node)?;
    proof {
        assert(node_name_split("cpus"@, 4));
    }
    let cpus_node = fdt_begin_node(fdt, "cpus")?;
    fdt_property_u32(fdt, "#address-cells", 1)?;
    fdt_property_u32(fdt, "#size-cells", 0)?;
    fdt_property_u32(fdt, "timebase-frequency", TIMEBASE_FREQ)?;
    proof {
        assert(""@ =~= Seq::<char>::empty());
    }
    assert(fdt_items(*fdt) =~= i0 + head_items(ram_start, ram_size, ip_param@));
    Ok((root_node, cpus_node))
}

/// The PLIC's cells take two per hart.
proof fn lemma_interrupts_extended_len(n: nat)
    ensures
        interrupts_extended(n).len() == 2 * n,
    decreases n,
{
    if n > 0 {
        lemma_interrupts_extended_len((n - 1) as nat);
    }
}

/// Closes the `cpus` node and writes the peripheral bus up to the PLIC
/// node; leaves the bus open and hands it back. It succeeds where `cpus`
/// is the innermost open node at depth 2, the PLIC's phandle was not asked
/// for, and the nodes fit within 4 GiB.
#[verifier::rlimit(60)]
fn write_soc(
    fdt: &mut vm_fdt::FdtWriter,
    cpus_node: vm_fdt::FdtWriterNode,
    num_cpus: u32,
    plic_base: GPAddr,
    plic_mmio_size: usize,
    interrupts_ext: &[u32],
) -> (r: Result<vm_fdt::FdtWriterNode, FdtError>)
    requires
        interrupts_ext@ == interrupts_extended(num_cpus as nat),
    ensures
        r matches Ok(soc) ==> fdt_items(*final(fdt)) == fdt_items(*old(fdt)) + soc_items(
            num_cpus,
            plic_base,
            plic_mmio_size,
        ) && fdt_node_depth(soc) == depth(fdt_items(*old(fdt))) && depth(fdt_items(*final(fdt))) == depth(
            fdt_items(*old(fdt)),
        ) && fdt_size(*final(fdt)) <= fdt_size(*old(fdt)) + soc_bytes(num_cpus as nat) && fdt_phandles(
            *final(fdt),
        ) == fdt_phandles(*old(fdt)).insert(PLIC_PHANDLE),
        depth(fdt_items(*old(fdt))) == 2 && fdt_node_depth(cpus_node) == 2 && !fdt_phandles(*old(fdt)).contains(
            PLIC_PHANDLE,
        ) && fdt_size(*old(fdt)) + soc_bytes(num_cpus as nat) <= u32::MAX ==> r is Ok,
{
    proof {
        broadcast use lemma_depth_push, lemma_closed_push;
        reveal_strlit("soc");
        reveal_strlit("#address-cells");
        reveal_strlit("#size-cells");
        reveal_strlit("compatible");
        reveal_strlit("simple-bus");
        reveal_strlit("ranges");
        reveal_strlit("plic@");
        reveal_strlit("riscv,plic0");
        reveal_strlit("#interrupt-cells");
        reveal_strlit("riscv,ndev");
        reveal_strlit("interrupt-controller");
        reveal_strlit("reg");
        reveal_strlit("interrupts-extended");
        assert(pow16(16) == 0x1_0000_0000_0000_0000) by {
            reveal_with_fuel(pow16, 17);
        }
        lemma_hex_min(plic_base.0 as nat, 16);
        lemma_interrupts_extended_len(num_cpus as nat);
    }
    let ghost i0 = fdt_items(*fdt);
    fdt_end_node(fdt, cpus_node)?;
    proof {
        assert(node_name_split("soc"@, 3));
    }
    let soc_node = fdt_begin_node(fdt, "soc")?;
    fdt_property_u32(fdt, "#address-cells", 2)?;
    fdt_property_u32(fdt, "#size-cells", 2)?;
    fdt_property_string(fdt, "compatible", "simple-bus")?;
    fdt_property_null(fdt, "ranges")?;
    let mut name = String::new();
    push_str(&mut name, "plic@");
    push_hex(&mut name, plic_base.as_usize() as u64);
    proof {
        assert(node_name_split(name@, 4));
    }
    let plic_node = fdt_begin_node(fdt, name.as_str())?;
    fdt_property_string(fdt, "compatible", "riscv,plic0")?;
    fdt_property_phandle(fdt, PLIC_PHANDLE)?;
    fdt_property_u32(fdt, "#address-cells", 0)?;
    fdt_property_u32(fdt, "#interrupt-cells", 1)?;
    fdt_property_u32(fdt, "riscv,ndev", 3)?;
    fdt_property_null(fdt, "interrupt-controller")?;
    let reg = vec![0x0a00_0000u64, plic_mmio_size as u64];
    assert(reg@ =~= seq![0x0a00_0000u64, plic_mmio_size as u64]);
    fdt_property_array_u64(fdt, "reg", reg.as_slice())?;
    fdt_property_array_u32(fdt, "interrupts-extended", interrupts_ext)?;
    fdt_end_node(fdt, plic_node)?;
    assert(fdt_items(*fdt) =~= i0 + soc_items(num_cpus, plic_base, plic_mmio_size));
    Ok(soc_node)
}

/// Writes the nodes of harts `0 .. num_cpus`; hands back the PLIC's cells
/// for them. It succeeds where the writer is inside the `cpus` node, none
/// of the phandles `2 .. num_cpus + 2` was asked for, and the nodes fit
/// within 4 GiB.
fn write_cpus(fdt: &mut vm_fdt::FdtWriter, num_cpus: u32) -> (r: Result<Vec<u32>, FdtError>)
    requires
        num_cpus <= u32::MAX - 2,
    ensures
        r matches Ok(ext) ==> ext@ == interrupts_extended(num_cpus as nat) && fdt_items(*final(fdt)) == fdt_items(
            *old(fdt),
        ) + cpus_items(num_cpus as nat) && depth(fdt_items(*final(fdt))) == depth(fdt_items(*old(fdt)))
            && fdt_size(*final(fdt)) <= fdt_size(*old(fdt)) + num_cpus * cpu_node_bytes() && fdt_phandles(
            *final(fdt),
        ) == fdt_phandles(*old(fdt)) + Set::new(|p: u32| 2 <= p < num_cpus + 2),
        depth(fdt_items(*old(fdt))) == 2 && (forall|p: u32| 2 <= p < num_cpus + 2 ==> !(#[trigger] fdt_phandles(
            *old(fdt),
        ).contains(p))) && fdt_size(*old(fdt)) + num_cpus * cpu_node_bytes() <= u32::MAX ==> r is Ok,
{
    let ghost i1 = fdt_items(*fdt);
    let ghost s1 = fdt_size(*fdt);
    let ghost p1 = fdt_phandles(*fdt);
    let ghost ok = depth(i1) == 2 && (forall|p: u32| 2 <= p < num_cpus + 2 ==> !(#[trigger] p1.contains(p)))
        && s1 + num_cpus * cpu_node_bytes() <= u32::MAX;
    proof {
        assert(p1 + Set::new(|p: u32| 2 <= p < 2) =~= p1);
    }
    let mut interrupts_ext: Vec<u32> = Vec::new();
    let mut hart: u32 = 0;
    while hart < num_cpus
        invariant
            hart <= num_cpus,
            num_cpus <= u32::MAX - 2,
            i1 == fdt_items(*old(fdt)),
            s1 == fdt_size(*old(fdt)),
            p1 == fdt_phandles(*old(fdt)),
            ok == (depth(i1) == 2 && (forall|p: u32| 2 <= p < num_cpus + 2 ==> !(#[trigger] p1.contains(p)))
                && s1 + num_cpus * cpu_node_bytes() <= u32::MAX),
            fdt_items(*fdt) == i1 + cpus_items(hart as nat),
            interrupts_ext@ == interrupts_extended(hart as nat),
            depth(fdt_items(*fdt)) == depth(i1),
            fdt_phandles(*fdt) == p1 + Set::new(|p: u32| 2 <= p < hart + 2),
            fdt_size(*fdt) <= s1 + hart * cpu_node_bytes(),
        decreases num_cpus - hart,
    {
        proof {
            if ok {
                assert(!p1.contains((hart + 2) as u32));
                assert(!fdt_phandles(*fdt).contains((hart + 2) as u32));
            }
        }
        write_cpu(fdt, hart)?;
        interrupts_ext.push(hart + 2);
        interrupts_ext.push(9);
        proof {
            vstd::seq_lib::lemma_concat_associative(i1, cpus_items(hart as nat), cpu_items(hart));
            assert(interrupts_ext@ =~= interrupts_extended((hart + 1) as nat));
            assert(fdt_phandles(*fdt) =~= p1 + Set::new(|p: u32| 2 <= p < hart + 3));
        }
        hart += 1;
    }
    Ok(interrupts_ext)
}

/// Writes the nodes of the virtio-mmio devices `mmios`, in order. It
/// succeeds where the writer is inside the peripheral bus and the nodes
/// fit within 4 GiB.
fn write_virtios(fdt: &mut vm_fdt::FdtWriter, mmios: &[(GPAddr, u8)]) -> (r: Result<(), FdtError>)
    ensures
        r is Ok ==> fdt_items(*final(fdt)) == fdt_items(*old(fdt)) + virtios_items(mmios@) && depth(
            fdt_items(*final(fdt)),
        ) == depth(fdt_items(*old(fdt))) && fdt_size(*final(fdt)) <= fdt_size(*old(fdt)) + mmios@.len()
            * virtio_node_bytes(),
        fdt_phandles(*final(fdt)) == fdt_phandles(*old(fdt)),
        depth(fdt_items(*old(fdt))) == 2 && fdt_size(*old(fdt)) + mmios@.len() * virtio_node_bytes() <= u32::MAX
            ==> r is Ok,
{
    let ghost i2 = fdt_items(*fdt);
    let ghost s2 = fdt_size(*fdt);
    let mut i: usize = 0;
    while i < mmios.len()
        invariant
            i <= mmios@.len(),
            i2 == fdt_items(*old(fdt)),
            s2 == fdt_size(*old(fdt)),
            fdt_items(*fdt) == i2 + virtios_items(mmios@.subrange(0, i as int)),
            depth(fdt_items(*fdt)) == depth(i2),
            fdt_phandles(*fdt) == fdt_phandles(*old(fdt)),
            fdt_size(*fdt) <= s2 + i * virtio_node_bytes(),
        decreases mmios@.len() - i,
    {
        let (gpaddr, irq) = mmios[i];
        write_virtio(fdt, gpaddr, irq)?;
        proof {
            let pre = mmios@.subrange(0, i as int);
            let next = mmios@.subrange(0, i + 1);
            assert(next.drop_last() =~= pre);
            vstd::seq_lib::lemma_concat_associative(i2, virtios_items(pre), virtio_items(gpaddr, irq));
        }
        i += 1;
    }
    proof {
        assert(mmios@.subrange(0, mmios@.len() as int) =~= mmios@);
    }
    Ok(())
}

/// The most bytes the guest's device tree takes, with `num_cpus` harts,
/// `num_mmios` virtio-mmio devices and `ip_len` characters of network
/// configuration on the command line.
#[verifier::inline]
pub open spec fn fdt_budget(num_cpus: nat, num_mmios: nat, ip_len: nat) -> nat {
    56 + head_bytes(ip_len) + num_cpus * cpu_node_bytes() + soc_bytes(num_cpus) + num_mmios * virtio_node_bytes()
        + 12
}

/// A decimal rendering holds no NUL.
proof fn lemma_decimal_no_nul(v: nat, n: nat)
    requires
        v < pow10(n),
        n >= 1,
    ensures
        no_nul(decimal(v)),
        decimal(v).len() <= n,
{
    lemma_decimal(v, n);
}

/// The text of an IPv4 address holds no NUL.
proof fn lemma_ipv4_no_nul(b: Seq<u8>)
    ensures
        no_nul(ipv4_text(b)),
{
    assert(pow10(3) == 1000) by {
        reveal_with_fuel(pow10, 4);
    }
    lemma_decimal_no_nul(b[0] as nat, 3);
    lemma_decimal_no_nul(b[1] as nat, 3);
    lemma_decimal_no_nul(b[2] as nat, 3);
    lemma_decimal_no_nul(b[3] as nat, 3);
    assert(no_nul(seq!['.']));
    let d0 = decimal(b[0] as nat);
    let d1 = decimal(b[1] as nat);
    let d2 = decimal(b[2] as nat);
    let d3 = decimal(b[3] as nat);
    assert(d0.push('.') =~= d0 + seq!['.']);
    assert(d1.push('.') =~= d1 + seq!['.']);
    assert(d2.push('.') =~= d2 + seq!['.']);
    lemma_no_nul_add(d0, seq!['.']);
    lemma_no_nul_add(d1, seq!['.']);
    lemma_no_nul_add(d2, seq!['.']);
    lemma_no_nul_add(d0.push('.'), d1.push('.'));
    lemma_no_nul_add(d0.push('.') + d1.push('.'), d2.push('.'));
    lemma_no_nul_add(d0.push('.') + d1.push('.') + d2.push('.'), d3);
}

/// The network configuration on the kernel command line holds no NUL.
proof fn lemma_ip_param_no_nul(v: NetView)
    ensures
        no_nul(linux_ip_param(v)),
{
    reveal_strlit("ip=");
    reveal_strlit("::");
    reveal_strlit("::eth0:off:");
    lemma_ipv4_no_nul(v.guest_ip);
    lemma_ipv4_no_nul(v.gw_ip);
    lemma_ipv4_no_nul(v.netmask);
    lemma_ipv4_no_nul(v.dns0);
    lemma_ipv4_no_nul(v.dns1);
    assert(no_nul(seq![':']));
    let p1 = "ip="@ + ipv4_text(v.guest_ip);
    lemma_no_nul_add("ip="@, ipv4_text(v.guest_ip));
    lemma_no_nul_add(p1, "::"@);
    let p2 = p1 + "::"@ + ipv4_text(v.gw_ip);
    lemma_no_nul_add(p1 + "::"@, ipv4_text(v.gw_ip));
    lemma_no_nul_add(p2, seq![':']);
    let p3 = p2 + seq![':'] + ipv4_text(v.netmask);
    lemma_no_nul_add(p2 + seq![':'], ipv4_text(v.netmask));
    lemma_no_nul_add(p3, "::eth0:off:"@);
    let p4 = p3 + "::eth0:off:"@ + ipv4_text(v.dns0);
    lemma_no_nul_add(p3 + "::eth0:off:"@, ipv4_text(v.dns0));
    lemma_no_nul_add(p4, seq![':']);
    lemma_no_nul_add(p4 + seq![':'], ipv4_text(v.dns1));
}

/// The device tree of the guest machine: `num_cpus` harts, RAM of
/// `guest_ram_size` bytes at `guest_ram_start`, the PLIC, and the
/// virtio-mmio devices `virtio_mmios` (address and interrupt), with the
/// network configured on the kernel command line. Where `vm_fdt` writes
/// it, the blob is that of `guest_fdt_items`; it writes it wherever the
/// tree stays within the bytes `fdt_budget` allows, below 4 GiB.
#[verifier::rlimit(100)]
#[verifier::spinoff_prover]
pub fn build_fdt(
    num_cpus: u32,
    guest_ram_start: GPAddr,
    guest_ram_size: u64,
    plic_base: GPAddr,
    plic_mmio_size: usize,
    virtio_mmios: &[(GPAddr, u8)],
    guest_net: &GuestNet,
) -> (r: Result<Vec<u8>, FdtError>)
    requires
        num_cpus <= u32::MAX - 2,
    ensures
        r matches Ok(b) ==> b@ == fdt_blob(
            guest_fdt_items(
                num_cpus,
                guest_ram_start,
                guest_ram_size,
                plic_base,
                plic_mmio_size,
                virtio_mmios@,
                linux_ip_param(guest_net@),
            ),
        ),
        fdt_budget(num_cpus as nat, virtio_mmios@.len(), linux_ip_param(guest_net@).len()) <= u32::MAX ==> r is Ok,
{
    let mut fdt = fdt_new()?;
    let ip_param = guest_net.build_linux_ip_param();
    let ghost ok = fdt_budget(num_cpus as nat, virtio_mmios@.len(), ip_param@.len()) <= u32::MAX;
    let ghost head = head_items(guest_ram_start, guest_ram_size, ip_param@);
    let ghost cpus = cpus_items(num_cpus as nat);
    let ghost soc = soc_items(num_cpus, plic_base, plic_mmio_size);
    let ghost virtios = virtios_items(virtio_mmios@);
    proof {
        lemma_ip_param_no_nul(guest_net@);
        assert(depth(Seq::<FdtItem>::empty()) == 0);
        assert(Seq::<FdtItem>::empty() + head =~= head);
    }
    let (root_node, cpus_node) = write_head(&mut fdt, guest_ram_start, guest_ram_size, ip_param.as_str())?;
    let ghost s1 = fdt_size(fdt);
    proof {
        assert(fdt_items(fdt) == head);
        assert(depth(fdt_items(fdt)) == 2);
        assert(s1 <= 56 + head_bytes(ip_param@.len()));
        assert(fdt_phandles(fdt) == Set::<u32>::empty());
        assert(ok ==> s1 + num_cpus * cpu_node_bytes() <= u32::MAX);
    }
    let interrupts_ext = write_cpus(&mut fdt, num_cpus)?;
    let ghost s2 = fdt_size(fdt);
    proof {
        assert(fdt_items(fdt) == head + cpus);
        assert(depth(fdt_items(fdt)) == 2);
        assert(s2 <= s1 + num_cpus * cpu_node_bytes());
        assert(!fdt_phandles(fdt).contains(PLIC_PHANDLE));
        assert(ok ==> s2 + soc_bytes(num_cpus as nat) <= u32::MAX);
    }
    let soc_node = write_soc(&mut fdt, cpus_node, num_cpus, plic_base, plic_mmio_size, interrupts_ext.as_slice())?;
    let ghost s3 = fdt_size(fdt);
    proof {
        assert(fdt_items(fdt) == head + cpus + soc);
        assert(depth(fdt_items(fdt)) == 2);
        assert(ok ==> s3 + virtio_mmios@.len() * virtio_node_bytes() <= u32::MAX);
    }
    write_virtios(&mut fdt, virtio_mmios)?;
    let ghost s4 = fdt_size(fdt);
    proof {
        broadcast use lemma_depth_push;

        assert(fdt_items(fdt) == head + cpus + soc + virtios);
        assert(depth(fdt_items(fdt)) == 2);
        assert(ok ==> s4 + 12 <= u32::MAX);
    }
    fdt_end_node(&mut fdt, soc_node)?;
    fdt_end_node(&mut fdt, root_node)?;
    proof {
        let g = guest_fdt_items(
            num_cpus,
            guest_ram_start,
            guest_ram_size,
            plic_base,
            plic_mmio_size,
            virtio_mmios@,
            linux_ip_param(guest_net@),
        );
        assert(fdt_items(fdt) =~= g);
        assert(depth(fdt_items(fdt)) == 0);
    }
    fdt_finish(fdt)
}

/// How an item changes the depth of open nodes.
pub open spec fn depth_change(i: FdtItem) -> int {
    match i {
        FdtItem::BeginNode(_) => 1,
        FdtItem::EndNode => -1,
        _ => 0,
    }
}

/// The depth of open nodes after `items`, counted from 0.
pub open spec fn depth(items: Seq<FdtItem>) -> int
    decreases items.len(),
{
    if items.len() == 0 {
        0
    } else {
        depth_change(items[0]) + depth(items.drop_first())
    }
}

/// Writing `items` at depth `d` never closes a node that is not open, and
/// writes properties only into an open node.
pub open spec fn nested_from(items: Seq<FdtItem>, d: int) -> bool
    decreases items.len(),
{
    if items.len() == 0 {
        true
    } else {
        &&& d + depth_change(items[0]) >= 0
        &&& (depth_change(items[0]) == 0 ==> d >= 1)
        &&& nested_from(items.drop_first(), d + depth_change(items[0]))
    }
}

/// The phandles given, in order.
pub open spec fn phandles(items: Seq<FdtItem>) -> Seq<u32>
    decreases items.len(),
{
    if items.len() == 0 {
        Seq::empty()
    } else {
        match items[0] {
            FdtItem::Phandle(p) => seq![p] + phandles(items.drop_first()),
            _ => phandles(items.drop_first()),
        }
    }
}

proof fn lemma_concat(a: Seq<FdtItem>, b: Seq<FdtItem>, d: int)
    ensures
        depth(a + b) == depth(a) + depth(b),
        phandles(a + b) == phandles(a) + phandles(b),
        nested_from(a, d) && nested_from(b, d + depth(a)) ==> nested_from(a + b, d),
    decreases a.len(),
{
    if a.len() == 0 {
        assert(a + b =~= b);
        assert(phandles(a) + phandles(b) =~= phandles(b));
    } else {
        assert((a + b).drop_first() =~= a.drop_first() + b);
        assert((a + b)[0] == a[0]);
        lemma_concat(a.drop_first(), b, d + depth_change(a[0]));
        match a[0] {
            FdtItem::Phandle(p) => {
                assert(seq![p] + (phandles(a.drop_first()) + phandles(b)) =~= seq![p] + phandles(a.drop_first())
                    + phandles(b));
            },
            _ => {},
        }
    }
}

proof fn lemma_cpu_items(h: u32)
    requires
        h <= u32::MAX - 2,
    ensures
        depth(cpu_items(h)) == 0,
        nested_from(cpu_items(h), 2),
        phandles(cpu_items(h)) == seq![(h + 2) as u32],
{
    reveal_with_fuel(depth, 17);
    reveal_with_fuel(nested_from, 17);
    reveal_with_fuel(phandles, 17);
}

proof fn lemma_cpus_items(n: nat)
    requires
        n <= u32::MAX - 2,
    ensures
        depth(cpus_items(n)) == 0,
        nested_from(cpus_items(n), 2),
        phandles(cpus_items(n)) == Seq::new(n, |i: int| (i + 2) as u32),
    decreases n,
{
    if n == 0 {
        assert(phandles(cpus_items(0)) =~= Seq::new(0, |i: int| (i + 2) as u32));
    } else {
        lemma_cpus_items((n - 1) as nat);
        lemma_cpu_items((n - 1) as u32);
        lemma_concat(cpus_items((n - 1) as nat), cpu_items((n - 1) as u32), 2);
        assert(Seq::new((n - 1) as nat, |i: int| (i + 2) as u32) + seq![(n - 1 + 2) as u32] =~= Seq::new(
            n,
            |i: int| (i + 2) as u32,
        ));
    }
}

proof fn lemma_virtios_items(ms: Seq<(GPAddr, u8)>)
    ensures
        depth(virtios_items(ms)) == 0,
        nested_from(virtios_items(ms), 2),
        phandles(virtios_items(ms)) == Seq::<u32>::empty(),
    decreases ms.len(),
{
    if ms.len() > 0 {
        lemma_virtios_items(ms.drop_last());
        let v = virtio_items(ms.last().0, ms.last().1);
        assert(depth(v) == 0 && nested_from(v, 2) && phandles(v) == Seq::<u32>::empty()) by {
            reveal_with_fuel(depth, 7);
            reveal_with_fuel(nested_from, 7);
            reveal_with_fuel(phandles, 7);
        }
        lemma_concat(virtios_items(ms.drop_last()), v, 2);
        assert(Seq::<u32>::empty() + Seq::<u32>::empty() =~= Seq::<u32>::empty());
    }
}

/// The guest's device tree is well formed: nodes close in the order they
/// open and all are closed at the end, properties go into open nodes
/// only, and no phandle is given twice (the PLIC's is 1, the harts'
/// interrupt controllers' are 2, 3, ...).
pub proof fn law_guest_fdt_well_formed(
    num_cpus: u32,
    ram_start: GPAddr,
    ram_size: u64,
    plic_base: GPAddr,
    plic_mmio_size: usize,
    mmios: Seq<(GPAddr, u8)>,
    ip_param: Seq<char>,
)
    requires
        num_cpus <= u32::MAX - 2,
    ensures
        ({
            let items = guest_fdt_items(num_cpus, ram_start, ram_size, plic_base, plic_mmio_size, mmios, ip_param);
            &&& nested_from(items, 0)
            &&& depth(items) == 0
            &&& phandles(items).no_duplicates()
        }),
{
    let head = head_items(ram_start, ram_size, ip_param);
    let cpus = cpus_items(num_cpus as nat);
    let soc = soc_items(num_cpus, plic_base, plic_mmio_size);
    let virtios = virtios_items(mmios);
    let tail = seq![FdtItem::EndNode, FdtItem::EndNode];
    assert(depth(head) == 2 && nested_from(head, 0) && phandles(head) == Seq::<u32>::empty()) by {
        reveal_with_fuel(depth, 16);
        reveal_with_fuel(nested_from, 16);
        reveal_with_fuel(phandles, 16);
    }
    assert(depth(soc) == 0 && nested_from(soc, 2) && phandles(soc) == seq![PLIC_PHANDLE]) by {
        reveal_with_fuel(depth, 17);
        reveal_with_fuel(nested_from, 17);
        reveal_with_fuel(phandles, 17);
    }
    assert(depth(tail) == -2 && nested_from(tail, 2) && phandles(tail) == Seq::<u32>::empty()) by {
        reveal_with_fuel(depth, 3);
        reveal_with_fuel(nested_from, 3);
        reveal_with_fuel(phandles, 3);
    }
    lemma_cpus_items(num_cpus as nat);
    lemma_virtios_items(mmios);
    lemma_concat(head, cpus, 0);
    lemma_concat(head + cpus, soc, 0);
    lemma_concat(head + cpus + soc, virtios, 0);
    lemma_concat(head + cpus + soc + virtios, tail, 0);
    let ps = phandles(head + cpus + soc + virtios + tail);
    let cp = Seq::new(num_cpus as nat, |i: int| (i + 2) as u32);
    assert(ps =~= cp + seq![PLIC_PHANDLE]);
    assert forall|i: int, j: int| 0 <= i < ps.len() && 0 <= j < ps.len() && i != j implies ps[i] != ps[j] by {
        if i < num_cpus && j < num_cpus {
            assert(ps[i] == (i + 2) as u32 && ps[j] == (j + 2) as u32);
        } else if i < num_cpus {
            assert(ps[i] == (i + 2) as u32);
        } else if j < num_cpus {
            assert(ps[j] == (j + 2) as u32);
        }
    }
}

/// Opening or closing a node changes the depth by one.
pub broadcast proof fn lemma_depth_push(s: Seq<FdtItem>, x: FdtItem)
    ensures
        #[trigger] depth(s.push(x)) == depth(s) + depth_change(x),
{
    lemma_concat(s, seq![x], 0);
    assert(s + seq![x] =~= s.push(x));
    assert(seq![x].drop_first() =~= Seq::<FdtItem>::empty());
    assert(depth(Seq::<FdtItem>::empty()) == 0);
    assert(depth(seq![x]) == depth_change(x) + depth(seq![x].drop_first()));
}

/// Closing a node leaves the writer closed, opening one opens it, and a
/// property leaves it as it was.
pub broadcast proof fn lemma_closed_push(s: Seq<FdtItem>, x: FdtItem)
    ensures
        #[trigger] node_closed(s.push(x)) == match x {
            FdtItem::EndNode => true,
            FdtItem::BeginNode(_) => false,
            _ => node_closed(s),
        },
{
    assert(s.push(x).drop_last() =~= s);
}

/// 16 to the power `n`.
pub open spec fn pow16(n: nat) -> nat
    decreases n,
{
    if n == 0 {
        1
    } else {
        16 * pow16((n - 1) as nat)
    }
}

/// 10 to the power `n`.
pub open spec fn pow10(n: nat) -> nat
    decreases n,
{
    if n == 0 {
        1
    } else {
        10 * pow10((n - 1) as nat)
    }
}

/// The hexadecimal text of a number below `16^n` has at most `n` digits,
/// each a digit or a lower-case letter.
proof fn lemma_hex_min(v: nat, n: nat)
    requires
        v < pow16(n),
        n >= 1,
    ensures
        1 <= hex_min(v).len() <= n,
        forall|i: int| 0 <= i < hex_min(v).len() ==> (#[trigger] hex_min(v)[i] == hex_min(v)[i]) && (('0'
            <= hex_min(v)[i] <= '9') || ('a' <= hex_min(v)[i] <= 'f')),
    decreases v,
{
    if v < 16 {
    } else {
        assert(pow16(0) == 1);
        assert(n > 0);
        assert(v / 16 < pow16((n - 1) as nat)) by (nonlinear_arith)
            requires
                v < pow16(n),
                pow16(n) == 16 * pow16((n - 1) as nat),
        ;
        lemma_hex_min(v / 16, (n - 1) as nat);
    }
}

/// The decimal text of a number below `10^n` has at most `n` digits.
proof fn lemma_decimal(v: nat, n: nat)
    requires
        v < pow10(n),
        n >= 1,
    ensures
        1 <= decimal(v).len() <= n,
        forall|i: int| 0 <= i < decimal(v).len() ==> '0' <= #[trigger] decimal(v)[i] <= '9',
    decreases v,
{
    if v < 10 {
    } else {
        assert(pow10(0) == 1);
        assert(n > 0);
        assert(v / 10 < pow10((n - 1) as nat)) by (nonlinear_arith)
            requires
                v < pow10(n),
                pow10(n) == 10 * pow10((n - 1) as nat),
        ;
        lemma_decimal(v / 10, (n - 1) as nat);
    }
}

/// The guest's device tree describes exactly its RAM: the memory node,
/// named after the RAM's start, holds a `reg` property of two cells, the
/// start and the size of the RAM, so the range it describes ends where the
/// RAM ends; the node's device type is `memory`.
pub proof fn law_memory_node_is_the_ram(
    num_cpus: u32,
    ram_start: GPAddr,
    ram_size: u64,
    plic_base: GPAddr,
    plic_mmio_size: usize,
    mmios: Seq<(GPAddr, u8)>,
    ip_param: Seq<char>,
)
    ensures
        ({
            let items = guest_fdt_items(num_cpus, ram_start, ram_size, plic_base, plic_mmio_size, mmios, ip_param);
            exists|i: int|
                0 <= i && i + 3 < items.len() && #[trigger] items[i] == FdtItem::BeginNode(
                    "memory@"@ + hex_min(ram_start.0 as nat),
                ) && items[i + 1] == FdtItem::Str("device_type"@, "memory"@) && (items[i + 2] matches FdtItem::U64s(
                    name,
                    cells,
                ) && name == "reg"@ && cells.len() == 2 && cells[0] == ram_start.0 && cells[1] == ram_size
                    && cells[0] + cells[1] == ram_start.0 + ram_size) && items[i + 3] == FdtItem::EndNode
        }),
{
    let items = guest_fdt_items(num_cpus, ram_start, ram_size, plic_base, plic_mmio_size, mmios, ip_param);
    let head = head_items(ram_start, ram_size, ip_param);
    assert(items[7] == head[7]);
    assert(items[8] == head[8]);
    assert(items[9] == head[9]);
    assert(items[10] == head[10]);
    assert(items[7] == FdtItem::BeginNode("memory@"@ + hex_min(ram_start.0 as nat)));
}

} // verus!
