use starina::address::GPAddr;
use starina::boot::guest_network;
use starina::fdt::build_fdt;

fn contains(hay: &[u8], needle: &[u8]) -> bool {
    hay.windows(needle.len()).any(|w| w == needle)
}

fn blob() -> Vec<u8> {
    build_fdt(
        1,
        GPAddr::new(0x8000_0000),
        64 * 1024 * 1024,
        GPAddr::new(0x0a00_0000),
        0x20_1000,
        &[(GPAddr::new(0x0b00_0000), 1), (GPAddr::new(0x0b00_1000), 2)],
        &guest_network(),
    )
    .unwrap()
}

#[test]
fn blob_is_a_flattened_device_tree() {
    let b = blob();
    assert_eq!(&b[0..4], &[0xd0, 0x0d, 0xfe, 0xed]);
    let total = u32::from_be_bytes([b[4], b[5], b[6], b[7]]) as usize;
    assert_eq!(total, b.len());
}

#[test]
fn blob_names_the_nodes() {
    let b = blob();
    for name in [
        &b"memory@80000000\0"[..],
        b"chosen\0",
        b"cpu@0\0",
        b"interrupt-controller\0",
        b"plic@a000000\0",
        b"virtio-mmio@184549376\0",
        b"virtio-mmio@184553472\0",
    ] {
        assert!(contains(&b, name), "missing {:?}", String::from_utf8_lossy(name));
    }
}

#[test]
fn blob_carries_the_command_line() {
    let b = blob();
    let args = b"console=hvc earlycon=sbi quiet panic=-1 ip=10.255.0.100::10.255.0.1:255.255.255.0::eth0:off:8.8.8.8:8.8.4.4\0";
    assert!(contains(&b, args));
    assert!(contains(&b, b"riscv-virtio\0"));
    assert!(contains(&b, b"i\0m\0a\0f\0d\0sstc\0"));
}

#[test]
fn blob_grows_with_the_harts() {
    let one = blob();
    let two = build_fdt(
        2,
        GPAddr::new(0x8000_0000),
        64 * 1024 * 1024,
        GPAddr::new(0x0a00_0000),
        0x20_2000,
        &[],
        &guest_network(),
    )
    .unwrap();
    assert!(contains(&two, b"cpu@1\0"));
    assert!(!contains(&one, b"cpu@1\0"));
}
