# starina (verified core)

The support libraries of the Starina microkernel and its Linux
compatibility layer, written in Verus. The functions in `src/` carry contracts that Verus
proves, except the small wrappers marked `#[verifier::external_body]`
around `vm-fdt` and `String::push`, whose contracts are trusted as read
from those libraries.

- `src/` is the library: kernel ABI types (addresses, handles, error codes,
  message metadata, system-call return values, vCPU exit records), the
  guest-facing network (frame parsing and building, ARP, a small TCP state
  machine, port forwarding), the virtio-mmio device model and its
  virtqueues, virtio-net and virtio-fs (FUSE) over guest memory, the
  driver side of a split virtqueue and of the MMIO transport, the memory
  bus, the guest machine and its device tree.
- `tests/` exercises the library on concrete values.
- `app/` is the rest: the init process of the Linux guest, attaching a
  loop device, the host's hypervisor loop behind traits for the kernel's
  vCPU and channels, the JSON forms of the library's data, and the C-ABI
  functions the WebAssembly runtime links against.

Public proof functions named `law_*` state what holds across calls, for
example that a request queued on a virtqueue comes back whole once the
device has used it, that a reset closes a TCP connection, or that the
guest's device tree is well formed.
