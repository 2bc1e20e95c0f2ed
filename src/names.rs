use vstd::prelude::*;

verus! {

/// `p` is a prefix of `s`.
pub open spec fn has_prefix(s: Seq<u8>, p: Seq<u8>) -> bool {
    p.len() <= s.len() && s.take(p.len() as int) == p
}

/// Tells whether `p` is a prefix of `s`, comparing byte by byte.
pub fn starts_with(s: &[u8], p: &[u8]) -> (r: bool)
    ensures
        r == has_prefix(s@, p@),
{
    if p.len() > s.len() {
        return false;
    }
    let mut i: usize = 0;
    while i < p.len()
        invariant
            p@.len() <= s@.len(),
            i <= p@.len(),
            forall|k: int| 0 <= k < i ==> s@[k] == p@[k],
        decreases p@.len() - i,
    {
        if s[i] != p[i] {
            assert(s@.take(p@.len() as int)[i as int] != p@[i as int]);
            return false;
        }
        i = i + 1;
    }
    assert(s@.take(p@.len() as int) =~= p@);
    true
}

/// Tells whether `s` and `p` hold the same bytes.
pub fn same_bytes(s: &[u8], p: &[u8]) -> (r: bool)
    ensures
        r == (s@ == p@),
{
    if s.len() != p.len() {
        return false;
    }
    let r = starts_with(s, p);
    assert(s@ =~= s@.take(p@.len() as int));
    r
}

/// `cpus`: the container of the processor entries.
pub open spec fn cpus_name() -> Seq<u8> {
    seq!['c' as u8, 'p' as u8, 'u' as u8, 's' as u8]
}

/// `soc`: the system-on-chip container.
pub open spec fn soc_name() -> Seq<u8> {
    seq!['s' as u8, 'o' as u8, 'c' as u8]
}

/// `memory`: the prefix of the memory nodes.
pub open spec fn memory_name() -> Seq<u8> {
    seq!['m' as u8, 'e' as u8, 'm' as u8, 'o' as u8, 'r' as u8, 'y' as u8]
}

/// `uart`: the prefix of a console device.
pub open spec fn uart_name() -> Seq<u8> {
    seq!['u' as u8, 'a' as u8, 'r' as u8, 't' as u8]
}

/// `serial`: the legacy prefix of a console device.
pub open spec fn serial_name() -> Seq<u8> {
    seq!['s' as u8, 'e' as u8, 'r' as u8, 'i' as u8, 'a' as u8, 'l' as u8]
}

/// `test`: the prefix of the test and shutdown device.
pub open spec fn test_name() -> Seq<u8> {
    seq!['t' as u8, 'e' as u8, 's' as u8, 't' as u8]
}

/// `clint`: the prefix of the timer-interrupt controller.
pub open spec fn clint_name() -> Seq<u8> {
    seq!['c' as u8, 'l' as u8, 'i' as u8, 'n' as u8, 't' as u8]
}

/// `cpu@`: the prefix of a processor entry.
pub open spec fn cpu_entry_name() -> Seq<u8> {
    seq!['c' as u8, 'p' as u8, 'u' as u8, '@' as u8]
}

/// The classes of devices whose address interval the machine description keeps.
#[derive(Clone, Copy, Debug, PartialEq, Eq, Structural)]
pub enum Device {
    /// A serial console (`uart*` or `serial*`).
    Console,
    /// The test and shutdown device (`test*`).
    TestDevice,
    /// The timer-interrupt controller (`clint*`).
    Timer,
    /// System memory (`memory*`).
    Memory,
}

/// The device class of a node, by the prefix of its name; the console
/// prefixes are tried first, then the test device, the timer and memory.
pub open spec fn device_of(node: Seq<u8>) -> Option<Device> {
    if has_prefix(node, uart_name()) || has_prefix(node, serial_name()) {
        Some(Device::Console)
    } else if has_prefix(node, test_name()) {
        Some(Device::TestDevice)
    } else if has_prefix(node, clint_name()) {
        Some(Device::Timer)
    } else if has_prefix(node, memory_name()) {
        Some(Device::Memory)
    } else {
        None
    }
}

/// The containers entered from the root: `cpus`, `soc`, and any `memory*` node.
pub open spec fn root_container(name: Seq<u8>) -> bool {
    name == cpus_name() || name == soc_name() || has_prefix(name, memory_name())
}

/// The nodes entered inside `soc`: those named like a console, the test device
/// or the timer-interrupt controller.
pub open spec fn soc_device(name: Seq<u8>) -> bool {
    has_prefix(name, uart_name()) || has_prefix(name, serial_name()) || has_prefix(
        name,
        test_name(),
    ) || has_prefix(name, clint_name())
}

/// Tells whether `name` is `cpus`.
pub fn is_cpus(name: &[u8]) -> (r: bool)
    ensures
        r == (name@ == cpus_name()),
{
    let k: [u8; 4] = ['c' as u8, 'p' as u8, 'u' as u8, 's' as u8];
    assert(k@ =~= cpus_name());
    same_bytes(name, k.as_slice())
}

/// Tells whether `name` is `soc`.
pub fn is_soc(name: &[u8]) -> (r: bool)
    ensures
        r == (name@ == soc_name()),
{
    let k: [u8; 3] = ['s' as u8, 'o' as u8, 'c' as u8];
    assert(k@ =~= soc_name());
    same_bytes(name, k.as_slice())
}

/// Tells whether `name` starts with `cpu@`.
pub fn is_cpu_entry(name: &[u8]) -> (r: bool)
    ensures
        r == has_prefix(name@, cpu_entry_name()),
{
    let k: [u8; 4] = ['c' as u8, 'p' as u8, 'u' as u8, '@' as u8];
    assert(k@ =~= cpu_entry_name());
    starts_with(name, k.as_slice())
}

/// Tells whether `name` starts with `memory`.
fn is_memory(name: &[u8]) -> (r: bool)
    ensures
        r == has_prefix(name@, memory_name()),
{
    let k: [u8; 6] = ['m' as u8, 'e' as u8, 'm' as u8, 'o' as u8, 'r' as u8, 'y' as u8];
    assert(k@ =~= memory_name());
    starts_with(name, k.as_slice())
}

fn is_console(name: &[u8]) -> (r: bool)
    ensures
        r == (has_prefix(name@, uart_name()) || has_prefix(name@, serial_name())),
{
    let u: [u8; 4] = ['u' as u8, 'a' as u8, 'r' as u8, 't' as u8];
    let s: [u8; 6] = ['s' as u8, 'e' as u8, 'r' as u8, 'i' as u8, 'a' as u8, 'l' as u8];
    assert(u@ =~= uart_name());
    assert(s@ =~= serial_name());
    starts_with(name, u.as_slice()) || starts_with(name, s.as_slice())
}

fn is_test(name: &[u8]) -> (r: bool)
    ensures
        r == has_prefix(name@, test_name()),
{
    let k: [u8; 4] = ['t' as u8, 'e' as u8, 's' as u8, 't' as u8];
    assert(k@ =~= test_name());
    starts_with(name, k.as_slice())
}

fn is_clint(name: &[u8]) -> (r: bool)
    ensures
        r == has_prefix(name@, clint_name()),
{
    let k: [u8; 5] = ['c' as u8, 'l' as u8, 'i' as u8, 'n' as u8, 't' as u8];
    assert(k@ =~= clint_name());
    starts_with(name, k.as_slice())
}

/// The device class of the node named `node`.
pub fn device_class(node: &[u8]) -> (r: Option<Device>)
    ensures
        r == device_of(node@),
{
    if is_console(node) {
        Some(Device::Console)
    } else if is_test(node) {
        Some(Device::TestDevice)
    } else if is_clint(node) {
        Some(Device::Timer)
    } else if is_memory(node) {
        Some(Device::Memory)
    } else {
        None
    }
}

/// Tells whether the walker enters the root's child `name`.
pub fn is_root_container(name: &[u8]) -> (r: bool)
    ensures
        r == root_container(name@),
{
    is_cpus(name) || is_soc(name) || is_memory(name)
}

/// Tells whether the walker enters the `soc` child `name`.
pub fn is_soc_device(name: &[u8]) -> (r: bool)
    ensures
        r == soc_device(name@),
{
    is_console(name) || is_test(name) || is_clint(name)
}

} // verus!
