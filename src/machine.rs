use vstd::prelude::*;
use core::ops::Range;
use crate::inline_string::{clamp, InlineString};
use crate::names::{
    cpu_entry_name, cpus_name, device_class, device_of, has_prefix, is_cpu_entry, is_cpus,
    is_root_container, is_soc, is_soc_device, root_container, soc_device, soc_name, Device,
};
use crate::blob::{
    check_walkable, declared_size, entered_only, Placed, early_issue, header_issue, layout_ok, open_blob, place,
    read_be_u32, tree_events, walk_blob, walkable, BlobError, HEADER_LEN,
};
use crate::visit::{DtbItem, Obj, Step, Visit};

verus! {

/// Bytes of the board model that the description keeps.
pub const MODEL_CAPACITY: usize = 64;

/// The board information collected from a device tree.
pub struct MachineInfo {
    /// Address interval of the device tree blob.
    pub dtb: Range<usize>,
    /// The board model, cut to `MODEL_CAPACITY` bytes.
    pub model: InlineString<MODEL_CAPACITY>,
    /// Number of processor entries.
    pub smp: usize,
    /// Address interval of system memory.
    pub mem: Range<usize>,
    /// Address interval of the serial console.
    pub uart: Range<usize>,
    /// Address interval of the test and shutdown device.
    pub test: Range<usize>,
    /// Address interval of the timer-interrupt controller.
    pub clint: Range<usize>,
    found: Found,
}

/// The device classes whose interval has been taken.
#[derive(Clone, Copy, Debug, PartialEq, Eq, Structural)]
pub struct Found {
    pub console: bool,
    pub test: bool,
    pub timer: bool,
    pub memory: bool,
}

/// The contents of a `MachineInfo`.
pub struct MachineView {
    pub dtb: Range<usize>,
    pub model: Seq<u8>,
    pub smp: usize,
    pub mem: Range<usize>,
    pub uart: Range<usize>,
    pub test: Range<usize>,
    pub clint: Range<usize>,
    pub found: Found,
}

impl View for MachineInfo {
    type V = MachineView;

    closed spec fn view(&self) -> MachineView {
        MachineView {
            dtb: self.dtb,
            model: self.model@,
            smp: self.smp,
            mem: self.mem,
            uart: self.uart,
            test: self.test,
            clint: self.clint,
            found: self.found,
        }
    }
}

/// The empty interval at zero, which stands for a device that was not found.
pub open spec fn empty_range() -> Range<usize> {
    Range { start: 0, end: 0 }
}

/// The description before the walk: the blob at `base` of `size` bytes, no
/// model, no processor, and every device interval empty.
pub open spec fn initial(base: usize, size: usize) -> MachineView {
    MachineView {
        dtb: Range { start: base, end: (base + size) as usize },
        model: Seq::empty(),
        smp: 0,
        mem: empty_range(),
        uart: empty_range(),
        test: empty_range(),
        clint: empty_range(),
        found: Found { console: false, test: false, timer: false, memory: false },
    }
}

/// The interval kept for a device class.
pub open spec fn range_of(v: MachineView, d: Device) -> Range<usize> {
    match d {
        Device::Console => v.uart,
        Device::TestDevice => v.test,
        Device::Timer => v.clint,
        Device::Memory => v.mem,
    }
}

/// Whether an interval of class `d` has been taken.
pub open spec fn is_found(v: MachineView, d: Device) -> bool {
    match d {
        Device::Console => v.found.console,
        Device::TestDevice => v.found.test,
        Device::Timer => v.found.timer,
        Device::Memory => v.found.memory,
    }
}

/// `v` with the interval of class `d` taken as `r`.
pub open spec fn with_range(v: MachineView, d: Device, r: Range<usize>) -> MachineView {
    match d {
        Device::Console => MachineView { uart: r, found: Found { console: true, ..v.found }, ..v },
        Device::TestDevice => MachineView { test: r, found: Found { test: true, ..v.found }, ..v },
        Device::Timer => MachineView { clint: r, found: Found { timer: true, ..v.found }, ..v },
        Device::Memory => MachineView { mem: r, found: Found { memory: true, ..v.found }, ..v },
    }
}

/// The error that `MachineInfo::from_dtb` owes a blob whatever its address,
/// or `None` when it owes the description: a slice shorter than the header or
/// than the declared size is truncated, then the header check decides, then
/// whether every token of the structure block can be read.
pub open spec fn verdict(s: Seq<u8>) -> Option<BlobError> {
    if s.len() < HEADER_LEN || declared_size(s) > s.len() {
        Some(BlobError::Truncated)
    } else if header_issue(s) is Some {
        Some(BlobError::Header(header_issue(s)->Some_0))
    } else if !walkable(s) {
        Some(BlobError::Structure)
    } else {
        None
    }
}

/// A child of `cpus` named `cpu@...`: an entry that counts as a processor.
pub open spec fn is_cpu_entry_at(root: bool, node: Seq<u8>, obj: Obj) -> bool {
    &&& !root
    &&& node == cpus_name()
    &&& obj matches Obj::SubNode(name)
    &&& has_prefix(name, cpu_entry_name())
}

/// A visit of a processor entry.
pub open spec fn is_cpu_visit(t: Visit) -> bool {
    is_cpu_entry_at(t.root, t.node, t.obj)
}

/// The visitor's answer: at the root it enters `cpus`, `soc` and `memory*`;
/// inside `soc` the console, test and timer devices; it leaves a device node
/// once its first interval is read; everything else is passed over.
pub open spec fn decide(root: bool, node: Seq<u8>, obj: Obj) -> Step {
    match obj {
        Obj::SubNode(name) => {
            if root {
                if root_container(name) {
                    Step::Into
                } else {
                    Step::Over
                }
            } else if node == soc_name() && soc_device(name) {
                Step::Into
            } else {
                Step::Over
            }
        },
        Obj::Reg(Some(_)) => {
            if device_of(node) is Some {
                Step::Out
            } else {
                Step::Over
            }
        },
        _ => Step::Over,
    }
}

/// What one visit does to the description: a processor entry is counted, the
/// root's model is copied (cut to capacity), and the first interval of a
/// device node is kept for its class unless an earlier
/// device of that class was taken: the first match wins.
pub open spec fn after(v: MachineView, root: bool, node: Seq<u8>, obj: Obj) -> MachineView {
    match obj {
        Obj::SubNode(_) => {
            if is_cpu_entry_at(root, node, obj) && v.smp < usize::MAX {
                MachineView { smp: (v.smp + 1) as usize, ..v }
            } else {
                v
            }
        },
        Obj::Model(text) => {
            if root {
                MachineView { model: clamp(text, MODEL_CAPACITY as nat), ..v }
            } else {
                v
            }
        },
        Obj::Reg(Some(r)) => {
            match device_of(node) {
                Some(d) => {
                    if !is_found(v, d) {
                        with_range(v, d, r)
                    } else {
                        v
                    }
                },
                None => v,
            }
        },
        _ => v,
    }
}

/// The description after a sequence of visits, in order.
pub open spec fn run(v: MachineView, trace: Seq<Visit>) -> MachineView
    decreases trace.len(),
{
    if trace.len() == 0 {
        v
    } else {
        let t = trace.last();
        after(run(v, trace.drop_last()), t.root, t.node, t.obj)
    }
}

impl MachineInfo {
    /// The contents are well formed: the model fits its buffer.
    pub closed spec fn wf(&self) -> bool {
        self.model.wf()
    }

    /// The description before the walk of a blob of `size` bytes at `base`.
    pub fn new(base: usize, size: usize) -> (r: Self)
        requires
            base + size <= usize::MAX,
        ensures
            r.wf(),
            r@ == initial(base, size),
    {
        MachineInfo {
            dtb: Range { start: base, end: base + size },
            model: InlineString::new(),
            smp: 0,
            mem: Range { start: 0, end: 0 },
            uart: Range { start: 0, end: 0 },
            test: Range { start: 0, end: 0 },
            clint: Range { start: 0, end: 0 },
            found: Found { console: false, test: false, timer: false, memory: false },
        }
    }

    /// Takes in one entry of the tree, shown while the current node is `node`
    /// (`root` when it is the root), and answers how the walk goes on.
    pub fn visit(&mut self, root: bool, node: &[u8], item: &DtbItem) -> (op: Step)
        requires
            old(self).wf(),
        ensures
            final(self).wf(),
            final(self)@ == after(old(self)@, root, node@, item@),
            op == decide(root, node@, item@),
    {
        match item {
            DtbItem::SubNode(name) => {
                if root {
                    if is_root_container(name) {
                        Step::Into
                    } else {
                        Step::Over
                    }
                } else if is_soc(node) && is_soc_device(name) {
                    Step::Into
                } else {
                    if is_cpus(node) && is_cpu_entry(name) && self.smp < usize::MAX {
                        self.smp = self.smp + 1;
                    }
                    proof {
                        if node@ == cpus_name() {
                            assert(node@ != soc_name());
                        }
                    }
                    Step::Over
                }
            },
            DtbItem::Model(text) => {
                if root {
                    self.model = InlineString::from_bytes(text);
                }
                Step::Over
            },
            DtbItem::Reg(Some(r)) => {
                let got = Range { start: r.start, end: r.end };
                match device_class(node) {
                    Some(Device::Console) => {
                        if !self.found.console {
                            self.uart = got;
                            self.found.console = true;
                        }
                    },
                    Some(Device::TestDevice) => {
                        if !self.found.test {
                            self.test = got;
                            self.found.test = true;
                        }
                    },
                    Some(Device::Timer) => {
                        if !self.found.timer {
                            self.clint = got;
                            self.found.timer = true;
                        }
                    },
                    Some(Device::Memory) => {
                        if !self.found.memory {
                            self.mem = got;
                            self.found.memory = true;
                        }
                    },
                    None => {
                        return Step::Over;
                    },
                }
                Step::Out
            },
            _ => Step::Over,
        }
    }

    /// Collects the machine description from the device tree `blob`, which
    /// sits at address `dtb_ptr`, on a 64-bit target: `from_placed` on the
    /// slice and the address at which it lies in memory.
    pub fn from_dtb(dtb_ptr: usize, blob: &[u8]) -> (r: Result<MachineInfo, BlobError>)
        requires
            usize::MAX == u64::MAX,
            dtb_ptr + blob@.len() <= usize::MAX,
        ensures
            verdict(blob@) == Some(BlobError::Truncated) ==> r matches Err(BlobError::Truncated),
            verdict(blob@) is Some ==> r is Err,
            r matches Err(e) ==> e == BlobError::Unaligned || verdict(blob@) == Some(e),
            r matches Ok(info) ==> verdict(blob@) is None && info.wf() && info@ == run(
                initial(dtb_ptr, declared_size(blob@) as usize),
                tree_events(blob@),
            ) && entered_only(tree_events(blob@)),
    {
        let placed = place(blob);
        MachineInfo::from_placed(dtb_ptr, &placed)
    }

    /// Collects the machine description from the device tree in `p`, which
    /// sits at address `dtb_ptr`, on a 64-bit target.
    ///
    /// A slice shorter than the header or than its declared size is
    /// `Truncated`; else one whose address is not on a 4-byte boundary is
    /// `Unaligned`; else the header is checked (any last compatible version is
    /// let through, and so is a blob on a 4-byte but not 8-byte boundary), then
    /// the structure block is scanned; then the tree is walked once, and the
    /// description is what the visits made of `initial`.
    pub fn from_placed(dtb_ptr: usize, p: &Placed) -> (r: Result<MachineInfo, BlobError>)
        requires
            usize::MAX == u64::MAX,
            dtb_ptr + p.bytes().len() <= usize::MAX,
        ensures
            r is Ok <==> (verdict(p.bytes()) is None && p.addr() % 4 == 0),
            (r matches Err(BlobError::Unaligned)) <==> (verdict(p.bytes()) != Some(
                BlobError::Truncated,
            ) && p.addr() % 4 != 0),
            r matches Err(e) ==> e == BlobError::Unaligned || verdict(p.bytes()) == Some(e),
            r matches Ok(info) ==> info.wf() && info@ == run(
                initial(dtb_ptr, declared_size(p.bytes()) as usize),
                tree_events(p.bytes()),
            ) && entered_only(tree_events(p.bytes())),
    {
        let blob = p.as_slice();
        if blob.len() < HEADER_LEN {
            return Err(BlobError::Truncated);
        }
        let total = read_be_u32(blob, 4);
        if total > blob.len() {
            return Err(BlobError::Truncated);
        }
        if p.addr_of() % 4 != 0 {
            return Err(BlobError::Unaligned);
        }
        let st = read_be_u32(blob, 8);
        let stl = read_be_u32(blob, 36);
        if st > total || stl > total - st {
            assert(!layout_ok(blob@));
            return Err(BlobError::Header(early_issue(blob)));
        }
        let dtb = match open_blob(p) {
            Ok(dtb) => dtb,
            Err(e) => {
                return Err(e);
            },
        };
        if !check_walkable(blob) {
            return Err(BlobError::Structure);
        }
        let mut ans = MachineInfo::new(dtb_ptr, total);
        walk_blob(&dtb, &mut ans);
        Ok(ans)
    }
}

} // verus!
