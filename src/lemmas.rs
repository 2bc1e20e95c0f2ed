use vstd::prelude::*;
use crate::blob::{
    be_u32, declared_size, header_issue, layout_ok, strings_of, strings_offset, strings_size,
    struct_offset, struct_size, structure_of, tree_events,
};
use crate::inline_string::clamp;
use crate::machine::{
    after, decide, empty_range, initial, is_cpu_visit, range_of, run, MachineView, MODEL_CAPACITY,
};
use crate::blob::entered_only;
use crate::names::{
    clint_name, cpus_name, device_of, has_prefix, memory_name, root_container, serial_name,
    soc_device, soc_name, test_name, uart_name, Device,
};
use crate::visit::{Obj, Step, Visit};

verus! {

/// The text of the last `model` property shown at the root, if any.
pub open spec fn last_root_model(trace: Seq<Visit>) -> Option<Seq<u8>>
    decreases trace.len(),
{
    if trace.len() == 0 {
        None
    } else if trace.last().root && trace.last().obj is Model {
        Some(trace.last().obj->Model_0)
    } else {
        last_root_model(trace.drop_last())
    }
}

/// Number of processor entries among the visits.
pub open spec fn cpu_entries(trace: Seq<Visit>) -> nat
    decreases trace.len(),
{
    if trace.len() == 0 {
        0
    } else {
        cpu_entries(trace.drop_last()) + if is_cpu_visit(trace.last()) {
            1nat
        } else {
            0nat
        }
    }
}

/// The visit shows an interval for a node of class `d`.
pub open spec fn sets_device(t: Visit, d: Device) -> bool {
    &&& t.obj matches Obj::Reg(Some(_))
    &&& device_of(t.node) == Some(d)
}

/// The description that `MachineInfo::from_dtb` returns for a blob at `base`
/// whose header passed.
pub open spec fn described(base: usize, blob: Seq<u8>) -> MachineView {
    run(initial(base, declared_size(blob) as usize), tree_events(blob))
}

proof fn lemma_model(v: MachineView, trace: Seq<Visit>)
    ensures
        run(v, trace).model == match last_root_model(trace) {
            Some(s) => clamp(s, MODEL_CAPACITY as nat),
            None => v.model,
        },
    decreases trace.len(),
{
    if trace.len() > 0 {
        lemma_model(v, trace.drop_last());
    }
}

proof fn lemma_cpus(v: MachineView, trace: Seq<Visit>)
    ensures
        run(v, trace).smp == if v.smp + cpu_entries(trace) <= usize::MAX {
            v.smp + cpu_entries(trace)
        } else {
            usize::MAX as int
        },
    decreases trace.len(),
{
    if trace.len() > 0 {
        lemma_cpus(v, trace.drop_last());
    }
}

proof fn lemma_untouched(v: MachineView, trace: Seq<Visit>, d: Device)
    requires
        forall|i: int| 0 <= i < trace.len() ==> !sets_device(#[trigger] trace[i], d),
    ensures
        range_of(run(v, trace), d) == range_of(v, d),
    decreases trace.len(),
{
    if trace.len() > 0 {
        let pre = trace.drop_last();
        assert forall|i: int| 0 <= i < pre.len() implies !sets_device(#[trigger] pre[i], d) by {
            assert(pre[i] == trace[i]);
        }
        lemma_untouched(v, pre, d);
        assert(!sets_device(trace[trace.len() - 1], d));
    }
}

/// A model no longer than the capacity is kept exactly: the description's
/// model is the last `model` text shown at the root.
pub proof fn model_kept_whole(base: usize, blob: Seq<u8>, s: Seq<u8>)
    requires
        last_root_model(tree_events(blob)) == Some(s),
        s.len() <= MODEL_CAPACITY,
    ensures
        described(base, blob).model == s,
{
    lemma_model(initial(base, declared_size(blob) as usize), tree_events(blob));
}

/// A model longer than the capacity is cut to its first `MODEL_CAPACITY` bytes.
pub proof fn model_truncated(base: usize, blob: Seq<u8>, s: Seq<u8>)
    requires
        last_root_model(tree_events(blob)) == Some(s),
        s.len() > MODEL_CAPACITY,
    ensures
        described(base, blob).model == s.take(MODEL_CAPACITY as int),
{
    lemma_model(initial(base, declared_size(blob) as usize), tree_events(blob));
}

/// The processor count is the number of `cpu@...` entries seen under `cpus`
/// (saturating at the largest `usize`); none gives zero.
pub proof fn cpu_count_is_entries(base: usize, blob: Seq<u8>)
    ensures
        described(base, blob).smp == if cpu_entries(tree_events(blob)) <= usize::MAX {
            cpu_entries(tree_events(blob)) as int
        } else {
            usize::MAX as int
        },
        cpu_entries(tree_events(blob)) == 0 ==> described(base, blob).smp == 0,
{
    lemma_cpus(initial(base, declared_size(blob) as usize), tree_events(blob));
}

/// A device class for which the walk shows no interval keeps the empty
/// interval `0..0`.
pub proof fn absent_device_is_empty(base: usize, blob: Seq<u8>, d: Device)
    requires
        forall|i: int|
            0 <= i < tree_events(blob).len() ==> !sets_device(#[trigger] tree_events(blob)[i], d),
    ensures
        range_of(described(base, blob), d) == empty_range(),
{
    lemma_untouched(initial(base, declared_size(blob) as usize), tree_events(blob), d);
}

/// The walk enters no node outside the allow-list: at the root only `cpus`,
/// `soc` and `memory*`, and below that only console, test and timer devices
/// directly inside `soc`.
pub proof fn enters_only_allowed(root: bool, node: Seq<u8>, name: Seq<u8>)
    ensures
        decide(root, node, Obj::SubNode(name)) == Step::Into ==> (root && root_container(name))
            || (!root && node == soc_name() && soc_device(name)),
{
}

/// A node of no device class, wherever it is visited (say `fake-uart`), never
/// changes an interval.
pub proof fn unclassed_node_ignored(v: MachineView, t: Visit, d: Device)
    requires
        device_of(t.node) is None,
    ensures
        range_of(after(v, t.root, t.node, t.obj), d) == range_of(v, d),
{
}

/// The bytes of `s1` and `s2` agree everywhere but in the last compatible
/// version (header bytes 24 to 27).
pub open spec fn same_but_last_comp(s1: Seq<u8>, s2: Seq<u8>) -> bool {
    &&& s1.len() == s2.len()
    &&& forall|i: int| 0 <= i < s1.len() && !(24 <= i < 28) ==> s1[i] == s2[i]
}

proof fn lemma_word_same(s1: Seq<u8>, s2: Seq<u8>, at: int)
    requires
        same_but_last_comp(s1, s2),
        0 <= at,
        at + 4 <= s1.len(),
        at + 4 <= 24 || 28 <= at,
    ensures
        be_u32(s1, at) == be_u32(s2, at),
{
    assert(s1[at] == s2[at]);
    assert(s1[at + 1] == s2[at + 1]);
    assert(s1[at + 2] == s2[at + 2]);
    assert(s1[at + 3] == s2[at + 3]);
}

/// The last compatible version plays no part: two blobs that differ only
/// there get the same header finding, and a blob with a sound layout (its
/// strings block inside the blob) is walked over the same structure and strings blocks, so it gives the same visits.
pub proof fn last_comp_version_ignored(s1: Seq<u8>, s2: Seq<u8>)
    requires
        same_but_last_comp(s1, s2),
        40 <= s1.len(),
        declared_size(s1) <= s1.len(),
    ensures
        header_issue(s1) == header_issue(s2),
        layout_ok(s1) && strings_offset(s1) + strings_size(s1) <= declared_size(s1) ==> tree_events(
            s1,
        ) == tree_events(s2),
{
    lemma_word_same(s1, s2, 0);
    lemma_word_same(s1, s2, 4);
    lemma_word_same(s1, s2, 8);
    lemma_word_same(s1, s2, 12);
    lemma_word_same(s1, s2, 16);
    lemma_word_same(s1, s2, 20);
    lemma_word_same(s1, s2, 32);
    lemma_word_same(s1, s2, 36);
    let st = struct_offset(s1);
    let stl = struct_size(s1);
    let total = declared_size(s1);
    if 40 <= st && st + stl <= total && stl >= 12 {
        lemma_word_same(s1, s2, st);
        lemma_word_same(s1, s2, st + 4);
        lemma_word_same(s1, s2, st + stl - 4);
    }
    assert(layout_ok(s1) == layout_ok(s2));
    if layout_ok(s1) && strings_offset(s1) + strings_size(s1) <= total {
        assert(structure_of(s1) =~= structure_of(s2));
        assert(strings_of(s1) =~= strings_of(s2));
    }
}

proof fn lemma_prefix_at(s: Seq<u8>, p: Seq<u8>, k: int)
    requires
        has_prefix(s, p),
        0 <= k < p.len(),
    ensures
        s[k] == p[k],
{
    assert(s.take(p.len() as int)[k] == s[k]);
}

/// An interval is taken only from a node that the walk may enter: memory from
/// a `memory*` child of the root, the other classes from a device child of
/// `soc`. A decoy such as `fake-uart`, or a `uart@...` outside `soc`, is never
/// read.
pub proof fn intervals_from_allowed_nodes(ev: Seq<Visit>, i: int, d: Device)
    requires
        entered_only(ev),
        0 <= i < ev.len(),
        sets_device(ev[i], d),
    ensures
        d == Device::Memory ==> ev[i].depth == 1 && has_prefix(ev[i].node, memory_name()),
        d != Device::Memory ==> ev[i].depth == 2 && soc_device(ev[i].node),
{
    let t = ev[i];
    let n = t.node;
    assert(device_of(n) == Some(d));
    if t.root {
        assert(n.len() == 0);
        assert(!has_prefix(n, uart_name()) && !has_prefix(n, serial_name()));
        assert(!has_prefix(n, test_name()) && !has_prefix(n, clint_name()));
        assert(!has_prefix(n, memory_name()));
    } else if t.depth == 1 {
        assert(root_container(n));
        if n == cpus_name() || n == soc_name() {
            if has_prefix(n, uart_name()) {
                lemma_prefix_at(n, uart_name(), 0);
            }
            if has_prefix(n, serial_name()) {
                lemma_prefix_at(n, serial_name(), 1);
            }
            if has_prefix(n, test_name()) {
                lemma_prefix_at(n, test_name(), 0);
            }
            if has_prefix(n, clint_name()) {
                lemma_prefix_at(n, clint_name(), 1);
            }
            if has_prefix(n, memory_name()) {
                lemma_prefix_at(n, memory_name(), 0);
            }
        } else {
            lemma_prefix_at(n, memory_name(), 0);
            if has_prefix(n, uart_name()) {
                lemma_prefix_at(n, uart_name(), 0);
            }
            if has_prefix(n, serial_name()) {
                lemma_prefix_at(n, serial_name(), 0);
            }
            if has_prefix(n, test_name()) {
                lemma_prefix_at(n, test_name(), 0);
            }
            if has_prefix(n, clint_name()) {
                lemma_prefix_at(n, clint_name(), 0);
            }
        }
    }
}

} // verus!
