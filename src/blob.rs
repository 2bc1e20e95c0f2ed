use vstd::prelude::*;
use dtb_walker::{Dtb, DtbObj, HeaderError, Property, WalkOperation};
use crate::machine::{run, MachineInfo, MachineView};
use crate::structure::{root_frame, scan_ok, walk_ok};
use crate::names::{root_container, soc_device};
use crate::visit::{DtbItem, Step, Visit};

verus! {

#[verifier::external_type_specification]
#[verifier::external_body]
pub struct ExDtb<'a>(Dtb<'a>);

#[verifier::external_type_specification]
#[verifier::external_body]
pub struct ExHeaderError(HeaderError);

/// Bytes in a device tree header.
pub const HEADER_LEN: usize = 40;

/// The big-endian 32-bit word at byte `at` of `s`.
pub open spec fn be_u32(s: Seq<u8>, at: int) -> nat {
    (s[at] as nat) * 0x100_0000 + (s[at + 1] as nat) * 0x1_0000 + (s[at + 2] as nat) * 0x100 + (
    s[at + 3] as nat)
}

/// The blob's own statement of its total size: the header's second word.
pub open spec fn declared_size(s: Seq<u8>) -> nat {
    be_u32(s, 4)
}

/// Offset of the structure block.
pub open spec fn struct_offset(s: Seq<u8>) -> int {
    be_u32(s, 8) as int
}

/// Offset of the strings block.
pub open spec fn strings_offset(s: Seq<u8>) -> int {
    be_u32(s, 12) as int
}

/// Offset of the memory reservation map.
pub open spec fn rsv_offset(s: Seq<u8>) -> int {
    be_u32(s, 16) as int
}

/// Size of the strings block.
pub open spec fn strings_size(s: Seq<u8>) -> int {
    be_u32(s, 32) as int
}

/// Size of the structure block.
pub open spec fn struct_size(s: Seq<u8>) -> int {
    be_u32(s, 36) as int
}

/// The offsets and sizes are aligned and nested as the header check wants: the
/// reservation map after the header, the structure block after it, opening
/// with the root node and closing with the end marker, then the strings block.
pub open spec fn layout_ok(s: Seq<u8>) -> bool {
    let total = declared_size(s);
    let rsv = rsv_offset(s);
    let st = struct_offset(s);
    let stl = struct_size(s);
    &&& rsv % 4 == 0
    &&& 40 <= rsv < total
    &&& st % 4 == 0
    &&& rsv <= st < total
    &&& stl % 4 == 0
    &&& stl <= total - rsv
    &&& stl / 4 >= 3
    &&& be_u32(s, st) == 1
    &&& be_u32(s, st + 4) == 0
    &&& be_u32(s, st + stl - 4) == 9
    &&& st + stl <= strings_offset(s) < total
    &&& strings_size(s) <= total - (st + stl)
}

/// The first finding of the header check that is not let through, for a blob
/// that starts on a 4-byte boundary: a wrong magic word, a version below 17,
/// a total size below the header, or a bad layout. The last compatible version
/// is not looked at.
pub open spec fn header_issue(s: Seq<u8>) -> Option<HeaderIssue> {
    if be_u32(s, 0) != 0xd00d_feed {
        Some(HeaderIssue::Magic(be_u32(s, 0) as u32))
    } else if be_u32(s, 20) < 17 {
        Some(HeaderIssue::Version(be_u32(s, 20) as u32))
    } else if declared_size(s) < 40 {
        Some(HeaderIssue::TotalSize(declared_size(s) as u32))
    } else if !layout_ok(s) {
        Some(HeaderIssue::Layout)
    } else {
        None
    }
}

/// The header finding for a blob whose structure block runs past its total
/// size (so its layout is bad), computed without reading the structure block.
pub fn early_issue(s: &[u8]) -> (r: HeaderIssue)
    requires
        HEADER_LEN <= s@.len(),
        !layout_ok(s@),
    ensures
        header_issue(s@) == Some(r),
{
    let magic = read_be_u32(s, 0);
    let version = read_be_u32(s, 20);
    let total = read_be_u32(s, 4);
    if magic != 0xd00d_feed {
        HeaderIssue::Magic(magic as u32)
    } else if version < 17 {
        HeaderIssue::Version(version as u32)
    } else if total < 40 {
        HeaderIssue::TotalSize(total as u32)
    } else {
        HeaderIssue::Layout
    }
}

/// The structure block's tokens, from after the root's opening to before the end marker.
pub open spec fn structure_of(s: Seq<u8>) -> Seq<u8> {
    s.subrange(struct_offset(s) + 8, struct_offset(s) + struct_size(s) - 4)
}

/// The strings block.
pub open spec fn strings_of(s: Seq<u8>) -> Seq<u8> {
    s.subrange(strings_offset(s), strings_offset(s) + strings_size(s))
}

/// The walk over the blob can read every entry it reaches: the strings block
/// lies inside the blob and every token of the structure block can be read
/// until the root node closes.
pub open spec fn walkable(s: Seq<u8>) -> bool {
    &&& layout_ok(s)
    &&& declared_size(s) <= s.len()
    &&& strings_offset(s) + strings_size(s) <= declared_size(s)
    &&& walk_ok(
        s,
        struct_offset(s) + struct_size(s) - 4,
        strings_offset(s),
        strings_size(s),
        struct_offset(s) + 8,
        seq![root_frame()],
    )
}

/// Tells whether the walk over a blob whose header passed can read every entry.
pub fn check_walkable(s: &[u8]) -> (r: bool)
    requires
        layout_ok(s@),
        HEADER_LEN <= s@.len(),
        declared_size(s@) <= s@.len(),
    ensures
        r == walkable(s@),
{
    let st = read_be_u32(s, 8);
    let stl = read_be_u32(s, 36);
    let so = read_be_u32(s, 12);
    let sl = read_be_u32(s, 32);
    let total = read_be_u32(s, 4);
    if sl > total - so {
        return false;
    }
    scan_ok(s, st + 8, st + stl - 4, so, sl)
}

/// A finding of the header check.
#[derive(Clone, Copy, Debug, PartialEq, Eq, Structural)]
pub enum HeaderIssue {
    /// The blob does not start on an 8-byte boundary; the value is the
    /// alignment it has.
    Misaligned(u32),
    /// The magic word is not `0xd00dfeed`.
    Magic(u32),
    /// The version is older than 17.
    Version(u32),
    /// The last compatible version is not 16.
    LastCompVersion(u32),
    /// The total size is shorter than the header.
    TotalSize(u32),
    /// An offset or size of the memory reservation map, the structure block
    /// or the strings block is misaligned or out of bounds, or the structure
    /// block is not a root node ended by its end marker.
    Layout,
}

/// Why a blob was refused.
#[derive(Clone, Copy, Debug, PartialEq, Eq, Structural)]
pub enum BlobError {
    /// The slice does not start on a 4-byte boundary.
    Unaligned,
    /// The slice is shorter than the header or than the declared total size.
    Truncated,
    /// The header check found an issue that is not tolerated.
    Header(HeaderIssue),
    /// The structure block holds a token that cannot be read: a node name or
    /// property that runs past the block, a property name outside the strings
    /// block, an unknown token, a root node that never closes, or a `reg`
    /// property whose cells cannot be read.
    Structure,
}

/// The header findings that are let through: a blob on a 4-byte boundary,
/// and any last-compatible version.
pub open spec fn is_tolerated(i: HeaderIssue) -> bool {
    i == HeaderIssue::Misaligned(4) || i is LastCompVersion
}

/// Tells whether a header finding is let through.
pub fn tolerated(i: &HeaderIssue) -> (r: bool)
    ensures
        r == is_tolerated(*i),
{
    match i {
        HeaderIssue::Misaligned(n) => *n == 4,
        HeaderIssue::LastCompVersion(_) => true,
        _ => false,
    }
}

/// Reads the big-endian 32-bit word at byte `at` of `s`.
pub fn read_be_u32(s: &[u8], at: usize) -> (r: usize)
    requires
        at + 4 <= s@.len(),
    ensures
        r == be_u32(s@, at as int),
        r < 0x1_0000_0000,
{
    let b0 = s[at] as usize;
    let b1 = s[at + 1] as usize;
    let b2 = s[at + 2] as usize;
    let b3 = s[at + 3] as usize;
    assert(b0 * 0x100_0000 + b1 * 0x1_0000 + b2 * 0x100 + b3 <= 0xffff_ffff) by (nonlinear_arith)
        requires
            b0 < 256,
            b1 < 256,
            b2 < 256,
            b3 < 256,
    ;
    b0 * 0x100_0000 + b1 * 0x1_0000 + b2 * 0x100 + b3
}

/// The visits that `dtb_walker::Dtb::walk` makes over a tree whose structure
/// block holds the tokens `structure` (between the root's opening and the end
/// marker) and whose strings block is `strings`, answered as
/// `MachineInfo::visit` answers.
pub uninterp spec fn dtb_events(structure: Seq<u8>, strings: Seq<u8>) -> Seq<Visit>;

/// Where a visit can be: at the root (depth 0, named by the empty string), in
/// a child of the root that the visitor enters (depth 1: `cpus`, `soc` or
/// `memory*`), or in a child of `soc` that it enters (depth 2: a console, test
/// or timer device).
pub open spec fn visit_allowed(t: Visit) -> bool {
    ||| t.root && t.depth == 0 && t.node.len() == 0
    ||| !t.root && t.depth == 1 && root_container(t.node)
    ||| !t.root && t.depth == 2 && soc_device(t.node)
}

/// Every visit is in a node that the walk may enter.
pub open spec fn entered_only(ev: Seq<Visit>) -> bool {
    forall|i: int| 0 <= i < ev.len() ==> visit_allowed(#[trigger] ev[i])
}

/// `after` is what the visits `ev` make of `before`, and each of them is in a
/// node that the walk may enter.
pub open spec fn walked(before: MachineView, after: MachineView, ev: Seq<Visit>) -> bool {
    &&& after == run(before, ev)
    &&& entered_only(ev)
}

/// The visits of the walk over the blob `s`.
pub open spec fn tree_events(s: Seq<u8>) -> Seq<Visit> {
    dtb_events(structure_of(s), strings_of(s))
}

/// A slice and the address at which it starts.
pub struct Placed<'a> {
    bytes: &'a [u8],
    addr: usize,
}

impl<'a> Placed<'a> {
    /// The slice.
    pub closed spec fn bytes(&self) -> Seq<u8> {
        self.bytes@
    }

    /// The address at which it starts.
    pub closed spec fn addr(&self) -> usize {
        self.addr
    }

    /// The address at which the slice starts.
    pub fn addr_of(&self) -> (r: usize)
        ensures
            r == self.addr(),
    {
        self.addr
    }

    /// The slice.
    pub fn as_slice(&self) -> (r: &'a [u8])
        ensures
            r@ == self.bytes(),
    {
        self.bytes
    }

    /// The slice `bytes` with the address at which it starts.
    pub fn of(bytes: &'a [u8]) -> (r: Placed<'a>)
        ensures
            r.bytes() == bytes@,
    {
        place(bytes)
    }
}

/// Relies on `<[u8]>::as_ptr`: the address of the slice's first byte.
#[verifier::external_body]
pub(crate) fn place<'a>(bytes: &'a [u8]) -> (r: Placed<'a>)
    ensures
        r.bytes() == bytes@,
{
    Placed { bytes, addr: bytes.as_ptr() as usize }
}

/// A blob whose header passed the check, with the slice it was read from.
pub struct Blob<'a> {
    dtb: Dtb<'a>,
    bytes: &'a [u8],
}

impl<'a> Blob<'a> {
    /// The slice the blob was read from.
    pub closed spec fn bytes(&self) -> Seq<u8> {
        self.bytes@
    }
}

/// Relies on `dtb_walker::HeaderError` being told apart by variant: each
/// variant that the tolerance rule looks at keeps its value, the offset and
/// size findings become `Layout`.
#[verifier::external_body]
fn issue_of(e: &HeaderError) -> (r: HeaderIssue) {
    match e {
        HeaderError::Misaligned(n) => HeaderIssue::Misaligned(*n),
        HeaderError::Magic(n) => HeaderIssue::Magic(*n),
        HeaderError::Version(n) => HeaderIssue::Version(*n),
        HeaderError::LastCompVersion(n) => HeaderIssue::LastCompVersion(*n),
        HeaderError::TotalSize(n) => HeaderIssue::TotalSize(*n),
        _ => HeaderIssue::Layout,
    }
}

/// Relies on `dtb_walker::Dtb::from_slice_filtered` and the header check it
/// makes in place. The slice starts on a 4-byte boundary, so the only address
/// finding is `Misaligned(4)`, which is let through; it holds the header and
/// the declared total size, and the structure block ends within that size, so
/// every read stays inside the slice. The checks then go in the order of
/// `header_issue`: magic, version, last compatible version (let through),
/// total size, then the layout.
#[verifier::external_body]
pub(crate) fn open_blob<'a>(p: &Placed<'a>) -> (r: Result<Blob<'a>, BlobError>)
    requires
        p.addr() % 4 == 0,
        HEADER_LEN <= p.bytes().len(),
        declared_size(p.bytes()) <= p.bytes().len(),
        struct_offset(p.bytes()) + struct_size(p.bytes()) <= declared_size(p.bytes()),
    ensures
        r is Ok <==> header_issue(p.bytes()) is None,
        r matches Ok(b) ==> b.bytes() == p.bytes(),
        r matches Err(e) ==> header_issue(p.bytes()) is Some && e == BlobError::Header(
            header_issue(p.bytes())->Some_0,
        ),
{
    match Dtb::from_slice_filtered(p.bytes, |e| tolerated(&issue_of(e))) {
        Ok(dtb) => Ok(Blob { dtb, bytes: p.bytes }),
        Err(dtb_walker::ConvertError::Header(e)) => Err(BlobError::Header(issue_of(&e))),
        Err(dtb_walker::ConvertError::Truncated) => Err(BlobError::Truncated),
    }
}

/// Relies on `dtb_walker::Dtb::walk`: it shows each entry it reaches to the
/// visitor, with the current node, and goes on as the visitor answers; the
/// description changes through `MachineInfo::visit` alone. The answers depend
/// on the entry and the node alone, so the visits are a function of the
/// structure and strings blocks. Entries are shown only for the root (whose
/// name is empty and whose `Context::level` is 0) and for nodes the visitor
/// entered, so every visit is in a node that `visit_allowed` admits.
/// `walkable` rules out every token that the walk, or reading the first
/// interval of a `reg` (cells folded into a 64-bit `usize`), cannot read.
#[verifier::external_body]
pub(crate) fn walk_blob(b: &Blob, info: &mut MachineInfo)
    requires
        usize::MAX == u64::MAX,
        old(info).wf(),
        walkable(b.bytes()),
    ensures
        final(info).wf(),
        walked(
            old(info)@,
            final(info)@,
            dtb_events(structure_of(b.bytes()), strings_of(b.bytes())),
        ),
{
    b.dtb.walk(|ctx, obj| {
        let item = match &obj {
            DtbObj::SubNode { name } => DtbItem::SubNode(name.as_bytes()),
            DtbObj::Property(Property::Model(text)) => DtbItem::Model(text.as_bytes()),
            DtbObj::Property(Property::Reg(reg)) => DtbItem::Reg(reg.clone().next()),
            DtbObj::Property(_) => DtbItem::Other,
        };
        match info.visit(ctx.is_root(), ctx.name().as_bytes(), &item) {
            Step::Into => WalkOperation::StepInto,
            Step::Over => WalkOperation::StepOver,
            Step::Out => WalkOperation::StepOut,
        }
    })
}

} // verus!
