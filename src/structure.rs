use vstd::prelude::*;
use crate::blob::{be_u32, read_be_u32};
use crate::names::same_bytes;

verus! {

/// One open node during the scan: the cells its own `#address-cells` and
/// `#size-cells` set (`a`, `s`), and the cells it was entered with, which
/// its `reg` properties are read by (`ca`, `cs`).
#[derive(Clone, Copy)]
pub struct Frame {
    pub a: u32,
    pub s: u32,
    pub ca: u32,
    pub cs: u32,
}

/// The root: default cells (two address cells, one size cell) on both sides.
pub open spec fn root_frame() -> Frame {
    Frame { a: 2, s: 1, ca: 2, cs: 1 }
}

/// `#address-cells`.
pub open spec fn address_cells_name() -> Seq<u8> {
    seq![
        '#' as u8, 'a' as u8, 'd' as u8, 'd' as u8, 'r' as u8, 'e' as u8, 's' as u8, 's' as u8,
        '-' as u8, 'c' as u8, 'e' as u8, 'l' as u8, 'l' as u8, 's' as u8,
    ]
}

/// `#size-cells`.
pub open spec fn size_cells_name() -> Seq<u8> {
    seq![
        '#' as u8, 's' as u8, 'i' as u8, 'z' as u8, 'e' as u8, '-' as u8, 'c' as u8, 'e' as u8,
        'l' as u8, 'l' as u8, 's' as u8,
    ]
}

/// `reg`.
pub open spec fn reg_name() -> Seq<u8> {
    seq!['r' as u8, 'e' as u8, 'g' as u8]
}

/// The end of a node name that starts at `q`: just past the first 4-byte block
/// whose last byte is zero, if one ends by `end`.
pub open spec fn name_end(s: Seq<u8>, q: int, end: int) -> Option<int>
    decreases end - q,
{
    if q < 0 || q + 4 > end {
        None
    } else if s[q + 3] == 0 {
        Some(q + 4)
    } else {
        name_end(s, q + 4, end)
    }
}

/// A zero byte lies in `s[i..to]`.
pub open spec fn has_nul(s: Seq<u8>, i: int, to: int) -> bool
    decreases to - i,
{
    if i < 0 || i >= to {
        false
    } else if s[i] == 0 {
        true
    } else {
        has_nul(s, i + 1, to)
    }
}

/// The zero-terminated string at `at` (ending before `to`) is `k`, which holds no zero.
pub open spec fn named(s: Seq<u8>, at: int, to: int, k: Seq<u8>) -> bool {
    &&& 0 <= at
    &&& at + k.len() < to
    &&& s.subrange(at, at + k.len()) == k
    &&& s[at + k.len()] == 0
}

/// The number that `k` big-endian cells at `p` make, each step shifting a
/// 64-bit accumulator left by 32 bits and adding the next cell.
pub open spec fn cells_value(s: Seq<u8>, p: int, k: nat) -> nat
    decreases k,
{
    if k == 0 {
        0
    } else {
        (cells_value(s, p, (k - 1) as nat) % 0x1_0000_0000) * 0x1_0000_0000 + be_u32(
            s,
            p + 4 * (k - 1),
        )
    }
}

/// One token of the structure block at `p` (blocks end at `end`; the strings
/// block is `s[so..so + sl]`): where the next token starts and the open nodes
/// after it, or `None` where the token cannot be read. A `reg` property read by
/// cells whose sum is zero or too large, or whose first interval ends past the
/// largest 64-bit address, cannot be read either.
pub open spec fn step(s: Seq<u8>, end: int, so: int, sl: int, p: int, fs: Seq<Frame>) -> Option<
    (int, Seq<Frame>),
> {
    let top = fs.last();
    if p < 0 || p + 4 > end {
        None
    } else if be_u32(s, p) == 1 {
        match name_end(s, p + 4, end) {
            Some(q) => Some((q, fs.push(Frame { a: 2, s: 1, ca: top.a, cs: top.s }))),
            None => None,
        }
    } else if be_u32(s, p) == 2 {
        Some((p + 4, fs.drop_last()))
    } else if be_u32(s, p) == 4 {
        Some((p + 4, fs))
    } else if be_u32(s, p) == 3 {
        if p + 12 > end {
            None
        } else {
            let len = be_u32(s, p + 4);
            let off = be_u32(s, p + 8);
            let vb: int = ((len + 3) / 4) as int;
            let next = p + 12 + 4 * vb;
            if next > end || !has_nul(s, so + off, so + sl) {
                None
            } else if named(s, so + off, so + sl, address_cells_name()) && vb == 1 {
                Some((next, fs.update(fs.len() - 1, Frame { a: be_u32(s, p + 12) as u32, ..top })))
            } else if named(s, so + off, so + sl, size_cells_name()) && vb == 1 {
                Some((next, fs.update(fs.len() - 1, Frame { s: be_u32(s, p + 12) as u32, ..top })))
            } else if named(s, so + off, so + sl, reg_name()) {
                let rs: int = top.ca + top.cs;
                if rs == 0 || rs > u32::MAX {
                    None
                } else if vb > 0 && vb % rs == 0 && cells_value(s, p + 12, top.ca as nat)
                    + cells_value(s, p + 12 + 4 * top.ca, top.cs as nat) > u64::MAX {
                    None
                } else {
                    Some((next, fs))
                }
            } else {
                Some((next, fs))
            }
        }
    } else {
        None
    }
}

/// Every token from `p` on can be read until the root node is closed.
pub open spec fn walk_ok(s: Seq<u8>, end: int, so: int, sl: int, p: int, fs: Seq<Frame>) -> bool
    decreases end - p,
{
    if fs.len() == 0 {
        true
    } else {
        match step(s, end, so, sl, p, fs) {
            Some((q, gs)) => p < q && q <= end && walk_ok(s, end, so, sl, q, gs),
            None => false,
        }
    }
}

fn name_end_at(s: &[u8], q: usize, end: usize) -> (r: Option<usize>)
    requires
        end <= s@.len(),
    ensures
        r matches Some(x) ==> name_end(s@, q as int, end as int) == Some(x as int),
        r is None ==> name_end(s@, q as int, end as int) is None,
{
    let mut i = q;
    while i <= end && end - i >= 4
        invariant
            end <= s@.len(),
            q <= i,
            name_end(s@, i as int, end as int) == name_end(s@, q as int, end as int),
        decreases end - i,
    {
        if s[i + 3] == 0 {
            return Some(i + 4);
        }
        i = i + 4;
    }
    None
}

fn has_nul_in(s: &[u8], i0: usize, to: usize) -> (r: bool)
    requires
        to <= s@.len(),
    ensures
        r == has_nul(s@, i0 as int, to as int),
{
    let mut i = i0;
    while i < to
        invariant
            to <= s@.len(),
            i0 <= i,
            has_nul(s@, i as int, to as int) == has_nul(s@, i0 as int, to as int),
        decreases to - i,
    {
        if s[i] == 0 {
            return true;
        }
        i = i + 1;
    }
    false
}

fn named_at(s: &[u8], at: usize, to: usize, k: &[u8]) -> (r: bool)
    requires
        to <= s@.len(),
    ensures
        r == named(s@, at as int, to as int, k@),
{
    if at >= to || to - at <= k.len() {
        return false;
    }
    let part = vstd::slice::slice_subrange(s, at, at + k.len());
    same_bytes(part, k) && s[at + k.len()] == 0
}

fn cells_at(s: &[u8], p: usize, k: u32) -> (r: u64)
    requires
        p + 4 * (k as int) <= s@.len(),
    ensures
        r == cells_value(s@, p as int, k as nat),
{
    let n: usize = s.len();
    let mut acc: u64 = 0;
    let mut i: u32 = 0;
    while i < k
        invariant
            n == s@.len(),
            i <= k,
            p + 4 * (k as int) <= s@.len(),
            acc == cells_value(s@, p as int, i as nat),
        decreases k - i,
    {
        let w = read_be_u32(s, p + 4 * (i as usize)) as u64;
        let hi = acc % 0x1_0000_0000;
        assert(hi * 0x1_0000_0000 + w <= u64::MAX) by (nonlinear_arith)
            requires
                hi < 0x1_0000_0000,
                w < 0x1_0000_0000,
        ;
        acc = hi * 0x1_0000_0000 + w;
        i = i + 1;
    }
    acc
}

/// Reads one token, updating the open nodes `fs`; `None` where `step` has none.
fn step_at(s: &[u8], end: usize, so: usize, sl: usize, p: usize, fs: &mut Vec<Frame>) -> (r:
    Option<usize>)
    requires
        end <= s@.len(),
        so + sl <= s@.len(),
        old(fs)@.len() > 0,
    ensures
        r is None ==> step(s@, end as int, so as int, sl as int, p as int, old(fs)@) is None,
        r matches Some(q) ==> step(s@, end as int, so as int, sl as int, p as int, old(fs)@)
            == Some((q as int, final(fs)@)),
{
    let n: usize = s.len();
    if p > end || end - p < 4 {
        return None;
    }
    assert(so + sl <= n);
    let top = fs[fs.len() - 1];
    let tok = read_be_u32(s, p);
    if tok == 1 {
        match name_end_at(s, p + 4, end) {
            Some(q) => {
                fs.push(Frame { a: 2, s: 1, ca: top.a, cs: top.s });
                Some(q)
            },
            None => None,
        }
    } else if tok == 2 {
        fs.pop();
        Some(p + 4)
    } else if tok == 4 {
        Some(p + 4)
    } else if tok == 3 {
        if end - p < 12 {
            return None;
        }
        let len = read_be_u32(s, p + 4);
        let off = read_be_u32(s, p + 8);
        let vb: usize = len / 4 + if len % 4 == 0 {
            0
        } else {
            1
        };
        assert(vb == (len + 3) / 4) by (nonlinear_arith)
            requires
                vb == len / 4 + if len % 4 == 0 {
                    0int
                } else {
                    1int
                },
        ;
        if (end - p - 12) / 4 < vb {
            return None;
        }
        let next = p + 12 + 4 * vb;
        if off > sl || !has_nul_in(s, so + off, so + sl) {
            proof {
                if off > sl {
                    assert(!has_nul(s@, so + off, so + sl));
                }
            }
            return None;
        }
        let ac: [u8; 14] = [
            '#' as u8, 'a' as u8, 'd' as u8, 'd' as u8, 'r' as u8, 'e' as u8, 's' as u8, 's' as u8,
            '-' as u8, 'c' as u8, 'e' as u8, 'l' as u8, 'l' as u8, 's' as u8,
        ];
        let sc: [u8; 11] = [
            '#' as u8, 's' as u8, 'i' as u8, 'z' as u8, 'e' as u8, '-' as u8, 'c' as u8, 'e' as u8,
            'l' as u8, 'l' as u8, 's' as u8,
        ];
        let rg: [u8; 3] = ['r' as u8, 'e' as u8, 'g' as u8];
        assert(ac@ =~= address_cells_name());
        assert(sc@ =~= size_cells_name());
        assert(rg@ =~= reg_name());
        let last = fs.len() - 1;
        if named_at(s, so + off, so + sl, ac.as_slice()) && vb == 1 {
            let v = read_be_u32(s, p + 12) as u32;
            fs.set(last, Frame { a: v, ..top });
            Some(next)
        } else if named_at(s, so + off, so + sl, sc.as_slice()) && vb == 1 {
            let v = read_be_u32(s, p + 12) as u32;
            fs.set(last, Frame { s: v, ..top });
            Some(next)
        } else if named_at(s, so + off, so + sl, rg.as_slice()) {
            let rs = top.ca as u64 + top.cs as u64;
            if rs == 0 || rs > u32::MAX as u64 {
                return None;
            }
            if vb > 0 && (vb as u64) % rs == 0 {
                assert((vb as u64) >= rs) by (nonlinear_arith)
                    requires
                        vb > 0,
                        (vb as u64) % rs == 0,
                        rs > 0,
                ;
                let base = cells_at(s, p + 12, top.ca);
                let size = cells_at(s, p + 12 + 4 * (top.ca as usize), top.cs);
                if base > u64::MAX - size {
                    return None;
                }
            }
            Some(next)
        } else {
            Some(next)
        }
    } else {
        None
    }
}

/// Tells whether the structure block in `s[start..end]`, with the strings
/// block `s[so..so + sl]`, can be read from its first token until the root
/// node closes.
pub fn scan_ok(s: &[u8], start: usize, end: usize, so: usize, sl: usize) -> (r: bool)
    requires
        end <= s@.len(),
        so + sl <= s@.len(),
    ensures
        r == walk_ok(s@, end as int, so as int, sl as int, start as int, seq![root_frame()]),
{
    let mut fs: Vec<Frame> = Vec::new();
    fs.push(Frame { a: 2, s: 1, ca: 2, cs: 1 });
    assert(fs@ =~= seq![root_frame()]);
    let mut p = start;
    while fs.len() > 0
        invariant
            end <= s@.len(),
            so + sl <= s@.len(),
            walk_ok(s@, end as int, so as int, sl as int, p as int, fs@) == walk_ok(
                s@,
                end as int,
                so as int,
                sl as int,
                start as int,
                seq![root_frame()],
            ),
        decreases end - p,
    {
        match step_at(s, end, so, sl, p, &mut fs) {
            None => {
                return false;
            },
            Some(q) => {
                if !(p < q && q <= end) {
                    return false;
                }
                p = q;
            },
        }
    }
    true
}

} // verus!
