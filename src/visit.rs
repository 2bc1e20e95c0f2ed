use vstd::prelude::*;
use core::ops::Range;

verus! {

/// What the walker shows for one entry of the tree, as plain values.
pub enum Obj {
    /// A child node, by name (unit address included).
    SubNode(Seq<u8>),
    /// A `model` property, without its terminating zero.
    Model(Seq<u8>),
    /// A `reg` property, by its first address interval, if it has one.
    Reg(Option<Range<usize>>),
    /// Any other property.
    Other,
}

/// One call of the visitor: whether the current node is the root, its depth
/// (the root at 0, its children at 1), the current node's name, and the entry
/// shown.
pub struct Visit {
    pub root: bool,
    pub depth: nat,
    pub node: Seq<u8>,
    pub obj: Obj,
}

/// An entry of the tree as the visitor receives it.
pub enum DtbItem<'a> {
    /// A child node, by name.
    SubNode(&'a [u8]),
    /// A `model` property.
    Model(&'a [u8]),
    /// A `reg` property, by its first address interval.
    Reg(Option<Range<usize>>),
    /// Any other property.
    Other,
}

impl<'a> View for DtbItem<'a> {
    type V = Obj;

    open spec fn view(&self) -> Obj {
        match self {
            DtbItem::SubNode(name) => Obj::SubNode(name@),
            DtbItem::Model(text) => Obj::Model(text@),
            DtbItem::Reg(r) => Obj::Reg(*r),
            DtbItem::Other => Obj::Other,
        }
    }
}

/// The visitor's answer for an entry.
#[derive(Clone, Copy, Debug, PartialEq, Eq, Structural)]
pub enum Step {
    /// Enter the child node.
    Into,
    /// Skip the child node, or go on after the property.
    Over,
    /// Leave the current node: its remaining entries are not shown.
    Out,
}

} // verus!
