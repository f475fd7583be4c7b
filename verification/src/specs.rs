//! Proof specs: the per-level configuration that tells the proof engine how
//! a tree hashes its leaves and inner nodes.

use vstd::prelude::*;
use crate::fragment::{leaf_view, LeafOperation, LeafOperationView};

verus! {

/// The layout of the inner nodes of a tree.
#[derive(Clone, Debug, PartialEq, Eq)]
pub struct InnerNodeSpec {
    pub child_order: Vec<i32>,
    pub child_size: i32,
    pub min_prefix_length: i32,
    pub max_prefix_length: i32,
    pub empty_child: Vec<u8>,
    pub hash: i32,
}

/// The value of an [`InnerNodeSpec`].
pub struct InnerNodeSpecView {
    pub child_order: Seq<i32>,
    pub child_size: i32,
    pub min_prefix_length: i32,
    pub max_prefix_length: i32,
    pub empty_child: Seq<u8>,
    pub hash: i32,
}

impl View for InnerNodeSpec {
    type V = InnerNodeSpecView;

    open spec fn view(&self) -> InnerNodeSpecView {
        InnerNodeSpecView {
            child_order: self.child_order@,
            child_size: self.child_size,
            min_prefix_length: self.min_prefix_length,
            max_prefix_length: self.max_prefix_length,
            empty_child: self.empty_child@,
            hash: self.hash,
        }
    }
}

/// The number of bytes that the children left of the last one take up in
/// an inner node: the number of children but one, times the child size.
pub open spec fn sibling_bytes(spec: InnerNodeSpecView) -> int {
    (spec.child_order.len() - 1) * spec.child_size
}

/// Whether `n` is a value of a signed 32-bit integer.
pub open spec fn fits_i32(n: int) -> bool {
    i32::MIN <= n <= i32::MAX
}

/// The proof engine computes the sizes of prefixes and suffixes from an
/// inner spec in 32-bit arithmetic, and some of them in the arithmetic of
/// the machine word. Which sizes it computes depends on what it is asked;
/// each of these says that one group of them fits.
impl InnerNodeSpecView {
    /// The sizes that are computed for every inner step of a fragment: the
    /// spec names a child, children have a positive size, and the bytes of
    /// the siblings, alone and with the longest prefix, fit in 32 bits.
    pub open spec fn steps_fit(self) -> bool {
        &&& self.child_order.len() >= 1
        &&& self.child_size >= 1
        &&& sibling_bytes(self) <= i32::MAX
        &&& sibling_bytes(self) + self.max_prefix_length <= i32::MAX
    }

    /// The sizes that are computed where the place of an inner step among
    /// its siblings is looked for: those of `steps_fit`, and the bytes of
    /// the siblings with the shortest prefix.
    pub open spec fn paddings_fit(self) -> bool {
        &&& self.steps_fit()
        &&& sibling_bytes(self) + self.min_prefix_length <= i32::MAX
    }

    /// The sizes that are computed for the last child alone: the spec names
    /// a child, and the bytes of the siblings, alone and with either prefix
    /// length, fit in 32 bits.
    pub open spec fn last_padding_fits(self) -> bool {
        &&& self.child_order.len() >= 1
        &&& self.child_order.len() - 1 <= i32::MAX
        &&& fits_i32(sibling_bytes(self))
        &&& fits_i32(sibling_bytes(self) + self.min_prefix_length)
        &&& fits_i32(sibling_bytes(self) + self.max_prefix_length)
    }

    /// The size that is computed for the first child alone: the spec names
    /// a child, and the bytes of the siblings fit in a machine word. A
    /// negative child size counts as the word with the same bits, so it fits
    /// only when multiplied by one sibling at most.
    pub open spec fn first_padding_fits(self) -> bool {
        &&& self.child_order.len() >= 1
        &&& (self.child_order.len() <= 2 || (self.child_size >= 0 && sibling_bytes(self)
            <= usize::MAX))
    }
}

impl InnerNodeSpec {
    /// The bytes of the siblings of the last child.
    fn sibling_bytes(&self) -> (bytes: i128)
        requires
            1 <= self.child_order@.len(),
        ensures
            bytes == sibling_bytes(self@),
            -0x8000_0000_0000_0000_0000_0000 <= bytes <= 0x8000_0000_0000_0000_0000_0000,
    {
        let siblings: usize = self.child_order.len() - 1;
        assert(-0x8000_0000_0000_0000_0000_0000 <= siblings * self.child_size
            <= 0x8000_0000_0000_0000_0000_0000) by (nonlinear_arith)
            requires
                0 <= siblings <= 0xffff_ffff_ffff_ffff,
                -0x8000_0000 <= self.child_size <= 0x7fff_ffff,
        ;
        (siblings as i128) * (self.child_size as i128)
    }

    /// Whether the sizes computed for every inner step fit.
    pub fn steps_fit(&self) -> (ok: bool)
        ensures
            ok == self@.steps_fit(),
    {
        let children: usize = self.child_order.len();
        if children < 1 || self.child_size < 1 {
            return false;
        }
        if children - 1 > 0x7fff_ffff {
            assert(sibling_bytes(self@) > i32::MAX) by (nonlinear_arith)
                requires
                    sibling_bytes(self@) == (children - 1) * self.child_size,
                    children - 1 > 0x7fff_ffff,
                    self.child_size >= 1,
            ;
            return false;
        }
        let taken: i128 = self.sibling_bytes();
        let limit: i128 = 0x7fff_ffff;
        taken <= limit && taken + (self.max_prefix_length as i128) <= limit
    }

    /// Whether the sizes computed to place an inner step among its siblings
    /// fit.
    pub fn paddings_fit(&self) -> (ok: bool)
        ensures
            ok == self@.paddings_fit(),
    {
        if !self.steps_fit() {
            return false;
        }
        let taken: i128 = self.sibling_bytes();
        let limit: i128 = 0x7fff_ffff;
        taken + (self.min_prefix_length as i128) <= limit
    }

    /// Whether the sizes computed for the last child alone fit.
    pub fn last_padding_fits(&self) -> (ok: bool)
        ensures
            ok == self@.last_padding_fits(),
    {
        let children: usize = self.child_order.len();
        if children < 1 || children - 1 > 0x7fff_ffff {
            return false;
        }
        let taken: i128 = self.sibling_bytes();
        let low: i128 = -0x8000_0000;
        let high: i128 = 0x7fff_ffff;
        let with_min: i128 = taken + (self.min_prefix_length as i128);
        let with_max: i128 = taken + (self.max_prefix_length as i128);
        low <= taken && taken <= high && low <= with_min && with_min <= high && low <= with_max
            && with_max <= high
    }

    /// Whether the size computed for the first child alone fits.
    pub fn first_padding_fits(&self) -> (ok: bool)
        ensures
            ok == self@.first_padding_fits(),
    {
        let children: usize = self.child_order.len();
        if children < 1 {
            return false;
        }
        if children <= 2 {
            return true;
        }
        if self.child_size < 0 {
            return false;
        }
        let taken: i128 = self.sibling_bytes();
        let limit: i128 = usize::MAX as i128;
        taken <= limit
    }
}

/// The configuration of one tree level.
#[derive(Clone, Debug, PartialEq, Eq)]
pub struct ProofSpec {
    pub leaf_spec: Option<LeafOperation>,
    pub inner_spec: Option<InnerNodeSpec>,
    pub max_depth: i32,
    pub min_depth: i32,
    pub prehash_key_before_comparison: bool,
}

/// The value of a [`ProofSpec`].
pub struct ProofSpecView {
    pub leaf_spec: Option<LeafOperationView>,
    pub inner_spec: Option<InnerNodeSpecView>,
    pub max_depth: i32,
    pub min_depth: i32,
    pub prehash_key_before_comparison: bool,
}

/// The value of an optional inner spec.
pub open spec fn inner_spec_view(spec: Option<InnerNodeSpec>) -> Option<InnerNodeSpecView> {
    match spec {
        Some(inner) => Some(inner@),
        None => None,
    }
}

impl View for ProofSpec {
    type V = ProofSpecView;

    open spec fn view(&self) -> ProofSpecView {
        ProofSpecView {
            leaf_spec: leaf_view(self.leaf_spec),
            inner_spec: inner_spec_view(self.inner_spec),
            max_depth: self.max_depth,
            min_depth: self.min_depth,
            prehash_key_before_comparison: self.prehash_key_before_comparison,
        }
    }
}

/// The proof specs of a chain of trees, one per level, lowest level first.
#[derive(Clone, Debug, PartialEq, Eq)]
pub struct ProofSpecs {
    pub specs: Vec<ProofSpec>,
}

impl View for ProofSpecs {
    type V = Seq<ProofSpecView>;

    open spec fn view(&self) -> Seq<ProofSpecView> {
        Seq::new(self.specs@.len(), |i: int| self.specs@[i]@)
    }
}

impl ProofSpecs {
    /// The specs of `specs`, in the order given.
    pub fn new(specs: Vec<ProofSpec>) -> (res: ProofSpecs)
        ensures
            res.specs == specs,
    {
        ProofSpecs { specs }
    }

    /// The number of levels configured.
    pub fn len(&self) -> (n: usize)
        ensures
            n == self@.len(),
    {
        self.specs.len()
    }

    /// Whether no level is configured.
    pub fn is_empty(&self) -> (empty: bool)
        ensures
            empty == (self@.len() == 0),
    {
        self.specs.len() == 0
    }
}

} // verus!
