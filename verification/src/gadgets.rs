//! The constraint-gadget layer: a constraint system that records, for the
//! one witness it is built over, whether each enforced relation holds, plus
//! the reusable gadgets (allocation, hashing, equality, Merkle folding) the
//! withdrawal circuit is assembled from.
//!
//! Hash and allocation gadgets define their outputs from their inputs, so
//! their internal rows are satisfiable by construction; what decides
//! satisfiability is the recorded equality enforcements.

use vstd::prelude::*;
use crate::field::{fe_wf, FieldElement};
use crate::hashing::{concat_fe, hash_fes, hash_field_elements};

verus! {

/// All recorded enforcements hold.
pub open spec fn cs_satisfied(s: Seq<bool>) -> bool {
    forall|i: int| 0 <= i < s.len() ==> s[i]
}

pub proof fn lemma_satisfied_push(s: Seq<bool>, b: bool)
    ensures
        cs_satisfied(s.push(b)) <==> (cs_satisfied(s) && b),
{
    if cs_satisfied(s) && b {
        assert forall|i: int| 0 <= i < s.push(b).len() implies s.push(b)[i] by {
            if i < s.len() {
                assert(s[i]);
            }
        }
    }
    if cs_satisfied(s.push(b)) {
        assert(s.push(b)[s.len() as int]);
        assert forall|i: int| 0 <= i < s.len() implies s[i] by {
            assert(s.push(b)[i]);
        }
    }
}

/// A constraint system built over one concrete witness: it counts the
/// variables allocated and records whether each enforced relation holds.
pub struct ConstraintSystem {
    pub constraints: Vec<bool>,
    pub num_instance_variables: usize,
    pub num_witness_variables: usize,
}

impl ConstraintSystem {
    pub fn new() -> (r: ConstraintSystem)
        ensures
            r.constraints@ == Seq::<bool>::empty(),
            r.num_instance_variables == 0,
            r.num_witness_variables == 0,
    {
        ConstraintSystem { constraints: Vec::new(), num_instance_variables: 0, num_witness_variables: 0 }
    }

    /// Whether every enforced relation holds of the witness.
    pub fn is_satisfied(&self) -> (r: bool)
        ensures
            r == cs_satisfied(self.constraints@),
    {
        let n = self.constraints.len();
        let mut i: usize = 0;
        while i < n
            invariant
                0 <= i <= n,
                n == self.constraints@.len(),
                forall|j: int| 0 <= j < i ==> self.constraints@[j],
            decreases n - i,
        {
            if !self.constraints[i] {
                return false;
            }
            i += 1;
        }
        true
    }

    /// The first enforcement that fails, if any.
    pub fn first_failing_constraint(&self) -> (r: Option<usize>)
        ensures
            r is None <==> cs_satisfied(self.constraints@),
            r matches Some(i) ==> i < self.constraints@.len() && !self.constraints@[i as int]
                && forall|j: int| 0 <= j < i ==> self.constraints@[j],
    {
        let n = self.constraints.len();
        let mut i: usize = 0;
        while i < n
            invariant
                0 <= i <= n,
                n == self.constraints@.len(),
                forall|j: int| 0 <= j < i ==> self.constraints@[j],
            decreases n - i,
        {
            if !self.constraints[i] {
                return Some(i);
            }
            i += 1;
        }
        None
    }
}

/// An allocated field-element variable, carrying its witness value.
#[derive(Clone, Copy, PartialEq, Eq, Debug)]
pub struct FieldElementGadget {
    pub value: FieldElement,
}

/// An allocated boolean variable, carrying its witness value.
#[derive(Clone, Copy, PartialEq, Eq, Debug)]
pub struct BooleanGadget {
    pub value: bool,
}

impl BooleanGadget {
    /// Boolean negation.
    pub fn not(&self) -> (r: BooleanGadget)
        ensures
            r.value == !self.value,
    {
        BooleanGadget { value: !self.value }
    }
}

/// Allocates a private witness variable holding `value`.
pub fn alloc_field_gadget(cs: &mut ConstraintSystem, value: &FieldElement) -> (r:
    FieldElementGadget)
    requires
        old(cs).num_witness_variables < 0x1000_0000,
    ensures
        final(cs).constraints == old(cs).constraints,
        final(cs).num_instance_variables == old(cs).num_instance_variables,
        final(cs).num_witness_variables == old(cs).num_witness_variables + 1,
        r.value == *value,
{
    cs.num_witness_variables = cs.num_witness_variables + 1;
    FieldElementGadget { value: *value }
}

/// Allocates a public-input variable holding `value`.
pub fn alloc_input_field_gadget(cs: &mut ConstraintSystem, value: &FieldElement) -> (r:
    FieldElementGadget)
    requires
        old(cs).num_instance_variables < 0x1000_0000,
    ensures
        final(cs).constraints == old(cs).constraints,
        final(cs).num_instance_variables == old(cs).num_instance_variables + 1,
        final(cs).num_witness_variables == old(cs).num_witness_variables,
        r.value == *value,
{
    cs.num_instance_variables = cs.num_instance_variables + 1;
    FieldElementGadget { value: *value }
}

/// Enforces equality of two variables, unconditionally.
pub fn enforce_equal(cs: &mut ConstraintSystem, a: &FieldElementGadget, b: &FieldElementGadget)
    requires
        old(cs).constraints@.len() < 0x1000_0000,
    ensures
        final(cs).constraints@ == old(cs).constraints@.push(a.value@ == b.value@),
        final(cs).num_instance_variables == old(cs).num_instance_variables,
        final(cs).num_witness_variables == old(cs).num_witness_variables,
{
    let ok = a.value.eq_fe(&b.value);
    cs.constraints.push(ok);
}

/// Enforces equality of two variables whenever the selector is true; the
/// enforcement row is always generated, the selector only nullifies it.
pub fn conditional_enforce_equal(
    cs: &mut ConstraintSystem,
    a: &FieldElementGadget,
    b: &FieldElementGadget,
    should_enforce: &BooleanGadget,
)
    requires
        old(cs).constraints@.len() < 0x1000_0000,
    ensures
        final(cs).constraints@ == old(cs).constraints@.push(
            should_enforce.value ==> a.value@ == b.value@,
        ),
        final(cs).num_instance_variables == old(cs).num_instance_variables,
        final(cs).num_witness_variables == old(cs).num_witness_variables,
{
    let eq = a.value.eq_fe(&b.value);
    let ok = !should_enforce.value || eq;
    cs.constraints.push(ok);
}

/// Enforces that the returned variable is the fixed-arity hash of exactly
/// the given inputs in order; the output is allocated from the inputs, so
/// the hash rows hold by construction.
pub fn enforce_hash_constant_length(cs: &mut ConstraintSystem, inputs: &Vec<FieldElementGadget>)
    -> (r: FieldElementGadget)
    requires
        old(cs).num_witness_variables < 0x1000_0000,
    ensures
        final(cs).constraints == old(cs).constraints,
        final(cs).num_instance_variables == old(cs).num_instance_variables,
        final(cs).num_witness_variables == old(cs).num_witness_variables + 1,
        fe_wf(r.value),
        r.value@ == hash_fes(inputs@.map_values(|g: FieldElementGadget| g.value)),
{
    let mut values: Vec<FieldElement> = Vec::new();
    let n = inputs.len();
    let mut i: usize = 0;
    while i < n
        invariant
            0 <= i <= n,
            n == inputs@.len(),
            values@ == inputs@.take(i as int).map_values(|g: FieldElementGadget| g.value),
        decreases n - i,
    {
        values.push(inputs[i].value);
        proof {
            assert(inputs@.take(i + 1).map_values(|g: FieldElementGadget| g.value) =~= inputs@.take(
                i as int,
            ).map_values(|g: FieldElementGadget| g.value).push(inputs@[i as int].value));
        }
        i += 1;
    }
    proof {
        assert(inputs@.take(n as int) =~= inputs@);
    }
    let h = hash_field_elements(&values);
    cs.num_witness_variables = cs.num_witness_variables + 1;
    FieldElementGadget { value: h }
}

/// Convenience: the hash of exactly two elements, as the Merkle fold uses.
pub open spec fn hash_pair(l: FieldElement, r: FieldElement) -> Seq<u8> {
    hash_fes(seq![l, r])
}

/// One step of a Merkle path: the sibling hash, and whether the running
/// node is the right child of its parent.
#[derive(Clone, Copy, PartialEq, Eq, Debug)]
pub struct MerklePathNode {
    pub sibling: FieldElement,
    pub right: bool,
}

/// An ordered bottom-up Merkle path.
#[derive(Clone, PartialEq, Eq, Debug)]
pub struct GingerMHTBinaryPath {
    pub nodes: Vec<MerklePathNode>,
}

pub open spec fn path_wf(p: GingerMHTBinaryPath) -> bool {
    forall|i: int| 0 <= i < p.nodes@.len() ==> fe_wf((#[trigger] p.nodes@[i]).sibling)
}

/// The root reached from a leaf along a path, folding bottom-up and ordering
/// each pair by the recorded direction.
pub open spec fn merkle_root_bytes(leaf: FieldElement, path: Seq<MerklePathNode>) -> Seq<u8>
    decreases path.len(),
{
    if path.len() == 0 {
        leaf@
    } else {
        let n = path[0];
        let parent = if n.right {
            hash_pair(n.sibling, leaf)
        } else {
            hash_pair(leaf, n.sibling)
        };
        merkle_root_bytes_seq(parent, path.skip(1))
    }
}

/// Helper to recurse with a byte-level running node.
pub open spec fn merkle_root_bytes_seq(node: Seq<u8>, path: Seq<MerklePathNode>) -> Seq<u8>
    decreases path.len(),
{
    if path.len() == 0 {
        node
    } else {
        let n = path[0];
        let parent = if n.right {
            mixed_hash_pair(n.sibling@, node)
        } else {
            mixed_hash_pair(node, n.sibling@)
        };
        merkle_root_bytes_seq(parent, path.skip(1))
    }
}

/// The pair hash over raw byte encodings.
pub open spec fn mixed_hash_pair(l: Seq<u8>, r: Seq<u8>) -> Seq<u8> {
    crate::hashing::mask_to_field(
        crate::hashing::blake2s_of(crate::hashing::field_hash_personal(), l + r),
    )
}

/// `hash_pair` agrees with its byte-level form.
pub proof fn lemma_hash_pair_bytes(l: FieldElement, r: FieldElement)
    ensures
        hash_pair(l, r) == mixed_hash_pair(l@, r@),
{
    let s = seq![l, r];
    assert(s.drop_last() =~= seq![l]);
    assert(seq![l].drop_last() =~= Seq::<FieldElement>::empty());
    assert(concat_fe(s) == concat_fe(seq![l]) + r@);
    assert(concat_fe(seq![l]) == concat_fe(Seq::<FieldElement>::empty()) + l@);
    assert(concat_fe(s) =~= l@ + r@);
}

/// The two forms of the Merkle fold agree.
pub proof fn lemma_merkle_root_as_seq(leaf: FieldElement, path: Seq<MerklePathNode>)
    ensures
        merkle_root_bytes(leaf, path) == merkle_root_bytes_seq(leaf@, path),
{
    if path.len() > 0 {
        lemma_hash_pair_bytes(path[0].sibling, leaf);
        lemma_hash_pair_bytes(leaf, path[0].sibling);
    }
}

/// The gadget Merkle fold: recomputes each level's hash from the pair
/// ordered by direction, producing the root variable.
pub fn enforce_root_from_leaf(
    cs: &mut ConstraintSystem,
    path: &GingerMHTBinaryPath,
    leaf: &FieldElementGadget,
) -> (r: FieldElementGadget)
    requires
        old(cs).num_witness_variables + path.nodes@.len() < 0x1000_0000,
        fe_wf(leaf.value),
        path_wf(*path),
    ensures
        final(cs).constraints == old(cs).constraints,
        final(cs).num_instance_variables == old(cs).num_instance_variables,
        final(cs).num_witness_variables == old(cs).num_witness_variables + path.nodes@.len(),
        fe_wf(r.value),
        r.value@ == merkle_root_bytes(leaf.value, path.nodes@),
{
    let mut cur = *leaf;
    let n = path.nodes.len();
    let mut i: usize = 0;
    proof {
        assert(merkle_root_bytes_seq(cur.value@, path.nodes@.skip(0)) == merkle_root_bytes(
            leaf.value,
            path.nodes@,
        )) by {
            assert(path.nodes@.skip(0) =~= path.nodes@);
            if path.nodes@.len() > 0 {
                lemma_hash_pair_bytes(path.nodes@[0].sibling, leaf.value);
                lemma_hash_pair_bytes(leaf.value, path.nodes@[0].sibling);
            }
        }
    }
    while i < n
        invariant
            0 <= i <= n,
            n == path.nodes@.len(),
            path_wf(*path),
            fe_wf(cur.value),
            cs.num_witness_variables == old(cs).num_witness_variables + i,
            cs.num_witness_variables + (n - i) < 0x1000_0000,
            cs.constraints == old(cs).constraints,
            cs.num_instance_variables == old(cs).num_instance_variables,
            merkle_root_bytes_seq(cur.value@, path.nodes@.skip(i as int)) == merkle_root_bytes(
                leaf.value,
                path.nodes@,
            ),
        decreases n - i,
    {
        let node = &path.nodes[i];
        let mut pair: Vec<FieldElementGadget> = Vec::new();
        let sib = FieldElementGadget { value: node.sibling };
        if node.right {
            pair.push(sib);
            pair.push(cur);
        } else {
            pair.push(cur);
            pair.push(sib);
        }
        let ghost old_skip = path.nodes@.skip(i as int);
        let next = enforce_hash_constant_length(cs, &pair);
        proof {
            let f = |g: FieldElementGadget| g.value;
            if node.right {
                assert(pair@.map_values(f) =~= seq![node.sibling, cur.value]);
                lemma_hash_pair_bytes(node.sibling, cur.value);
            } else {
                assert(pair@.map_values(f) =~= seq![cur.value, node.sibling]);
                lemma_hash_pair_bytes(cur.value, node.sibling);
            }
            assert(old_skip[0] == path.nodes@[i as int]);
            assert(old_skip.skip(1) =~= path.nodes@.skip(i + 1));
        }
        cur = next;
        i += 1;
    }
    proof {
        assert(path.nodes@.skip(n as int) =~= Seq::<MerklePathNode>::empty());
    }
    cur
}

} // verus!
