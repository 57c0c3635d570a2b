use vstd::prelude::*;
use crate::constants::MAX_DELEGATION_CONTRACTS_LIST_SIZE;
use crate::errors::LiquidStakingError;
use crate::model::Address;

verus! {

/// An entry of the registry: a counterparty and the score it was inserted with.
#[derive(Clone, Copy, Debug, PartialEq, Eq)]
pub struct RegistryNode {
    pub contract: Address,
    pub score: u128,
}

/// The registry of counterparties, ordered from the highest score to the lowest.
#[derive(Debug)]
pub struct DelegationModule {
    pub nodes: Vec<RegistryNode>,
}

/// Scores do not increase along the sequence.
pub open spec fn sorted_by_score(s: Seq<RegistryNode>) -> bool {
    forall|i: int, j: int| 0 <= i < j < s.len() ==> #[trigger] s[i].score >= #[trigger] s[j].score
}

/// No counterparty occurs twice in the sequence.
pub open spec fn unique_contracts(s: Seq<RegistryNode>) -> bool {
    forall|i: int, j: int|
        0 <= i < s.len() && 0 <= j < s.len() && i != j ==> #[trigger] s[i].contract
            != #[trigger] s[j].contract
}

/// Where `insert_ordered` puts a new entry of score `score`: before the first entry whose score
/// is not above it, else at the end.
pub open spec fn is_insert_position(s: Seq<RegistryNode>, k: int, score: u128) -> bool {
    &&& 0 <= k <= s.len()
    &&& forall|i: int| 0 <= i < k ==> #[trigger] s[i].score > score
    &&& k < s.len() ==> s[k].score <= score
}

impl DelegationModule {
    /// The entries in order.
    pub open spec fn view(&self) -> Seq<RegistryNode> {
        self.nodes@
    }

    /// Sorted by score, without duplicates, and within the size bound.
    pub open spec fn wf(&self) -> bool {
        &&& self.nodes@.len() <= MAX_DELEGATION_CONTRACTS_LIST_SIZE
        &&& sorted_by_score(self.nodes@)
        &&& unique_contracts(self.nodes@)
    }

    /// Whether the counterparty is in the registry.
    pub open spec fn contains(&self, contract: Address) -> bool {
        exists|i: int| 0 <= i < self.nodes@.len() && #[trigger] self.nodes@[i].contract == contract
    }

    /// An empty registry.
    pub fn new() -> (r: DelegationModule)
        ensures
            r.view().len() == 0,
            r.wf(),
    {
        DelegationModule { nodes: Vec::new() }
    }

    /// The number of entries.
    pub fn len(&self) -> (r: usize)
        ensures
            r == self.view().len(),
    {
        self.nodes.len()
    }

    /// Whether the registry has no entry.
    pub fn is_empty(&self) -> (r: bool)
        ensures
            r == (self.view().len() == 0),
    {
        self.nodes.len() == 0
    }

    /// The entry at position `i`, counting from the highest score.
    pub fn node(&self, i: usize) -> (r: RegistryNode)
        requires
            i < self.view().len(),
        ensures
            r == self.view()[i as int],
    {
        self.nodes[i]
    }

    /// The position of the counterparty, if it is in the registry.
    pub fn position(&self, contract: Address) -> (r: Option<usize>)
        ensures
            r matches Some(i) ==> i < self.view().len() && self.view()[i as int].contract == contract,
            r is None <==> !self.contains(contract),
    {
        let mut i: usize = 0;
        while i < self.nodes.len()
            invariant
                i <= self.nodes@.len(),
                forall|j: int| 0 <= j < i ==> #[trigger] self.nodes@[j].contract != contract,
            decreases self.nodes@.len() - i,
        {
            if self.nodes[i].contract == contract {
                return Some(i);
            }
            i = i + 1;
        }
        None
    }

    /// Verifies whether the given counterparty is in the registry.
    pub fn is_delegation_contract_in_list(&self, contract: Address) -> (r: bool)
        ensures
            r == self.contains(contract),
    {
        self.position(contract).is_some()
    }

    /// Removes the counterparty from the registry if it is there; the others keep their order.
    pub fn remove_delegation_contract_from_list(&mut self, contract: Address)
        requires
            old(self).wf(),
        ensures
            final(self).wf(),
            !final(self).contains(contract),
            !old(self).contains(contract) ==> final(self).view() == old(self).view(),
            final(self).view() == apply_registry_op(old(self).view(), RegistryOp::Remove(contract)),
            forall|i: int|
                0 <= i < old(self).view().len() && #[trigger] old(self).view()[i].contract
                    == contract ==> final(self).view() == old(self).view().remove(i),
    {
        match self.position(contract) {
            Some(i) => {
                let ghost before = self.nodes@;
                self.nodes.remove(i);
                proof {
                    assert forall|j: int| 0 <= j < before.len() && #[trigger] before[j].contract == contract
                        implies self.nodes@ == before.remove(j) by {
                        assert(j == i);
                    }
                    assert forall|a: int, b: int| 0 <= a < b < self.nodes@.len()
                        implies #[trigger] self.nodes@[a].score >= #[trigger] self.nodes@[b].score by {
                        let a0 = if a < i { a } else { a + 1 };
                        let b0 = if b < i { b } else { b + 1 };
                        assert(before[a0].score >= before[b0].score);
                    }
                    assert forall|a: int, b: int| 0 <= a < self.nodes@.len() && 0 <= b < self.nodes@.len() && a != b
                        implies #[trigger] self.nodes@[a].contract != #[trigger] self.nodes@[b].contract by {
                        let a0 = if a < i { a } else { a + 1 };
                        let b0 = if b < i { b } else { b + 1 };
                        assert(before[a0].contract != before[b0].contract);
                    }
                    assert forall|j: int| 0 <= j < self.nodes@.len()
                        implies #[trigger] self.nodes@[j].contract != contract by {
                        let j0 = if j < i { j } else { j + 1 };
                        assert(before[j0].contract != before[i as int].contract);
                    }
                    assert(seq_contains(before, contract));
                    let c = choose|c: int| 0 <= c < before.len() && #[trigger] before[c].contract == contract;
                    assert(c == i);
                }
            },
            None => {},
        }
    }

    /// Inserts the counterparty with the given score before the first entry whose score is less
    /// than or equal to it (so it ranks first among equals), or at the end.
    /// Rejected once the registry holds its largest number of entries.
    pub fn add_and_order_delegation_contract_in_list(
        &mut self,
        contract: Address,
        delegation_score: u128,
    ) -> (r: Result<(), LiquidStakingError>)
        requires
            old(self).wf(),
            !old(self).contains(contract),
        ensures
            final(self).wf(),
            old(self).view().len() >= MAX_DELEGATION_CONTRACTS_LIST_SIZE <==> r is Err,
            r is Err ==> r == Err::<(), _>(LiquidStakingError::DelegationContractsListFull)
                && final(self).view() == old(self).view(),
            final(self).view() == apply_registry_op(
                old(self).view(),
                RegistryOp::Insert(contract, delegation_score),
            ),
            r is Ok ==> exists|k: int|
                is_insert_position(old(self).view(), k, delegation_score) && final(self).view()
                    == old(self).view().insert(
                    k,
                    RegistryNode { contract, score: delegation_score },
                ),
    {
        if self.nodes.len() >= MAX_DELEGATION_CONTRACTS_LIST_SIZE {
            return Err(LiquidStakingError::DelegationContractsListFull);
        }
        proof {
            assert(!seq_contains(self.nodes@, contract));
        }
        let mut k: usize = 0;
        while k < self.nodes.len() && self.nodes[k].score > delegation_score
            invariant
                k <= self.nodes@.len(),
                forall|i: int| 0 <= i < k ==> #[trigger] self.nodes@[i].score > delegation_score,
            decreases self.nodes@.len() - k,
        {
            k = k + 1;
        }
        let ghost before = self.nodes@;
        let node = RegistryNode { contract, score: delegation_score };
        self.nodes.insert(k, node);
        proof {
            assert(is_insert_position(before, k as int, delegation_score));
            lemma_insert_position(before, k as int, delegation_score);
            assert forall|a: int, b: int| 0 <= a < b < self.nodes@.len()
                implies #[trigger] self.nodes@[a].score >= #[trigger] self.nodes@[b].score by {
                if a < k && b < k {
                    assert(before[a].score >= before[b].score);
                } else if a < k && b == k {
                } else if a < k {
                    assert(before[a].score >= before[b - 1].score);
                } else if a == k {
                    if k < before.len() {
                        assert(before[k as int].score >= before[b - 1].score);
                    }
                } else {
                    assert(before[a - 1].score >= before[b - 1].score);
                }
            }
            assert forall|a: int, b: int| 0 <= a < self.nodes@.len() && 0 <= b < self.nodes@.len() && a != b
                implies #[trigger] self.nodes@[a].contract != #[trigger] self.nodes@[b].contract by {
                if a != k && b != k {
                    let a0 = if a < k { a } else { a - 1 };
                    let b0 = if b < k { b } else { b - 1 };
                    assert(before[a0].contract != before[b0].contract);
                } else if a == k {
                    let b0 = if b < k { b } else { b - 1 };
                    assert(before[b0].contract != contract);
                } else {
                    let a0 = if a < k { a } else { a - 1 };
                    assert(before[a0].contract != contract);
                }
            }
        }
        Ok(())
    }
}

/// An operation on the registry.
#[derive(Clone, Copy, Debug, PartialEq, Eq, Structural)]
pub enum RegistryOp {
    /// Insert the counterparty with this score, unless it is already there or the registry is full.
    Insert(Address, u128),
    /// Remove the counterparty, if it is there.
    Remove(Address),
}

/// Whether the counterparty has an entry in the sequence.
pub open spec fn seq_contains(s: Seq<RegistryNode>, contract: Address) -> bool {
    exists|i: int| 0 <= i < s.len() && #[trigger] s[i].contract == contract
}

/// The first position whose score is not above `score`, or the end.
pub open spec fn insert_position(s: Seq<RegistryNode>, score: u128) -> int {
    choose|k: int| is_insert_position(s, k, score)
}

/// The sequence without the counterparty's entry.
pub open spec fn registry_removed(s: Seq<RegistryNode>, contract: Address) -> Seq<RegistryNode> {
    if seq_contains(s, contract) {
        s.remove(choose|i: int| 0 <= i < s.len() && #[trigger] s[i].contract == contract)
    } else {
        s
    }
}

/// The registry after the operation.
pub open spec fn apply_registry_op(s: Seq<RegistryNode>, op: RegistryOp) -> Seq<RegistryNode> {
    match op {
        RegistryOp::Insert(contract, score) => if seq_contains(s, contract) || s.len()
            >= MAX_DELEGATION_CONTRACTS_LIST_SIZE {
            s
        } else {
            s.insert(insert_position(s, score), RegistryNode { contract, score })
        },
        RegistryOp::Remove(contract) => registry_removed(s, contract),
    }
}

/// The registry after the operations, in order.
pub open spec fn apply_registry_ops(s: Seq<RegistryNode>, ops: Seq<RegistryOp>) -> Seq<RegistryNode>
    decreases ops.len(),
{
    if ops.len() == 0 {
        s
    } else {
        apply_registry_ops(apply_registry_op(s, ops[0]), ops.drop_first())
    }
}

/// Scanning from `j`, past entries that all score above `score`, reaches an insert position.
proof fn lemma_insert_position_from(s: Seq<RegistryNode>, j: int, score: u128)
    requires
        0 <= j <= s.len(),
        forall|i: int| 0 <= i < j ==> #[trigger] s[i].score > score,
    ensures
        exists|k: int| is_insert_position(s, k, score),
    decreases s.len() - j,
{
    if j == s.len() || s[j].score <= score {
        assert(is_insert_position(s, j, score));
    } else {
        lemma_insert_position_from(s, j + 1, score);
    }
}

/// In a sorted sequence the insert position exists and is unique.
pub proof fn lemma_insert_position(s: Seq<RegistryNode>, k: int, score: u128)
    requires
        sorted_by_score(s),
    ensures
        is_insert_position(s, insert_position(s, score), score),
        is_insert_position(s, k, score) ==> k == insert_position(s, score),
{
    lemma_insert_position_from(s, 0, score);
    let c = insert_position(s, score);
    if is_insert_position(s, k, score) {
        if k < c {
            assert(s[k].score > score);
        } else if c < k {
            assert(s[c].score > score);
        }
    }
}

/// Inserting at the insert position keeps a registry sorted and, for a new counterparty, unique.
proof fn lemma_insert_keeps_order(s: Seq<RegistryNode>, contract: Address, score: u128)
    requires
        sorted_by_score(s),
        unique_contracts(s),
        !seq_contains(s, contract),
    ensures
        0 <= insert_position(s, score) <= s.len(),
        sorted_by_score(s.insert(insert_position(s, score), RegistryNode { contract, score })),
        unique_contracts(s.insert(insert_position(s, score), RegistryNode { contract, score })),
{
    lemma_insert_position(s, 0, score);
    let k = insert_position(s, score);
    let t = s.insert(k, RegistryNode { contract, score });
    assert forall|a: int, b: int| 0 <= a < b < t.len() implies #[trigger] t[a].score >= #[trigger] t[b].score by {
        if a < k && b < k {
            assert(s[a].score >= s[b].score);
        } else if a < k && b == k {
        } else if a < k {
            assert(s[a].score >= s[b - 1].score);
        } else if a == k {
            if k < s.len() {
                assert(s[k].score >= s[b - 1].score);
            }
        } else {
            assert(s[a - 1].score >= s[b - 1].score);
        }
    }
    assert forall|a: int, b: int| 0 <= a < t.len() && 0 <= b < t.len() && a != b
        implies #[trigger] t[a].contract != #[trigger] t[b].contract by {
        if a != k && b != k {
            let a0 = if a < k { a } else { a - 1 };
            let b0 = if b < k { b } else { b - 1 };
            assert(s[a0].contract != s[b0].contract);
        } else if a == k {
            let b0 = if b < k { b } else { b - 1 };
            assert(s[b0].contract != contract);
        } else {
            let a0 = if a < k { a } else { a - 1 };
            assert(s[a0].contract != contract);
        }
    }
}

/// Removing an entry keeps a registry sorted and unique.
proof fn lemma_remove_keeps_order(s: Seq<RegistryNode>, contract: Address)
    requires
        sorted_by_score(s),
        unique_contracts(s),
    ensures
        sorted_by_score(registry_removed(s, contract)),
        unique_contracts(registry_removed(s, contract)),
        registry_removed(s, contract).len() <= s.len(),
{
    if seq_contains(s, contract) {
        let i = choose|i: int| 0 <= i < s.len() && #[trigger] s[i].contract == contract;
        let t = s.remove(i);
        assert(t.len() == s.len() - 1);
        assert forall|a: int, b: int| 0 <= a < b < t.len() implies #[trigger] t[a].score >= #[trigger] t[b].score by {
            let a0 = if a < i { a } else { a + 1 };
            let b0 = if b < i { b } else { b + 1 };
            assert(s[a0].score >= s[b0].score);
        }
        assert forall|a: int, b: int| 0 <= a < t.len() && 0 <= b < t.len() && a != b
            implies #[trigger] t[a].contract != #[trigger] t[b].contract by {
            let a0 = if a < i { a } else { a + 1 };
            let b0 = if b < i { b } else { b + 1 };
            assert(s[a0].contract != s[b0].contract);
        }
    }
}

/// Whatever sequence of insertions, removals and reinsertions is applied to a well-formed
/// registry, it lists its entries by non-increasing score (each with the score of its last
/// insertion), without duplicates and within the size bound.
pub proof fn lemma_registry_order(s: Seq<RegistryNode>, ops: Seq<RegistryOp>)
    requires
        sorted_by_score(s),
        unique_contracts(s),
        s.len() <= MAX_DELEGATION_CONTRACTS_LIST_SIZE,
    ensures
        sorted_by_score(apply_registry_ops(s, ops)),
        unique_contracts(apply_registry_ops(s, ops)),
        apply_registry_ops(s, ops).len() <= MAX_DELEGATION_CONTRACTS_LIST_SIZE,
    decreases ops.len(),
{
    if ops.len() > 0 {
        let t = apply_registry_op(s, ops[0]);
        match ops[0] {
            RegistryOp::Insert(contract, score) => {
                if !(seq_contains(s, contract) || s.len() >= MAX_DELEGATION_CONTRACTS_LIST_SIZE) {
                    lemma_insert_keeps_order(s, contract, score);
                }
            },
            RegistryOp::Remove(contract) => {
                lemma_remove_keeps_order(s, contract);
            },
        }
        lemma_registry_order(t, ops.drop_first());
    }
}

} // verus!
