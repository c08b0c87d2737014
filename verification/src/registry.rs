use vstd::prelude::*;

use crate::errors::Error;
use crate::identity::Identity;

verus! {

/// Most operators a registry can hold, the deploying admin included.
pub const MAX_ADMIN_CNT: usize = 10;

/// The bounded, append-only whitelist of operator identities.
///
/// The deploying admin occupies slot 0, set exactly once when the registry
/// is created; later operators are appended in authorization-seniority
/// order. The registry never shrinks. Duplicate operators are permitted by
/// design and each consumes a slot.
pub struct OperatorWhiteList {
    /// The populated operator slots, in insertion order.
    pub operator_array: Vec<Identity>,
    /// The number of populated slots.
    pub operator_cnt: u8,
}

impl OperatorWhiteList {
    /// The populated operator slots, in insertion order.
    pub open spec fn operators(&self) -> Seq<Identity> {
        self.operator_array@
    }

    /// Well-formed: the count matches the populated slots, at least the
    /// admin is present, and capacity is never exceeded.
    pub open spec fn wf(&self) -> bool {
        &&& self.operator_array@.len() == self.operator_cnt as int
        &&& 1 <= self.operator_cnt as int <= MAX_ADMIN_CNT as int
    }

    /// The identity that controls the registry: the deploying admin in
    /// slot 0.
    pub open spec fn admin(&self) -> Identity {
        self.operator_array@[0]
    }

    /// Creates the registry with the deploying admin as its single
    /// operator. Runs once per deployment; the host's storage substrate
    /// rejects a second creation, not this crate.
    pub fn initialize(admin: Identity) -> (r: OperatorWhiteList)
        ensures
            r.wf(),
            r.operator_cnt == 1,
            r.operators() =~= seq![admin],
            r.admin() == admin,
    {
        let mut operator_array: Vec<Identity> = Vec::new();
        operator_array.push(admin);
        OperatorWhiteList { operator_array, operator_cnt: 1 }
    }

    /// Appends a new operator at the first free slot. Only the deploying
    /// admin may extend the registry; a full registry is a defined
    /// failure that leaves it unchanged. No duplicate check is made:
    /// adding the same identity twice succeeds twice and consumes two
    /// slots.
    pub fn add_operator(&mut self, caller: Identity, new_operator: Identity) -> (r: Result<
        (),
        Error,
    >)
        requires
            old(self).wf(),
        ensures
            final(self).wf(),
            final(self).admin() == old(self).admin(),
            caller != old(self).admin() ==> r == Err::<(), Error>(Error::Unauthorized)
                && *final(self) == *old(self),
            caller == old(self).admin() && old(self).operator_cnt as int == MAX_ADMIN_CNT as int
                ==> r == Err::<(), Error>(Error::CapacityExceeded) && *final(self) == *old(self),
            caller == old(self).admin() && (old(self).operator_cnt as int) < MAX_ADMIN_CNT as int
                ==> {
                &&& r == Ok::<(), Error>(())
                &&& final(self).operators() =~= old(self).operators().push(new_operator)
                &&& final(self).operator_cnt == old(self).operator_cnt + 1
            },
    {
        if caller != self.operator_array[0] {
            return Err(Error::Unauthorized);
        }
        if self.operator_cnt as usize >= MAX_ADMIN_CNT {
            return Err(Error::CapacityExceeded);
        }
        self.operator_array.push(new_operator);
        self.operator_cnt = self.operator_cnt + 1;
        Ok(())
    }

    /// Linear scan of the populated slots: true iff the identity appears
    /// among them.
    pub fn is_authorized(&self, identity: Identity) -> (r: bool)
        ensures
            r == self.operators().contains(identity),
    {
        let mut i: usize = 0;
        while i < self.operator_array.len()
            invariant
                i as int <= self.operators().len(),
                forall|j: int| 0 <= j < i as int ==> self.operators()[j] != identity,
            decreases self.operators().len() - i as int,
        {
            if self.operator_array[i] == identity {
                proof {
                    assert(self.operators()[i as int] == identity);
                }
                return true;
            }
            i = i + 1;
        }
        proof {
            assert(!self.operators().contains(identity));
        }
        false
    }
}

/// The operator sequence reached from a starting sequence by a run of
/// successful additions, each appending the next identity, in call order.
pub open spec fn after_adds(start: Seq<Identity>, added: Seq<Identity>) -> Seq<Identity>
    decreases added.len(),
{
    if added.len() == 0 {
        start
    } else {
        after_adds(start.push(added[0]), added.drop_first())
    }
}

/// The operator sequence after initialization by an admin followed by the
/// additions in `added`, each a successful add.
pub open spec fn registry_after(admin: Identity, added: Seq<Identity>) -> Seq<Identity> {
    after_adds(seq![admin], added)
}

/// Helper induction: a run of additions appends exactly the added
/// identities after the starting ones.
proof fn lemma_after_adds(start: Seq<Identity>, added: Seq<Identity>)
    ensures
        after_adds(start, added).len() == start.len() + added.len(),
        forall|k: int|
            0 <= k < start.len() ==> #[trigger] after_adds(start, added)[k] == start[k],
        forall|k: int|
            0 <= k < added.len() ==> #[trigger] after_adds(start, added)[start.len() + k]
                == added[k],
    decreases added.len(),
{
    if added.len() > 0 {
        lemma_after_adds(start.push(added[0]), added.drop_first());
        assert forall|k: int| 0 <= k < added.len() implies #[trigger] after_adds(start, added)[
            start.len() + k
        ] == added[k] by {
            if k == 0 {
                assert(after_adds(start, added)[start.len() as int] == start.push(added[0])[
                    start.len() as int
                ]);
            } else {
                assert(after_adds(start.push(added[0]), added.drop_first())[start.len() + 1 + (k
                    - 1)] == added.drop_first()[k - 1]);
            }
        }
    }
}

/// After initialization and a run of N successful operator additions the
/// registry holds 1 + N operators: the deploying admin still in slot 0,
/// then the added identities in call order. Duplicates among the additions
/// are allowed and each consumes a slot of its own.
pub proof fn lemma_registry_after_adds(admin: Identity, added: Seq<Identity>)
    requires
        added.len() <= MAX_ADMIN_CNT as int - 1,
    ensures
        registry_after(admin, added).len() == 1 + added.len(),
        registry_after(admin, added)[0] == admin,
        forall|k: int|
            0 <= k < added.len() ==> #[trigger] registry_after(admin, added)[1 + k] == added[k],
{
    lemma_after_adds(seq![admin], added);
}

} // verus!
