use vstd::prelude::*;

use crate::engine::{derive_score, spec_derive_score, MIN_PASSION, MIN_STAMINA};
use crate::errors::Error;
use crate::identity::Identity;

verus! {

/// Per-token mutable trait record: the storage bump tag and the two scores.
///
/// Immediately after a mint both scores lie in [20, 29]; each later upgrade
/// adds a delta in [0, 9], wrapping at the 8-bit boundary.
#[derive(Clone, Copy, Debug, PartialEq, Eq, Structural)]
pub struct UpgradableMetadata {
    /// Opaque storage-slot tag under which the host re-locates the record.
    pub bump: u8,
    /// First trait score.
    pub passion: u8,
    /// Second trait score, independent of passion.
    pub stamina: u8,
}

/// One ledger entry: a record together with the (holder, token) pair that
/// keys it. At most one entry exists per pair.
#[derive(Clone, Copy, Debug, PartialEq, Eq, Structural)]
pub struct RecordEntry {
    /// The token holder the record is bound to.
    pub holder: Identity,
    /// The token mint the record is bound to.
    pub token: Identity,
    /// The record itself.
    pub metadata: UpgradableMetadata,
}

/// Ownership facts about the token account backing a mint or an upgrade,
/// as the host's token subsystem reports them.
#[derive(Clone, Copy, Debug, PartialEq, Eq, Structural)]
pub struct TokenProvenance {
    /// The owner recorded on the token account.
    pub account_owner: Identity,
    /// The program that owns the token account.
    pub account_program: Identity,
}

/// The provenance check made before a mint or an upgrade: the token account
/// is owned by the declared token identity, and belongs to the expected
/// token system.
pub open spec fn provenance_ok(
    provenance: TokenProvenance,
    token: Identity,
    token_system: Identity,
) -> bool {
    provenance.account_owner == token && provenance.account_program == token_system
}

/// All trait records minted so far, at most one per (holder, token) pair.
///
/// The host's storage substrate persists each record under an address
/// derived from its pair; this ledger is the logical content of that store.
pub struct Ledger {
    /// The minted records, in mint order.
    pub records: Vec<RecordEntry>,
}

impl Ledger {
    /// The minted entries, in mint order.
    pub open spec fn entries(&self) -> Seq<RecordEntry> {
        self.records@
    }

    /// Well-formed: no two entries share a (holder, token) pair.
    pub open spec fn wf(&self) -> bool {
        forall|i: int, j: int|
            0 <= i < j < self.entries().len() ==> !(#[trigger] self.entries()[i].holder
                == #[trigger] self.entries()[j].holder && self.entries()[i].token
                == self.entries()[j].token)
    }

    /// True iff a record exists for the pair.
    pub open spec fn has_record(&self, holder: Identity, token: Identity) -> bool {
        exists|i: int|
            0 <= i < self.entries().len() && #[trigger] self.entries()[i].holder == holder
                && self.entries()[i].token == token
    }

    /// The index of the pair's record; meaningful only when one exists.
    pub open spec fn index_of(&self, holder: Identity, token: Identity) -> int {
        choose|i: int|
            0 <= i < self.entries().len() && #[trigger] self.entries()[i].holder == holder
                && self.entries()[i].token == token
    }

    /// The pair's record; meaningful only when one exists.
    pub open spec fn record_of(&self, holder: Identity, token: Identity) -> UpgradableMetadata {
        self.entries()[self.index_of(holder, token)].metadata
    }

    /// Creates an empty ledger: no token has been minted yet.
    pub fn new() -> (r: Ledger)
        ensures
            r.wf(),
            r.entries() =~= Seq::<RecordEntry>::empty(),
    {
        Ledger { records: Vec::new() }
    }

    /// The record bound to the pair, if any.
    pub fn get_record(&self, holder: Identity, token: Identity) -> (r: Option<UpgradableMetadata>)
        requires
            self.wf(),
        ensures
            match r {
                Some(m) => self.has_record(holder, token) && m == self.record_of(holder, token),
                None => !self.has_record(holder, token),
            },
    {
        match self.find_record(holder, token) {
            Some(i) => {
                proof {
                    self.lemma_found_index_is_index_of(holder, token, i as int);
                }
                Some(self.records[i].metadata)
            },
            None => None,
        }
    }

    /// Linear scan for the pair's record.
    fn find_record(&self, holder: Identity, token: Identity) -> (r: Option<usize>)
        ensures
            match r {
                Some(i) => (i as int) < self.entries().len() && self.entries()[i as int].holder
                    == holder && self.entries()[i as int].token == token,
                None => !self.has_record(holder, token),
            },
    {
        let mut i: usize = 0;
        while i < self.records.len()
            invariant
                i as int <= self.entries().len(),
                forall|j: int|
                    0 <= j < i as int ==> !(#[trigger] self.entries()[j].holder == holder
                        && self.entries()[j].token == token),
            decreases self.entries().len() - i as int,
        {
            if self.records[i].holder == holder && self.records[i].token == token {
                return Some(i);
            }
            i = i + 1;
        }
        None
    }

    /// Under uniqueness, any index holding the pair is the pair's index.
    proof fn lemma_found_index_is_index_of(&self, holder: Identity, token: Identity, i: int)
        requires
            self.wf(),
            0 <= i < self.entries().len(),
            self.entries()[i].holder == holder,
            self.entries()[i].token == token,
        ensures
            self.has_record(holder, token),
            self.index_of(holder, token) == i,
    {
        assert(self.has_record(holder, token));
        let j = self.index_of(holder, token);
        if i < j {
            assert(!(self.entries()[i].holder == self.entries()[j].holder && self.entries()[
                i
            ].token == self.entries()[j].token));
        } else if j < i {
            assert(!(self.entries()[j].holder == self.entries()[i].holder && self.entries()[
                j
            ].token == self.entries()[i].token));
        }
    }

    /// Mints the trait record for a (holder, token) pair.
    ///
    /// The host has already verified the two required signatures (the
    /// privileged caller's and the holder's); this function makes the
    /// remaining decisions. It checks the token account's provenance,
    /// rejects a pair that already holds a record, and otherwise creates
    /// the record with both scores derived from the feed readings and the
    /// timestamp over the floor of 20. On any failure the ledger is
    /// unchanged.
    pub fn mint_nft(
        &mut self,
        holder: Identity,
        token: Identity,
        bump: u8,
        provenance: TokenProvenance,
        token_system: Identity,
        price_a: Option<u64>,
        price_b: Option<u64>,
        timestamp: i64,
    ) -> (r: Result<(), Error>)
        requires
            old(self).wf(),
        ensures
            final(self).wf(),
            !provenance_ok(provenance, token, token_system) ==> r == Err::<(), Error>(
                Error::ProvenanceMismatch,
            ) && *final(self) == *old(self),
            provenance_ok(provenance, token, token_system) && old(self).has_record(holder, token)
                ==> r == Err::<(), Error>(Error::AlreadyExists) && *final(self) == *old(self),
            provenance_ok(provenance, token, token_system) && !old(self).has_record(holder, token)
                ==> {
                &&& r == Ok::<(), Error>(())
                &&& final(self).entries() =~= old(self).entries().push(
                    RecordEntry {
                        holder,
                        token,
                        metadata: UpgradableMetadata {
                            bump,
                            passion: spec_derive_score(price_a, timestamp, MIN_PASSION),
                            stamina: spec_derive_score(price_b, timestamp, MIN_STAMINA),
                        },
                    },
                )
                &&& final(self).has_record(holder, token)
                &&& final(self).record_of(holder, token) == (UpgradableMetadata {
                    bump,
                    passion: spec_derive_score(price_a, timestamp, MIN_PASSION),
                    stamina: spec_derive_score(price_b, timestamp, MIN_STAMINA),
                })
                &&& 20 <= final(self).record_of(holder, token).passion <= 29
                &&& 20 <= final(self).record_of(holder, token).stamina <= 29
            },
    {
        if !(provenance.account_owner == token && provenance.account_program == token_system) {
            return Err(Error::ProvenanceMismatch);
        }
        match self.find_record(holder, token) {
            Some(_) => Err(Error::AlreadyExists),
            None => {
                let passion = derive_score(price_a, timestamp, MIN_PASSION);
                let stamina = derive_score(price_b, timestamp, MIN_STAMINA);
                let entry = RecordEntry {
                    holder,
                    token,
                    metadata: UpgradableMetadata { bump, passion, stamina },
                };
                self.records.push(entry);
                proof {
                    let n = old(self).entries().len() as int;
                    assert(self.entries()[n].holder == holder);
                    self.lemma_found_index_is_index_of(holder, token, n);
                }
                Ok(())
            },
        }
    }

    /// Upgrades the trait record bound to a (holder, token) pair.
    ///
    /// The host has already verified that the caller's signature is valid
    /// for the identity it claims; this function checks that the claimed
    /// caller is the record's holder, that the record exists, and the token
    /// account's provenance, and then raises each score by a delta in
    /// [0, 9] derived from the feed readings and the timestamp, wrapping at
    /// the 8-bit boundary. Everything else about the ledger stays as it
    /// was; on any failure the ledger is unchanged.
    pub fn upgrade_nft(
        &mut self,
        caller: Identity,
        holder: Identity,
        token: Identity,
        provenance: TokenProvenance,
        token_system: Identity,
        price_a: Option<u64>,
        price_b: Option<u64>,
        timestamp: i64,
    ) -> (r: Result<(), Error>)
        requires
            old(self).wf(),
        ensures
            final(self).wf(),
            caller != holder ==> r == Err::<(), Error>(Error::Unauthorized) && *final(self)
                == *old(self),
            caller == holder && !old(self).has_record(holder, token) ==> r == Err::<(), Error>(
                Error::NotFound,
            ) && *final(self) == *old(self),
            caller == holder && old(self).has_record(holder, token) && !provenance_ok(
                provenance,
                token,
                token_system,
            ) ==> r == Err::<(), Error>(Error::ProvenanceMismatch) && *final(self) == *old(self),
            caller == holder && old(self).has_record(holder, token) && provenance_ok(
                provenance,
                token,
                token_system,
            ) ==> {
                &&& r == Ok::<(), Error>(())
                &&& final(self).entries() =~= old(self).entries().update(
                    old(self).index_of(holder, token),
                    RecordEntry {
                        holder,
                        token,
                        metadata: UpgradableMetadata {
                            bump: old(self).record_of(holder, token).bump,
                            passion: spec_derive_score(
                                price_a,
                                timestamp,
                                old(self).record_of(holder, token).passion,
                            ),
                            stamina: spec_derive_score(
                                price_b,
                                timestamp,
                                old(self).record_of(holder, token).stamina,
                            ),
                        },
                    },
                )
                &&& final(self).has_record(holder, token)
                &&& final(self).record_of(holder, token) == (UpgradableMetadata {
                    bump: old(self).record_of(holder, token).bump,
                    passion: spec_derive_score(
                        price_a,
                        timestamp,
                        old(self).record_of(holder, token).passion,
                    ),
                    stamina: spec_derive_score(
                        price_b,
                        timestamp,
                        old(self).record_of(holder, token).stamina,
                    ),
                })
            },
    {
        if caller != holder {
            return Err(Error::Unauthorized);
        }
        match self.find_record(holder, token) {
            None => Err(Error::NotFound),
            Some(i) => {
                proof {
                    self.lemma_found_index_is_index_of(holder, token, i as int);
                }
                if !(provenance.account_owner == token && provenance.account_program
                    == token_system) {
                    return Err(Error::ProvenanceMismatch);
                }
                let current = self.records[i];
                let upgraded = RecordEntry {
                    holder,
                    token,
                    metadata: UpgradableMetadata {
                        bump: current.metadata.bump,
                        passion: derive_score(price_a, timestamp, current.metadata.passion),
                        stamina: derive_score(price_b, timestamp, current.metadata.stamina),
                    },
                };
                self.records[i] = upgraded;
                proof {
                    assert forall|i2: int, j2: int|
                        0 <= i2 < j2 < self.entries().len() implies !(#[trigger] self.entries()[
                        i2
                    ].holder == #[trigger] self.entries()[j2].holder && self.entries()[i2].token
                        == self.entries()[j2].token) by {
                        assert(old(self).entries()[i2].holder == self.entries()[i2].holder
                            && old(self).entries()[i2].token == self.entries()[i2].token);
                        assert(old(self).entries()[j2].holder == self.entries()[j2].holder
                            && old(self).entries()[j2].token == self.entries()[j2].token);
                    }
                    self.lemma_found_index_is_index_of(holder, token, i as int);
                }
                Ok(())
            },
        }
    }
}

} // verus!
