//! The allowlist: hardware addresses that are exempt from proxying.

use vstd::prelude::*;
use std::collections::HashSet;
use vstd::std_specs::hash::spec_hash_keys_iter;
use vstd::std_specs::iter::IteratorSpec;
use crate::address::{
    lemma_key_round_trip, lemma_of_key_round_trip, mac_addr_from_str, MacAddress,
};
use crate::repositories::RepositoryError;

verus! {

broadcast use vstd::std_specs::hash::group_hash_axioms;

/// The allowlist as a mathematical value.
pub type AllowedMacs = Set<MacAddress>;

/// A set of allowed hardware addresses. The set is a value of type
/// [`AllowedMacs`]; each operation either does what its name says to that
/// value or fails and leaves it as it was.
pub trait AllowedMacRepository {
    /// What the set's representation has to satisfy. Constructors establish
    /// it and every operation keeps it.
    spec fn well_formed(&self) -> bool;

    /// Whether every operation on this set succeeds, as it does on one that
    /// lives in memory.
    spec fn infallible(&self) -> bool;

    /// The addresses that are allowed at present.
    spec fn macs(&self) -> AllowedMacs;

    /// Whether `address` is allowed.
    fn contains(&self, address: &MacAddress) -> (r: Result<bool, RepositoryError>)
        requires
            self.well_formed(),
        ensures
            self.infallible() ==> r is Ok,
            r matches Ok(found) ==> found == self.macs().contains(*address),
    ;

    /// Every allowed address once, in no particular order.
    fn getall(&self) -> (r: Result<Vec<MacAddress>, RepositoryError>)
        requires
            self.well_formed(),
        ensures
            self.infallible() ==> r is Ok,
            r matches Ok(list) ==> list@.no_duplicates() && list@.to_set() == self.macs(),
    ;

    /// Allows `address` and hands it back.
    fn add(&mut self, address: MacAddress) -> (r: Result<MacAddress, RepositoryError>)
        requires
            old(self).well_formed(),
        ensures
            final(self).well_formed(),
            final(self).infallible() == old(self).infallible(),
            old(self).infallible() ==> r is Ok,
            r matches Ok(added) ==> added == address && final(self).macs() == old(
                self,
            ).macs().insert(address),
            r is Err ==> final(self).macs() == old(self).macs(),
    ;

    /// Stops allowing `address`; nothing changes if it was not allowed.
    fn remove(&mut self, address: &MacAddress) -> (r: Result<(), RepositoryError>)
        requires
            old(self).well_formed(),
        ensures
            final(self).well_formed(),
            final(self).infallible() == old(self).infallible(),
            old(self).infallible() ==> r is Ok,
            r is Ok ==> final(self).macs() == old(self).macs().remove(*address),
            r is Err ==> final(self).macs() == old(self).macs(),
    ;

    /// Stops allowing every address.
    fn clear(&mut self) -> (r: Result<(), RepositoryError>)
        requires
            old(self).well_formed(),
        ensures
            final(self).well_formed(),
            final(self).infallible() == old(self).infallible(),
            old(self).infallible() ==> r is Ok,
            r is Ok ==> final(self).macs() == Set::<MacAddress>::empty(),
            r is Err ==> final(self).macs() == old(self).macs(),
    ;
}

/// The allowlist kept in memory: a hash set of the addresses read as
/// numbers.
#[derive(Debug)]
pub struct AllowedMacRepositoryForMemory {
    store: HashSet<u64>,
}

/// The addresses that a set of keys stands for.
spec fn macs_of(keys: Set<u64>) -> Set<MacAddress> {
    Set::new(|m: MacAddress| keys.contains(m.key() as u64))
}

impl AllowedMacRepositoryForMemory {
    /// An allowlist that allows nothing.
    pub fn new() -> (r: Self)
        ensures
            r.well_formed(),
            r.macs() == Set::<MacAddress>::empty(),
    {
        let r = AllowedMacRepositoryForMemory { store: HashSet::new() };
        assert(r.macs() =~= Set::<MacAddress>::empty());
        r
    }
}

impl AllowedMacRepository for AllowedMacRepositoryForMemory {
    /// Every number in the set is the key of an address.
    closed spec fn well_formed(&self) -> bool {
        forall|k: u64| #[trigger] self.store@.contains(k) ==> k < 0x1_0000_0000_0000
    }

    open spec fn infallible(&self) -> bool {
        true
    }

    closed spec fn macs(&self) -> AllowedMacs {
        macs_of(self.store@)
    }

    fn contains(&self, address: &MacAddress) -> (r: Result<bool, RepositoryError>) {
        let k: u64 = address.to_key();
        Ok(self.store.contains(&k))
    }

    fn getall(&self) -> (r: Result<Vec<MacAddress>, RepositoryError>) {
        let mut list: Vec<MacAddress> = Vec::new();
        let ghost all = spec_hash_keys_iter(&self.store).remaining();
        for key in it: self.store.iter()
            invariant
                it.seq() == all,
                all == spec_hash_keys_iter(&self.store).remaining(),
                forall|k: u64| #[trigger] self.store@.contains(k) ==> k < 0x1_0000_0000_0000,
                list@.len() == it.index(),
                forall|i: int|
                    0 <= i < list@.len() ==> list@[i] == MacAddress::of_key(
                        *(#[trigger] all[i]) as int,
                    ),
        {
            proof {
                assert(all.unref().to_set().contains(all.unref()[it.index()]));
            }
            list.push(MacAddress::from_key(*key));
        }
        proof {
            let keys = all.unref();
            assert forall|i: int| 0 <= i < keys.len() implies self.store@.contains(
                #[trigger] keys[i],
            ) by {
                assert(keys.to_set().contains(keys[i]));
            }
            assert forall|i: int, j: int|
                0 <= i < list@.len() && 0 <= j < list@.len() && i != j implies list@[i]
                != list@[j] by {
                assert(all[i] != all[j]);
                lemma_of_key_round_trip(keys[i] as int);
                lemma_of_key_round_trip(keys[j] as int);
            }
            assert forall|m: MacAddress| list@.to_set().contains(m) <==> self.macs().contains(
                m,
            ) by {
                lemma_key_round_trip(m);
                if list@.to_set().contains(m) {
                    let i = list@.index_of(m);
                    lemma_of_key_round_trip(keys[i] as int);
                }
                if self.macs().contains(m) {
                    let k = m.key() as u64;
                    assert(keys.to_set().contains(k));
                    let i = keys.index_of(k);
                    assert(list@[i] == m);
                }
            }
            assert(list@.to_set() =~= self.macs());
        }
        Ok(list)
    }

    fn add(&mut self, address: MacAddress) -> (r: Result<MacAddress, RepositoryError>) {
        let k: u64 = address.to_key();
        self.store.insert(k);
        proof {
            assert forall|m: MacAddress| m != address implies m.key() as u64 != k by {
                lemma_key_round_trip(m);
            }
            assert(self.macs() =~= old(self).macs().insert(address));
        }
        Ok(address)
    }

    fn remove(&mut self, address: &MacAddress) -> (r: Result<(), RepositoryError>) {
        let k: u64 = address.to_key();
        self.store.remove(&k);
        proof {
            assert forall|m: MacAddress| m != *address implies m.key() as u64 != k by {
                lemma_key_round_trip(m);
            }
            assert(self.macs() =~= old(self).macs().remove(*address));
        }
        Ok(())
    }

    fn clear(&mut self) -> (r: Result<(), RepositoryError>) {
        self.store.clear();
        assert(self.macs() =~= Set::<MacAddress>::empty());
        Ok(())
    }
}

/// What reading a list of texts comes to, given what each text was read as:
/// the addresses in order if every text was read, and else the place of the
/// first text that was not.
pub open spec fn all_read(r: Result<Vec<MacAddress>, usize>, parsed: Seq<Option<MacAddress>>) -> bool {
    match r {
        Ok(macs) => {
            &&& macs@.len() == parsed.len()
            &&& forall|i: int| 0 <= i < parsed.len() ==> #[trigger] parsed[i] == Some(macs@[i])
        },
        Err(at) => {
            &&& at < parsed.len()
            &&& parsed[at as int] is None
            &&& forall|i: int| 0 <= i < at ==> (#[trigger] parsed[i]) is Some
        },
    }
}

/// The addresses of an allowlist that was read as texts, or the place of
/// the first text that is no address.
pub fn load_allowed_macs(macs_str: &Vec<String>) -> (r: Result<Vec<MacAddress>, usize>)
    ensures
        all_read(r, Seq::new(macs_str@.len(), |i: int| mac_addr_from_str(macs_str@[i]@))),
{
    let mut parsed: Vec<Option<MacAddress>> = Vec::new();
    let n: usize = macs_str.len();
    let mut i: usize = 0;
    while i < n
        invariant
            i <= n,
            n == macs_str@.len(),
            parsed@.len() == i,
            forall|j: int| 0 <= j < i ==> #[trigger] parsed@[j] == mac_addr_from_str(macs_str@[j]@),
        decreases n - i,
    {
        parsed.push(MacAddress::from_text(macs_str[i].as_str()));
        i = i + 1;
    }
    assert(parsed@ =~= Seq::new(macs_str@.len(), |i: int| mac_addr_from_str(macs_str@[i]@)));
    collect_parsed(&parsed)
}

/// The addresses that were read, in order, or the place of the first text
/// that was not read as an address.
pub fn collect_parsed(parsed: &Vec<Option<MacAddress>>) -> (r: Result<Vec<MacAddress>, usize>)
    ensures
        all_read(r, parsed@),
{
    let mut macs: Vec<MacAddress> = Vec::new();
    let n: usize = parsed.len();
    let mut i: usize = 0;
    while i < n
        invariant
            i <= n,
            n == parsed@.len(),
            macs@.len() == i,
            forall|j: int| 0 <= j < i ==> #[trigger] parsed@[j] == Some(macs@[j]),
        decreases n - i,
    {
        match parsed[i] {
            Some(mac) => {
                macs.push(mac);
            },
            None => {
                return Err(i);
            },
        }
        i = i + 1;
    }
    Ok(macs)
}

/// Allows every address of `macs`. If the allowlist fails on the way, the
/// addresses before the failure stay allowed.
pub fn add_all<M: AllowedMacRepository>(allowedmac_repo: &mut M, macs: &Vec<MacAddress>) -> (r:
    Result<(), RepositoryError>)
    requires
        old(allowedmac_repo).well_formed(),
    ensures
        final(allowedmac_repo).well_formed(),
        final(allowedmac_repo).infallible() == old(allowedmac_repo).infallible(),
        old(allowedmac_repo).infallible() ==> r is Ok,
        r is Ok ==> final(allowedmac_repo).macs() == old(allowedmac_repo).macs().union(
            macs@.to_set(),
        ),
        old(allowedmac_repo).macs().subset_of(final(allowedmac_repo).macs()),
        final(allowedmac_repo).macs().subset_of(
            old(allowedmac_repo).macs().union(macs@.to_set()),
        ),
{
    let n: usize = macs.len();
    let mut i: usize = 0;
    while i < n
        invariant
            i <= n,
            n == macs@.len(),
            allowedmac_repo.well_formed(),
            allowedmac_repo.infallible() == old(allowedmac_repo).infallible(),
            allowedmac_repo.macs() == old(allowedmac_repo).macs().union(
                macs@.subrange(0, i as int).to_set(),
            ),
        decreases n - i,
    {
        let ghost before = allowedmac_repo.macs();
        match allowedmac_repo.add(macs[i]) {
            Ok(_) => {},
            Err(e) => {
                proof {
                    assert forall|m: MacAddress|
                        macs@.subrange(0, i as int).to_set().contains(m) implies macs@.to_set().contains(
                        m,
                    ) by {
                        let j = macs@.subrange(0, i as int).index_of(m);
                        assert(macs@[j] == m);
                    }
                }
                return Err(e);
            },
        }
        proof {
            let done = macs@.subrange(0, i as int);
            let more = macs@.subrange(0, i as int + 1);
            assert(more =~= done.push(macs@[i as int]));
            assert forall|m: MacAddress| more.to_set().contains(m) <==> done.to_set().contains(m)
                || m == macs@[i as int] by {
                if done.to_set().contains(m) {
                    let j = done.index_of(m);
                    assert(more[j] == m);
                }
                if m == macs@[i as int] {
                    assert(more[i as int] == m);
                }
            }
            assert(allowedmac_repo.macs() =~= old(allowedmac_repo).macs().union(more.to_set()));
        }
        i = i + 1;
    }
    proof {
        assert(macs@.subrange(0, n as int) =~= macs@);
    }
    Ok(())
}

} // verus!
