//! The spoof-target cache: per sender, the targets it asked for and when.

use vstd::prelude::*;
use std::collections::HashMap;
use vstd::std_specs::hash::{spec_hash_map_iter, spec_keys_iter};
use vstd::std_specs::iter::IteratorSpec;
use crate::address::{lemma_ip_key_round_trip, lemma_ip_of_key_round_trip, lemma_key_round_trip};
use crate::address::{Ipv4Address, MacAddress};
use crate::repositories::RepositoryError;

verus! {

broadcast use vstd::std_specs::hash::group_hash_axioms;

/// One ARP query that is being answered: who asked, for whom, and when it
/// was last seen. Times are counted in nanoseconds.
#[derive(Clone, Copy, Debug, PartialEq, Eq, Structural)]
pub struct ArpLog {
    pub sender_mac: MacAddress,
    pub sender_ip: Ipv4Address,
    pub target_ip: Ipv4Address,
    pub last_seen: u64,
}

impl ArpLog {
    pub fn new(
        sender_mac: MacAddress,
        sender_ip: Ipv4Address,
        target_ip: Ipv4Address,
        last_seen: u64,
    ) -> (r: ArpLog)
        ensures
            r == (ArpLog { sender_mac, sender_ip, target_ip, last_seen }),
    {
        ArpLog { sender_mac, sender_ip, target_ip, last_seen }
    }
}

/// What the cache holds for one sender: the protocol address it first
/// claimed, each target with the time it was last asked for, and the time of
/// the sender's latest query.
#[verifier::ext_equal]
pub struct SenderRecord {
    pub sender_ip: Ipv4Address,
    pub targets: Map<Ipv4Address, u64>,
    pub last_seen: u64,
}

/// The cache as a mathematical value: one record per sender.
pub type Records = Map<MacAddress, SenderRecord>;

/// Whether something last seen at `last_seen` is still alive at `now`:
/// it expires once `now - last_seen` exceeds `ttl`.
pub open spec fn within_ttl(last_seen: u64, ttl: u64, now: u64) -> bool {
    now - last_seen <= ttl
}

/// The cache after one query was recorded. A new sender gets a record with
/// the protocol address of this query; a known sender keeps the address it
/// had. Either way the target and the sender are stamped with the query's
/// time.
pub open spec fn put_record(records: Records, log: ArpLog) -> Records {
    if records.contains_key(log.sender_mac) {
        let rec = records[log.sender_mac];
        records.insert(
            log.sender_mac,
            SenderRecord {
                sender_ip: rec.sender_ip,
                targets: rec.targets.insert(log.target_ip, log.last_seen),
                last_seen: log.last_seen,
            },
        )
    } else {
        records.insert(
            log.sender_mac,
            SenderRecord {
                sender_ip: log.sender_ip,
                targets: Map::empty().insert(log.target_ip, log.last_seen),
                last_seen: log.last_seen,
            },
        )
    }
}

/// The targets of one sender that are still alive.
pub open spec fn live_targets(targets: Map<Ipv4Address, u64>, ttl: u64, now: u64) -> Map<
    Ipv4Address,
    u64,
> {
    Map::new(
        |t: Ipv4Address| targets.contains_key(t) && within_ttl(targets[t], ttl, now),
        |t: Ipv4Address| targets[t],
    )
}

/// Whether a sender's record survives an eviction: the sender itself was
/// seen within `ttl`, and so was at least one of its targets.
pub open spec fn record_survives(rec: SenderRecord, ttl: u64, now: u64) -> bool {
    &&& within_ttl(rec.last_seen, ttl, now)
    &&& exists|t: Ipv4Address| #[trigger]
        rec.targets.contains_key(t) && within_ttl(rec.targets[t], ttl, now)
}

/// The cache after everything older than `ttl` was dropped.
pub open spec fn evict_expired(records: Records, ttl: u64, now: u64) -> Records {
    Map::new(
        |m: MacAddress| records.contains_key(m) && record_survives(records[m], ttl, now),
        |m: MacAddress|
            SenderRecord {
                sender_ip: records[m].sender_ip,
                targets: live_targets(records[m].targets, ttl, now),
                last_seen: records[m].last_seen,
            },
    )
}

/// Whether the cache holds `log`: its sender has a record with this
/// protocol address, and the record holds the target with this time.
pub open spec fn holds(records: Records, log: ArpLog) -> bool {
    &&& records.contains_key(log.sender_mac)
    &&& records[log.sender_mac].sender_ip == log.sender_ip
    &&& records[log.sender_mac].targets.contains_key(log.target_ip)
    &&& records[log.sender_mac].targets[log.target_ip] == log.last_seen
}

/// The cache flattened: one entry per sender and target.
pub open spec fn entries(records: Records) -> Set<ArpLog> {
    Set::new(|log: ArpLog| holds(records, log))
}

/// The entries that one sender's record stands for.
pub open spec fn record_entries(sender_mac: MacAddress, rec: SenderRecord) -> Set<ArpLog> {
    Set::new(
        |log: ArpLog|
            {
                &&& log.sender_mac == sender_mac
                &&& log.sender_ip == rec.sender_ip
                &&& rec.targets.contains_key(log.target_ip)
                &&& rec.targets[log.target_ip] == log.last_seen
            },
    )
}

/// What a listing hands out: every entry of the cache once, in no
/// particular order.
pub open spec fn lists(logs: Seq<ArpLog>, records: Records) -> bool {
    &&& logs.no_duplicates()
    &&& logs.to_set() == entries(records)
}

/// The entry under which the cache `records` lists the target of `log`: the
/// sender keeps the protocol address that the cache has for it.
pub open spec fn listed_as(records: Records, log: ArpLog) -> ArpLog {
    ArpLog {
        sender_mac: log.sender_mac,
        sender_ip: records[log.sender_mac].sender_ip,
        target_ip: log.target_ip,
        last_seen: log.last_seen,
    }
}

/// A query recorded at time `T` is listed by an evicting read at every time
/// up to `T + ttl`, and at no later time: then the cache holds nothing for
/// its sender and target.
pub proof fn lemma_ttl_monotonicity(records: Records, log: ArpLog, ttl: u64, now: u64)
    ensures
        ({
            let recorded = put_record(records, log);
            let left = evict_expired(recorded, ttl, now);
            &&& holds(recorded, listed_as(recorded, log))
            &&& now <= log.last_seen + ttl ==> holds(left, listed_as(recorded, log))
            &&& now > log.last_seen + ttl ==> forall|other: ArpLog|
                other.sender_mac == log.sender_mac && other.target_ip == log.target_ip
                    ==> !#[trigger] holds(left, other)
        }),
{
    let recorded = put_record(records, log);
    assert(recorded[log.sender_mac].targets.contains_key(log.target_ip));
}

/// An evicting read at an earlier time takes nothing from a later one: what
/// is alive at the later time was alive at the earlier time too.
pub proof fn lemma_eviction_in_order(records: Records, ttl: u64, earlier: u64, later: u64)
    requires
        earlier <= later,
    ensures
        evict_expired(evict_expired(records, ttl, earlier), ttl, later) == evict_expired(
            records,
            ttl,
            later,
        ),
{
    let once = evict_expired(records, ttl, earlier);
    let twice = evict_expired(once, ttl, later);
    let direct = evict_expired(records, ttl, later);
    assert forall|m: MacAddress| twice.contains_key(m) <==> direct.contains_key(m) by {
        if direct.contains_key(m) {
            let t = choose|t: Ipv4Address| #[trigger]
                records[m].targets.contains_key(t) && within_ttl(records[m].targets[t], ttl, later);
            assert(records[m].targets.contains_key(t) && within_ttl(
                records[m].targets[t],
                ttl,
                earlier,
            ));
            assert(once.contains_key(m));
            assert(once[m].targets.contains_key(t));
        }
        if twice.contains_key(m) {
            let t = choose|t: Ipv4Address| #[trigger]
                once[m].targets.contains_key(t) && within_ttl(once[m].targets[t], ttl, later);
            assert(records[m].targets.contains_key(t));
        }
    }
    assert forall|m: MacAddress| twice.contains_key(m) implies twice[m] =~~= direct[m] by {}
    assert(twice =~~= direct);
}

/// Recording the same query again only moves its time forward: the cache is
/// as if the later query alone had been recorded, with one entry for the
/// sender and target.
pub proof fn lemma_put_is_idempotent(records: Records, log: ArpLog, later: u64)
    ensures
        ({
            let again = ArpLog { last_seen: later, ..log };
            put_record(put_record(records, log), again) == put_record(records, again)
        }),
{
    let again = ArpLog { last_seen: later, ..log };
    let twice = put_record(put_record(records, log), again);
    let once = put_record(records, again);
    assert forall|m: MacAddress| twice.contains_key(m) implies twice[m] =~~= once[m] by {}
    assert(twice =~~= once);
}

/// The cache holds at most one entry for a sender and a target.
pub proof fn lemma_one_entry_per_target(records: Records, a: ArpLog, b: ArpLog)
    requires
        holds(records, a),
        holds(records, b),
        a.sender_mac == b.sender_mac,
        a.target_ip == b.target_ip,
    ensures
        a == b,
{
}

/// After an eviction every record that is left has a target that is left:
/// a sender whose targets are all gone is gone itself.
pub proof fn lemma_no_record_without_target(records: Records, ttl: u64, now: u64, m: MacAddress)
    requires
        evict_expired(records, ttl, now).contains_key(m),
    ensures
        exists|t: Ipv4Address| #[trigger]
            evict_expired(records, ttl, now)[m].targets.contains_key(t),
{
    let t = choose|t: Ipv4Address| #[trigger]
        records[m].targets.contains_key(t) && within_ttl(records[m].targets[t], ttl, now);
    assert(evict_expired(records, ttl, now)[m].targets.contains_key(t));
}

/// A spoof-target cache. The cache is a value of type [`Records`]; each
/// operation either does what its name says to that value or fails and
/// leaves it as it was.
pub trait ArpLogRepository {
    /// What the cache's representation has to satisfy. Constructors
    /// establish it and every operation keeps it.
    spec fn well_formed(&self) -> bool;

    /// Whether every operation on this cache succeeds, as it does on one
    /// that lives in memory.
    spec fn infallible(&self) -> bool;

    /// The cache's present content.
    spec fn records(&self) -> Records;

    /// Records a query, or refreshes it if it is already there.
    fn put(&mut self, arplog: ArpLog) -> (r: Result<(), RepositoryError>)
        requires
            old(self).well_formed(),
        ensures
            final(self).well_formed(),
            final(self).infallible() == old(self).infallible(),
            old(self).infallible() ==> r is Ok,
            r is Ok ==> final(self).records() == put_record(old(self).records(), arplog),
            r is Err ==> final(self).records() == old(self).records(),
    ;

    /// Drops what is older than `duration` at time `now` and lists the rest.
    fn getall_autoclear(&mut self, duration: u64, now: u64) -> (r: Result<
        Vec<ArpLog>,
        RepositoryError,
    >)
        requires
            old(self).well_formed(),
        ensures
            final(self).well_formed(),
            final(self).infallible() == old(self).infallible(),
            old(self).infallible() ==> r is Ok,
            r is Ok ==> final(self).records() == evict_expired(old(self).records(), duration, now),
            r matches Ok(logs) ==> lists(logs@, final(self).records()),
            r is Err ==> final(self).records() == old(self).records(),
    ;

    /// Lists everything, expired or not, and changes nothing.
    fn getall_without_autoclear(&self) -> (r: Result<Vec<ArpLog>, RepositoryError>)
        requires
            self.well_formed(),
        ensures
            self.infallible() ==> r is Ok,
            r matches Ok(logs) ==> lists(logs@, self.records()),
    ;

    /// Drops everything.
    fn clear(&mut self) -> (r: Result<(), RepositoryError>)
        requires
            old(self).well_formed(),
        ensures
            final(self).well_formed(),
            final(self).infallible() == old(self).infallible(),
            old(self).infallible() ==> r is Ok,
            r is Ok ==> final(self).records() == Map::<MacAddress, SenderRecord>::empty(),
            r is Err ==> final(self).records() == old(self).records(),
    ;
}

/// One sender's record as the in-memory cache keeps it. The targets are
/// filed under their addresses read as numbers.
#[derive(Debug)]
struct ArpLogForMemory {
    sender_mac: MacAddress,
    sender_ip: Ipv4Address,
    target_ips: HashMap<u32, u64>,
    last_seen: u64,
}

impl ArpLogForMemory {
    spec fn targets(&self) -> Map<Ipv4Address, u64> {
        Map::new(
            |t: Ipv4Address| self.target_ips@.contains_key(t.key() as u32),
            |t: Ipv4Address| self.target_ips@[t.key() as u32],
        )
    }

    spec fn record(&self) -> SenderRecord {
        SenderRecord {
            sender_ip: self.sender_ip,
            targets: self.targets(),
            last_seen: self.last_seen,
        }
    }

    /// The entry for the target filed under `tk`, last seen at `time`.
    spec fn log_of(&self, tk: u32, time: u64) -> ArpLog {
        ArpLog {
            sender_mac: self.sender_mac,
            sender_ip: self.sender_ip,
            target_ip: Ipv4Address::of_key(tk as int),
            last_seen: time,
        }
    }

    /// Drops the targets older than `duration` at time `now` and lists the
    /// rest.
    fn to_arplogs_autoclear(&mut self, duration: u64, now: u64) -> (result: Vec<ArpLog>)
        ensures
            final(self).sender_mac == old(self).sender_mac,
            final(self).sender_ip == old(self).sender_ip,
            final(self).last_seen == old(self).last_seen,
            final(self).targets() == live_targets(old(self).targets(), duration, now),
            result@.no_duplicates(),
            result@.to_set() == record_entries(final(self).sender_mac, final(self).record()),
    {
        let mut result: Vec<ArpLog> = Vec::new();
        let mut removing: Vec<u32> = Vec::new();
        let ghost all = spec_hash_map_iter(&self.target_ips).remaining();
        let ghost src: Seq<int> = Seq::empty();
        let ghost gone: Seq<int> = Seq::empty();
        for pair in it: self.target_ips.iter()
            invariant
                it.seq() == all,
                all == spec_hash_map_iter(&self.target_ips).remaining(),
                all.no_duplicates(),
                src.len() == result@.len(),
                gone.len() == removing@.len(),
                forall|j: int|
                    0 <= j < src.len() ==> 0 <= #[trigger] src[j] < it.index() && within_ttl(
                        *all[src[j]].1,
                        duration,
                        now,
                    ) && result@[j] == self.log_of(*all[src[j]].0, *all[src[j]].1),
                forall|j: int, l: int| 0 <= j < l < src.len() ==> src[j] < src[l],
                forall|j: int|
                    0 <= j < gone.len() ==> 0 <= #[trigger] gone[j] < it.index() && !within_ttl(
                        *all[gone[j]].1,
                        duration,
                        now,
                    ) && removing@[j] == *all[gone[j]].0,
                forall|i: int|
                    0 <= i < it.index() ==> if within_ttl(*(#[trigger] all[i]).1, duration, now) {
                        src.contains(i)
                    } else {
                        gone.contains(i)
                    },
        {
            let (tip, time) = pair;
            let ghost i = it.index();
            if is_within_ttl(*time, duration, now) {
                result.push(
                    ArpLog {
                        sender_mac: self.sender_mac,
                        sender_ip: self.sender_ip,
                        target_ip: Ipv4Address::from_key(*tip),
                        last_seen: *time,
                    },
                );
                proof {
                    let before = src;
                    src = src.push(i);
                    assert forall|i2: int| 0 <= i2 < i && before.contains(i2) implies src.contains(
                        i2,
                    ) by {
                        let j = before.index_of(i2);
                        assert(src[j] == i2);
                    }
                    assert(src[src.len() - 1] == i);
                }
            } else {
                removing.push(*tip);
                proof {
                    let before = gone;
                    gone = gone.push(i);
                    assert forall|i2: int|
                        0 <= i2 < i && before.contains(i2) implies gone.contains(i2) by {
                        let j = before.index_of(i2);
                        assert(gone[j] == i2);
                    }
                    assert(gone[gone.len() - 1] == i);
                }
            }
        }
        let ghost m0 = self.target_ips@;
        proof {
            lemma_pairs_have_distinct_keys(m0, all);
            assert(forall|i: int|
                0 <= i < all.len() ==> m0.contains_key(*(#[trigger] all[i]).0) && m0[*all[i].0]
                    == *all[i].1);
            assert(forall|k: u32| #[trigger] m0.contains_key(k) ==> all.contains((&k, &m0[k])));
        }
        let n: usize = removing.len();
        let mut j: usize = 0;
        let ghost dropped: Set<u32> = Set::empty();
        while j < n
            invariant
                j <= n,
                n == removing@.len(),
                self.sender_mac == old(self).sender_mac,
                self.sender_ip == old(self).sender_ip,
                self.last_seen == old(self).last_seen,
                self.target_ips@ == m0.remove_keys(dropped),
                forall|x: int| 0 <= x < j ==> dropped.contains(#[trigger] removing@[x]),
                forall|k: u32| #[trigger] dropped.contains(k) ==> removing@.contains(k),
            decreases n - j,
        {
            let tip: u32 = removing[j];
            self.target_ips.remove(&tip);
            proof {
                dropped = dropped.insert(tip);
                assert(self.target_ips@ =~= m0.remove_keys(dropped));
            }
            j = j + 1;
        }
        proof {
            let m1 = self.target_ips@;
            assert forall|k: u32| dropped.contains(k) <==> removing@.contains(k) by {
                if removing@.contains(k) {
                    let x = removing@.index_of(k);
                    assert(dropped.contains(removing@[x]));
                }
            }
            // A key was removed exactly when its time had run out.
            assert forall|k: u32| m0.contains_key(k) implies (removing@.contains(k) <==> !within_ttl(
                m0[k],
                duration,
                now,
            )) by {
                let i = all.index_of((&k, &m0[k]));
                if within_ttl(m0[k], duration, now) {
                    if removing@.contains(k) {
                        let x = removing@.index_of(k);
                        assert(*all[gone[x]].0 == k);
                        assert(gone[x] == i);
                    }
                } else {
                    assert(gone.contains(i));
                    let x = gone.index_of(i);
                    assert(removing@[x] == k);
                }
            }
            assert forall|t: Ipv4Address|
                self.targets().contains_key(t) <==> live_targets(
                    old(self).targets(),
                    duration,
                    now,
                ).contains_key(t) by {
                lemma_ip_key_round_trip(t);
            }
            assert(self.targets() =~= live_targets(old(self).targets(), duration, now));
            // The listing.
            assert forall|a: int, b: int|
                0 <= a < result@.len() && 0 <= b < result@.len() && a != b implies result@[a]
                != result@[b] by {
                assert(src[a] != src[b]) by {
                    if a < b {
                        assert(src[a] < src[b]);
                    } else {
                        assert(src[b] < src[a]);
                    }
                }
                lemma_ip_of_key_round_trip(*all[src[a]].0 as int);
                lemma_ip_of_key_round_trip(*all[src[b]].0 as int);
            }
            let want = record_entries(self.sender_mac, self.record());
            assert forall|log: ArpLog| result@.to_set().contains(log) <==> want.contains(
                log,
            ) by {
                if result@.to_set().contains(log) {
                    let a = choose|a: int| 0 <= a < result@.len() && result@[a] == log;
                    let i = src[a];
                    lemma_ip_of_key_round_trip(*all[i].0 as int);
                    assert(m0.contains_key(*all[i].0));
                    assert(m1.contains_key(*all[i].0));
                }
                if want.contains(log) {
                    lemma_ip_key_round_trip(log.target_ip);
                    let k = log.target_ip.key() as u32;
                    assert(m1.contains_key(k));
                    assert(m0.contains_key(k));
                    let i = all.index_of((&k, &m0[k]));
                    assert(src.contains(i));
                    let a = src.index_of(i);
                    assert(result@[a] == log);
                }
            }
            assert(result@.to_set() =~= want);
        }
        result
    }

    /// Lists this sender's targets, expired or not.
    fn to_arplog(&self) -> (result: Vec<ArpLog>)
        ensures
            result@.no_duplicates(),
            result@.to_set() == record_entries(self.sender_mac, self.record()),
    {
        let mut result: Vec<ArpLog> = Vec::new();
        let ghost all = spec_hash_map_iter(&self.target_ips).remaining();
        for pair in it: self.target_ips.iter()
            invariant
                it.seq() == all,
                all == spec_hash_map_iter(&self.target_ips).remaining(),
                all.no_duplicates(),
                result@.len() == it.index(),
                forall|i: int|
                    0 <= i < result@.len() ==> result@[i] == self.log_of(
                        *(#[trigger] all[i]).0,
                        *all[i].1,
                    ),
        {
            let (tip, time) = pair;
            result.push(
                ArpLog {
                    sender_mac: self.sender_mac,
                    sender_ip: self.sender_ip,
                    target_ip: Ipv4Address::from_key(*tip),
                    last_seen: *time,
                },
            );
        }
        proof {
            let m = self.target_ips@;
            lemma_pairs_have_distinct_keys(m, all);
            assert forall|i: int, j: int|
                0 <= i < result@.len() && 0 <= j < result@.len() && i != j implies result@[i]
                != result@[j] by {
                lemma_ip_of_key_round_trip(*all[i].0 as int);
                lemma_ip_of_key_round_trip(*all[j].0 as int);
            }
            let want = record_entries(self.sender_mac, self.record());
            assert forall|log: ArpLog| result@.to_set().contains(log) <==> want.contains(
                log,
            ) by {
                if result@.to_set().contains(log) {
                    let i = choose|i: int| 0 <= i < result@.len() && result@[i] == log;
                    lemma_ip_of_key_round_trip(*all[i].0 as int);
                    assert(m.contains_key(*all[i].0));
                }
                if want.contains(log) {
                    lemma_ip_key_round_trip(log.target_ip);
                    let k = log.target_ip.key() as u32;
                    assert(m.contains_key(k));
                    let i = all.index_of((&k, &m[k]));
                    assert(result@[i] == log);
                }
            }
            assert(result@.to_set() =~= want);
        }
        result
    }
}

/// Whether something last seen at `last_seen` is still alive at `now`.
fn is_within_ttl(last_seen: u64, ttl: u64, now: u64) -> (r: bool)
    ensures
        r == within_ttl(last_seen, ttl, now),
{
    now <= last_seen || now - last_seen <= ttl
}

/// In what a hash map hands out, no key comes twice.
proof fn lemma_pairs_have_distinct_keys<K, V>(m: Map<K, V>, all: Seq<(&K, &V)>)
    requires
        all.no_duplicates(),
        forall|i: int| 0 <= i < all.len() ==> m.contains_key(*(#[trigger] all[i]).0) && m[*all[i].0] == *all[i].1,
    ensures
        forall|i: int, j: int|
            0 <= i < all.len() && 0 <= j < all.len() && i != j ==> *(#[trigger] all[i]).0 != *(#[trigger] all[j]).0,
{
    assert forall|i: int, j: int|
        0 <= i < all.len() && 0 <= j < all.len() && i != j implies *(#[trigger] all[i]).0 != *(
    #[trigger] all[j]).0 by {
        if *all[i].0 == *all[j].0 {
            assert(*all[i].1 == *all[j].1);
            assert(all[i] == all[j]);
        }
    }
}

/// The cache kept in memory: a hash map from each sender's hardware address,
/// read as a number, to its record.
#[derive(Debug)]
pub struct ArpLogRepositoryForMemory {
    store: HashMap<u64, ArpLogForMemory>,
}

impl ArpLogRepositoryForMemory {
    /// An empty cache.
    pub fn new() -> (r: Self)
        ensures
            r.well_formed(),
            r.records() == Map::<MacAddress, SenderRecord>::empty(),
    {
        let r = ArpLogRepositoryForMemory { store: HashMap::new() };
        assert(r.records() =~= Map::<MacAddress, SenderRecord>::empty());
        r
    }
}

impl ArpLogRepository for ArpLogRepositoryForMemory {
    /// Every record is filed under the key of the sender it names.
    closed spec fn well_formed(&self) -> bool {
        forall|k: u64| #[trigger]
            self.store@.contains_key(k) ==> self.store@[k].sender_mac.key() == k
    }

    open spec fn infallible(&self) -> bool {
        true
    }

    closed spec fn records(&self) -> Records {
        records_of(self.store@)
    }

    fn put(&mut self, arplog: ArpLog) -> (r: Result<(), RepositoryError>) {
        let k: u64 = arplog.sender_mac.to_key();
        let tk: u32 = arplog.target_ip.to_key();
        match self.store.remove(&k) {
            Some(alfm) => {
                let mut alfm = alfm;
                let ghost before = alfm.targets();
                alfm.target_ips.insert(tk, arplog.last_seen);
                alfm.last_seen = arplog.last_seen;
                proof {
                    assert forall|t: Ipv4Address|
                        t != arplog.target_ip implies t.key() as u32 != tk by {
                        lemma_ip_key_round_trip(t);
                    }
                    assert(alfm.targets() =~= before.insert(arplog.target_ip, arplog.last_seen));
                }
                self.store.insert(k, alfm);
            },
            None => {
                let mut tipmap: HashMap<u32, u64> = HashMap::new();
                tipmap.insert(tk, arplog.last_seen);
                let alfm = ArpLogForMemory {
                    sender_mac: arplog.sender_mac,
                    sender_ip: arplog.sender_ip,
                    target_ips: tipmap,
                    last_seen: arplog.last_seen,
                };
                proof {
                    assert forall|t: Ipv4Address|
                        t != arplog.target_ip implies t.key() as u32 != tk by {
                        lemma_ip_key_round_trip(t);
                    }
                    assert(alfm.targets() =~= Map::<Ipv4Address, u64>::empty().insert(
                        arplog.target_ip,
                        arplog.last_seen,
                    ));
                }
                self.store.insert(k, alfm);
            },
        }
        proof {
            assert forall|m: MacAddress| m != arplog.sender_mac implies m.key() as u64 != k by {
                lemma_key_round_trip(m);
            }
            assert(self.records() =~~= put_record(old(self).records(), arplog));
        }
        Ok(())
    }

    fn getall_autoclear(&mut self, duration: u64, now: u64) -> (r: Result<
        Vec<ArpLog>,
        RepositoryError,
    >) {
        let mut result: Vec<ArpLog> = Vec::new();
        let mut senders: Vec<u64> = Vec::new();
        let ghost all = spec_keys_iter(&self.store).remaining();
        for smac in it: self.store.keys()
            invariant
                it.seq() == all,
                all == spec_keys_iter(&self.store).remaining(),
                senders@.len() == it.index(),
                forall|i: int| 0 <= i < senders@.len() ==> senders@[i] == *(#[trigger] all[i]),
        {
            senders.push(*smac);
        }
        let ghost s0 = self.store@;
        let ghost seen: Set<u64> = Set::empty();
        proof {
            assert(senders@ =~= all.unref());
            assert forall|i: int, j: int|
                0 <= i < senders@.len() && 0 <= j < senders@.len() && i != j implies senders@[i]
                != senders@[j] by {
                assert(all[i] != all[j]);
            }
            assert(senders@.to_set() == s0.dom());
            assert forall|i: int| 0 <= i < senders@.len() implies s0.contains_key(
                #[trigger] senders@[i],
            ) by {
                assert(senders@.to_set().contains(senders@[i]));
            }
        }
        let n: usize = senders.len();
        let mut idx: usize = 0;
        while idx < n
            invariant
                idx <= n,
                n == senders@.len(),
                senders@.no_duplicates(),
                forall|k: u64| #[trigger] s0.contains_key(k) ==> s0[k].sender_mac.key() == k,
                forall|k: u64| #[trigger]
                    self.store@.contains_key(k) ==> self.store@[k].sender_mac.key() == k,
                forall|i: int| 0 <= i < idx ==> seen.contains(#[trigger] senders@[i]),
                forall|i: int| idx <= i < n ==> !seen.contains(#[trigger] senders@[i]),
                forall|i: int| 0 <= i < n ==> s0.contains_key(#[trigger] senders@[i]),
                forall|k: u64| #[trigger] self.store@.contains_key(k) ==> s0.contains_key(k),
                // Senders still to come are untouched.
                forall|i: int|
                    idx <= i < n ==> self.store@.contains_key(#[trigger] senders@[i])
                        && self.store@[senders@[i]] == s0[senders@[i]],
                // Senders already seen were dropped or trimmed.
                forall|k: u64| #[trigger]
                    seen.contains(k) ==> evicted_as(self.store@, s0, k, duration, now),
                listing_of(self.store@, seen, result@),
            decreases n - idx,
        {
            let smac: u64 = senders[idx];
            let ghost before = self.store@;
            proof {
                assert(!seen.contains(senders@[idx as int]));
                assert forall|i: int| idx < i < n implies senders@[i] != smac by {}
            }
            match self.store.remove(&smac) {
                Some(arplog) => {
                    let mut arplog = arplog;
                    proof {
                        assert(arplog == s0[smac]);
                        assert(self.store@ == before.remove(smac));
                        lemma_listing_ignores_unseen(before, self.store@, seen, result@);
                    }
                    if is_within_ttl(arplog.last_seen, duration, now) {
                        let mut logs = arplog.to_arplogs_autoclear(duration, now);
                        if !arplog.target_ips.is_empty() {
                            let ghost listed = result@;
                            let ghost fresh = logs@;
                            let ghost removed = self.store@;
                            result.append(&mut logs);
                            self.store.insert(smac, arplog);
                            proof {
                                lemma_listing_ignores_unseen(removed, self.store@, seen, listed);
                                lemma_extend_listing(self.store@, seen, listed, smac, fresh);
                                lemma_trimmed_survives(s0[smac], arplog, duration, now);
                                assert(evicted_as(self.store@, s0, smac, duration, now));
                            }
                        } else {
                            proof {
                                lemma_emptied_dies(s0[smac], arplog, duration, now);
                                lemma_listing_skips_absent(self.store@, seen, result@, smac);
                                assert(evicted_as(self.store@, s0, smac, duration, now));
                            }
                        }
                    } else {
                        proof {
                            lemma_listing_skips_absent(self.store@, seen, result@, smac);
                            assert(evicted_as(self.store@, s0, smac, duration, now));
                        }
                    }
                },
                None => {},
            }
            proof {
                assert forall|k: u64| #[trigger] seen.contains(k) implies evicted_as(
                    self.store@,
                    s0,
                    k,
                    duration,
                    now,
                ) by {
                    assert(evicted_as(before, s0, k, duration, now));
                    assert(k != smac);
                    assert(self.store@.contains_key(k) <==> before.contains_key(k));
                    if before.contains_key(k) {
                        assert(self.store@[k] == before[k]);
                    }
                }
                seen = seen.insert(smac);
            }
            idx = idx + 1;
        }
        proof {
            assert forall|k: u64| s0.contains_key(k) implies seen.contains(k) by {
                assert(senders@.to_set().contains(k));
                let i = senders@.index_of(k);
                assert(seen.contains(senders@[i]));
            }
            assert(s0 == old(self).store@);
            lemma_evicted_records(s0, self.store@, duration, now);
            lemma_listing_is_entries(self.store@, seen, result@);
        }
        Ok(result)
    }

    fn getall_without_autoclear(&self) -> (r: Result<Vec<ArpLog>, RepositoryError>) {
        let mut result: Vec<ArpLog> = Vec::new();
        let ghost all = spec_hash_map_iter(&self.store).remaining();
        let ghost s0 = self.store@;
        let ghost seen: Set<u64> = Set::empty();
        for pair in it: self.store.iter()
            invariant
                it.seq() == all,
                all == spec_hash_map_iter(&self.store).remaining(),
                all.no_duplicates(),
                s0 == self.store@,
                forall|k: u64| #[trigger] s0.contains_key(k) ==> s0[k].sender_mac.key() == k,
                forall|i: int| 0 <= i < it.index() ==> seen.contains(*(#[trigger] all[i]).0),
                forall|i: int| it.index() <= i < all.len() ==> !seen.contains(*(#[trigger] all[i]).0),
                listing_of(s0, seen, result@),
        {
            let (smac, arplog) = pair;
            let ghost listed = result@;
            let mut logs = arplog.to_arplog();
            let ghost fresh = logs@;
            result.append(&mut logs);
            proof {
                lemma_pairs_have_distinct_keys(s0, all);
                assert(s0.contains_key(*smac) && s0[*smac] == *arplog);
                lemma_extend_listing(s0, seen, listed, *smac, fresh);
                seen = seen.insert(*smac);
            }
        }
        proof {
            assert forall|k: u64| s0.contains_key(k) implies seen.contains(k) by {
                let i = all.index_of((&k, &s0[k]));
                assert(seen.contains(*all[i].0));
            }
            lemma_listing_is_entries(self.store@, seen, result@);
        }
        Ok(result)
    }

    fn clear(&mut self) -> (r: Result<(), RepositoryError>) {
        self.store.clear();
        assert(self.records() =~= Map::<MacAddress, SenderRecord>::empty());
        Ok(())
    }
}

/// How the store `now_store` treats the sender filed under `k`, given that
/// it was `before` when the eviction began: the record is gone unless it
/// survives, and a surviving record has lost its expired targets only.
spec fn evicted_as(
    now_store: Map<u64, ArpLogForMemory>,
    before: Map<u64, ArpLogForMemory>,
    k: u64,
    duration: u64,
    now: u64,
) -> bool {
    &&& now_store.contains_key(k) <==> before.contains_key(k) && record_survives(
        before[k].record(),
        duration,
        now,
    )
    &&& now_store.contains_key(k) ==> {
        &&& now_store[k].sender_mac == before[k].sender_mac
        &&& now_store[k].sender_ip == before[k].sender_ip
        &&& now_store[k].last_seen == before[k].last_seen
        &&& now_store[k].targets() == live_targets(before[k].targets(), duration, now)
    }
}

/// Whether `store` holds `log` in the record filed under its sender.
spec fn in_store(store: Map<u64, ArpLogForMemory>, log: ArpLog) -> bool {
    let k = log.sender_mac.key() as u64;
    &&& store.contains_key(k)
    &&& record_entries(store[k].sender_mac, store[k].record()).contains(log)
}

/// `result` lists, once each, the entries that `store` holds for the senders
/// filed under `seen`.
spec fn listing_of(store: Map<u64, ArpLogForMemory>, seen: Set<u64>, result: Seq<ArpLog>) -> bool {
    &&& result.no_duplicates()
    &&& forall|log: ArpLog| #[trigger]
        result.contains(log) <==> seen.contains(log.sender_mac.key() as u64) && in_store(
            store,
            log,
        )
}

/// A listing stays one when the store changes only under senders that were
/// not seen.
proof fn lemma_listing_ignores_unseen(
    before: Map<u64, ArpLogForMemory>,
    after: Map<u64, ArpLogForMemory>,
    seen: Set<u64>,
    result: Seq<ArpLog>,
)
    requires
        listing_of(before, seen, result),
        forall|k: u64| #[trigger]
            seen.contains(k) ==> (before.contains_key(k) <==> after.contains_key(k)) && (
            before.contains_key(k) ==> before[k] == after[k]),
    ensures
        listing_of(after, seen, result),
{
    assert forall|log: ArpLog| #[trigger]
        result.contains(log) <==> seen.contains(log.sender_mac.key() as u64) && in_store(
            after,
            log,
        ) by {
        lemma_key_round_trip(log.sender_mac);
    }
}

/// A sender without a record adds nothing to a listing.
proof fn lemma_listing_skips_absent(
    store: Map<u64, ArpLogForMemory>,
    seen: Set<u64>,
    result: Seq<ArpLog>,
    k: u64,
)
    requires
        listing_of(store, seen, result),
        !store.contains_key(k),
    ensures
        listing_of(store, seen.insert(k), result),
{
    assert forall|log: ArpLog| #[trigger]
        result.contains(log) <==> seen.insert(k).contains(log.sender_mac.key() as u64)
            && in_store(store, log) by {
        lemma_key_round_trip(log.sender_mac);
    }
}

/// Appending the listing of one more sender's record gives the listing of
/// the senders seen so far and that sender.
proof fn lemma_extend_listing(
    store: Map<u64, ArpLogForMemory>,
    seen: Set<u64>,
    result: Seq<ArpLog>,
    k: u64,
    fresh: Seq<ArpLog>,
)
    requires
        listing_of(store, seen, result),
        !seen.contains(k),
        store.contains_key(k),
        store[k].sender_mac.key() == k,
        fresh.no_duplicates(),
        fresh.to_set() == record_entries(store[k].sender_mac, store[k].record()),
    ensures
        listing_of(store, seen.insert(k), result + fresh),
{
    let joined = result + fresh;
    assert forall|a: int, b: int| 0 <= a < result.len() && 0 <= b < fresh.len() implies result[a]
        != fresh[b] by {
        assert(fresh.to_set().contains(fresh[b]));
        assert(result.contains(result[a]));
    }
    vstd::seq_lib::lemma_no_dup_in_concat(result, fresh);
    assert forall|log: ArpLog| #[trigger]
        joined.contains(log) <==> seen.insert(k).contains(log.sender_mac.key() as u64)
            && in_store(store, log) by {
        lemma_key_round_trip(log.sender_mac);
        if joined.contains(log) {
            let x = joined.index_of(log);
            if x < result.len() {
                assert(result.contains(result[x]));
            } else {
                assert(fresh.to_set().contains(fresh[x - result.len()]));
            }
        }
        if seen.insert(k).contains(log.sender_mac.key() as u64) && in_store(store, log) {
            if log.sender_mac.key() as u64 == k {
                assert(fresh.to_set().contains(log));
                let b = fresh.index_of(log);
                assert(joined[result.len() + b] == log);
            } else {
                assert(result.contains(log));
                let a = result.index_of(log);
                assert(joined[a] == log);
            }
        }
    }
}

/// A record that kept a target after its expired targets were trimmed
/// survives the eviction.
proof fn lemma_trimmed_survives(
    before: ArpLogForMemory,
    after: ArpLogForMemory,
    duration: u64,
    now: u64,
)
    requires
        within_ttl(before.last_seen, duration, now),
        after.targets() == live_targets(before.targets(), duration, now),
        !after.target_ips@.is_empty(),
    ensures
        record_survives(before.record(), duration, now),
{
    let t = choose|t: u32| after.target_ips@.contains_key(t);
    assert(after.target_ips@.dom().contains(t));
    lemma_ip_of_key_round_trip(t as int);
    let ip = Ipv4Address::of_key(t as int);
    assert(after.targets().contains_key(ip));
    assert(before.record().targets.contains_key(ip));
}

/// A record that lost every target to the trimming does not survive.
proof fn lemma_emptied_dies(
    before: ArpLogForMemory,
    after: ArpLogForMemory,
    duration: u64,
    now: u64,
)
    requires
        after.targets() == live_targets(before.targets(), duration, now),
        after.target_ips@.is_empty(),
    ensures
        !record_survives(before.record(), duration, now),
{
    if record_survives(before.record(), duration, now) {
        let ip = choose|ip: Ipv4Address| #[trigger]
            before.record().targets.contains_key(ip) && within_ttl(
                before.record().targets[ip],
                duration,
                now,
            );
        assert(after.targets().contains_key(ip));
        assert(after.target_ips@.dom().contains(ip.key() as u32));
    }
}

/// The cache that a store stands for.
spec fn records_of(store: Map<u64, ArpLogForMemory>) -> Records {
    Map::new(
        |m: MacAddress| store.contains_key(m.key() as u64),
        |m: MacAddress| store[m.key() as u64].record(),
    )
}

/// A store whose every sender was dropped or trimmed stands for the
/// evicted cache.
proof fn lemma_evicted_records(
    before: Map<u64, ArpLogForMemory>,
    after: Map<u64, ArpLogForMemory>,
    duration: u64,
    now: u64,
)
    requires
        forall|k: u64| #[trigger] before.contains_key(k) ==> evicted_as(after, before, k, duration, now),
        forall|k: u64| #[trigger] after.contains_key(k) ==> before.contains_key(k),
    ensures
        records_of(after) == evict_expired(records_of(before), duration, now),
{
    let want = evict_expired(records_of(before), duration, now);
    assert forall|m: MacAddress| records_of(after).contains_key(m) <==> want.contains_key(m) by {
        lemma_key_round_trip(m);
        let k = m.key() as u64;
        if before.contains_key(k) {
            assert(evicted_as(after, before, k, duration, now));
        }
    }
    assert forall|m: MacAddress| records_of(after).contains_key(m) implies records_of(after)[m]
        =~~= want[m] by {
        lemma_key_round_trip(m);
        let k = m.key() as u64;
        assert(evicted_as(after, before, k, duration, now));
    }
    assert(records_of(after) =~~= want);
}

/// A listing that has seen every sender lists the cache's entries.
proof fn lemma_listing_is_entries(
    store: Map<u64, ArpLogForMemory>,
    seen: Set<u64>,
    result: Seq<ArpLog>,
)
    requires
        listing_of(store, seen, result),
        forall|k: u64| #[trigger] store.contains_key(k) ==> seen.contains(k),
        forall|k: u64| #[trigger] store.contains_key(k) ==> store[k].sender_mac.key() == k,
    ensures
        lists(result, records_of(store)),
{
    assert forall|log: ArpLog| result.to_set().contains(log) <==> entries(
        records_of(store),
    ).contains(log) by {
        lemma_key_round_trip(log.sender_mac);
        let k = log.sender_mac.key() as u64;
        if store.contains_key(k) {
            lemma_key_round_trip(store[k].sender_mac);
        }
    }
    assert(result.to_set() =~= entries(records_of(store)));
}

} // verus!
