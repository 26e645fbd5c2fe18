//! The answers that the DNS forwarder remembers.

use crate::addr::NANOS_PER_SEC;
use crate::assoc::{
    distinct, entries, lemma_count, lemma_entries, lemma_push, lemma_remove, stands_at,
};
use crate::dns::{parse_dns, parsed_dns, DnsPacketView, DNS_HEADER_SIZE};
use vstd::prelude::*;

verus! {

/// How long an answer without records is kept, in seconds.
pub const DEFAULT_TTL_SECS: u32 = 30;

/// The longest that an answer is kept, in seconds.
pub const MAX_TTL_SECS: u32 = 3600;

/// The most answers that are kept.
pub const MAX_CACHE_ENTRIES: usize = 4096;

/// An answer and the time up to which it is kept.
#[derive(Clone, Debug, PartialEq, Eq)]
pub struct CacheEntry {
    pub response: Vec<u8>,
    pub expiry: u64,
}

/// An answer as a sequence of bytes, and the time up to which it is kept.
pub struct EntryView {
    pub response: Seq<u8>,
    pub expiry: u64,
}

impl View for CacheEntry {
    type V = EntryView;

    open spec fn view(&self) -> EntryView {
        EntryView { response: self.response@, expiry: self.expiry }
    }
}

struct CacheSlot {
    key: Vec<u8>,
    entry: CacheEntry,
}

/// The remembered answers, each under the key of its question.
pub struct DnsCache {
    slots: Vec<CacheSlot>,
}

spec fn pairs(slots: Seq<CacheSlot>) -> Seq<(Seq<u8>, EntryView)> {
    slots.map_values(|slot: CacheSlot| (slot.key@, slot.entry@))
}

impl View for DnsCache {
    type V = Map<Seq<u8>, EntryView>;

    closed spec fn view(&self) -> Map<Seq<u8>, EntryView> {
        entries(pairs(self.slots@))
    }
}

/// The entries that run past `now`.
pub open spec fn unexpired(cache: Map<Seq<u8>, EntryView>, now: u64) -> Map<Seq<u8>, EntryView> {
    Map::new(
        |key: Seq<u8>| cache.contains_key(key) && cache[key].expiry > now,
        |key: Seq<u8>| cache[key],
    )
}

/// Whether two byte strings are the same.
pub fn same_bytes(a: &[u8], b: &[u8]) -> (r: bool)
    ensures
        r == (a@ == b@),
{
    if a.len() != b.len() {
        return false;
    }
    let mut i: usize = 0;
    while i < a.len()
        invariant
            i <= a.len(),
            a.len() == b.len(),
            forall|j: int| 0 <= j < i ==> a@[j] == b@[j],
        decreases a.len() - i,
    {
        if a[i] != b[i] {
            return false;
        }
        i += 1;
    }
    assert(a@ =~= b@);
    true
}

/// A copy of a byte string.
pub fn copy_bytes(bytes: &[u8]) -> (r: Vec<u8>)
    ensures
        r@ == bytes@,
{
    let mut r: Vec<u8> = Vec::new();
    r.extend_from_slice(bytes);
    assert(r@ =~= bytes@);
    r
}

impl DnsCache {
    /// No key occurs twice.
    pub closed spec fn wf(self) -> bool {
        distinct(pairs(self.slots@))
    }

    /// A cache without answers.
    pub fn new() -> (r: DnsCache)
        ensures
            r.wf(),
            r@ == Map::<Seq<u8>, EntryView>::empty(),
    {
        let r = DnsCache { slots: Vec::new() };
        assert(r@ =~= Map::empty());
        r
    }

    /// Where the answer under `key` stands.
    fn find(&self, key: &[u8]) -> (r: Option<usize>)
        requires
            self.wf(),
        ensures
            match r {
                Some(i) => i < self.slots@.len() && self.slots@[i as int].key@ == key@
                    && self@.contains_key(key@) && self@[key@] == self.slots@[i as int].entry@,
                None => !self@.contains_key(key@),
            },
    {
        let ghost all = pairs(self.slots@);
        proof {
            lemma_entries(all);
        }
        let mut i: usize = 0;
        while i < self.slots.len()
            invariant
                i <= self.slots.len(),
                all == pairs(self.slots@),
                self@ == entries(all),
                forall|j: int|
                    0 <= j < all.len() ==> entries(all).contains_key((#[trigger] all[j]).0)
                        && entries(all)[all[j].0] == all[j].1,
                forall|j: int| 0 <= j < i ==> (#[trigger] all[j]).0 != key@,
            decreases self.slots.len() - i,
        {
            assert(all[i as int] == (self.slots@[i as int].key@, self.slots@[i as int].entry@));
            if same_bytes(self.slots[i].key.as_slice(), key) {
                return Some(i);
            }
            i += 1;
        }
        None
    }

    /// Whether there is an answer under `key`, expired or not.
    pub fn contains_key(&self, key: &[u8]) -> (r: bool)
        requires
            self.wf(),
        ensures
            r == self@.contains_key(key@),
    {
        self.find(key).is_some()
    }

    /// The answer under `key`, expired or not.
    pub fn get(&self, key: &[u8]) -> (r: Option<&CacheEntry>)
        requires
            self.wf(),
        ensures
            match r {
                Some(entry) => self@.contains_key(key@) && self@[key@] == entry@,
                None => !self@.contains_key(key@),
            },
    {
        match self.find(key) {
            Some(i) => Some(&self.slots[i].entry),
            None => None,
        }
    }

    /// The number of answers, expired or not.
    pub fn len(&self) -> (r: usize)
        requires
            self.wf(),
        ensures
            self@.dom().finite(),
            r == self@.dom().len(),
    {
        proof {
            lemma_count(pairs(self.slots@));
        }
        self.slots.len()
    }

    /// Takes the answer at `i` away.
    fn remove_at(&mut self, i: usize)
        requires
            old(self).wf(),
            i < old(self).slots@.len(),
        ensures
            final(self).wf(),
            final(self).slots@ == old(self).slots@.remove(i as int),
            final(self)@ == old(self)@.remove(old(self).slots@[i as int].key@),
    {
        let ghost before = self.slots@;
        self.slots.remove(i);
        proof {
            assert(pairs(self.slots@) =~= pairs(before).remove(i as int));
            lemma_remove(pairs(before), i as int);
        }
    }

    /// Takes the answer under `key` away.
    fn remove(&mut self, key: &[u8])
        requires
            old(self).wf(),
        ensures
            final(self).wf(),
            final(self)@ == old(self)@.remove(key@),
    {
        match self.find(key) {
            Some(i) => {
                self.remove_at(i);
            },
            None => {
                assert(self@ =~= self@.remove(key@));
            },
        }
    }

    /// Puts an answer under `key`, in place of the one there.
    pub fn insert(&mut self, key: Vec<u8>, entry: CacheEntry)
        requires
            old(self).wf(),
        ensures
            final(self).wf(),
            final(self)@ == old(self)@.insert(key@, entry@),
    {
        let ghost name = key@;
        let ghost shown = entry@;
        self.remove(key.as_slice());
        let ghost before = self.slots@;
        self.slots.push(CacheSlot { key, entry });
        proof {
            lemma_push(pairs(before), (name, shown));
            assert(pairs(self.slots@) =~= pairs(before).push((name, shown)));
            assert(self@ =~= old(self)@.insert(name, shown));
        }
    }
}

/// Drops the answers that have run out.
pub fn evict_expired_cache(cache: &mut DnsCache, now: u64)
    requires
        old(cache).wf(),
    ensures
        final(cache).wf(),
        final(cache)@ == unexpired(old(cache)@, now),
{
    let ghost before = cache@;
    let mut i: usize = 0;
    while i < cache.slots.len()
        invariant
            i <= cache.slots@.len(),
            cache.wf(),
            before == old(cache)@,
            forall|key: Seq<u8>| #[trigger]
                cache@.contains_key(key) ==> before.contains_key(key) && cache@[key] == before[key],
            forall|key: Seq<u8>| #[trigger]
                before.contains_key(key) && before[key].expiry > now ==> cache@.contains_key(key),
            forall|j: int| 0 <= j < i ==> (#[trigger] cache.slots@[j]).entry.expiry > now,
        decreases cache.slots@.len() - i,
    {
        if cache.slots[i].entry.expiry > now {
            i += 1;
        } else {
            proof {
                lemma_entries(pairs(cache.slots@));
                assert(pairs(cache.slots@)[i as int] == (
                    cache.slots@[i as int].key@,
                    cache.slots@[i as int].entry@,
                ));
            }
            cache.remove_at(i);
        }
    }
    proof {
        let all = pairs(cache.slots@);
        lemma_entries(all);
        assert forall|key: Seq<u8>| #[trigger] cache@.contains_key(key) implies cache@[key].expiry
            > now by {
            let j = choose|j: int| stands_at(all, key, j);
            assert(all[j] == (cache.slots@[j].key@, cache.slots@[j].entry@));
        }
        assert(cache@ =~= unexpired(before, now));
    }
}

/// The answer under a key, unless it has run out; one that has is dropped.
pub fn lookup_cache(cache_key: &[u8], cache: &mut DnsCache, now: u64) -> (r: Option<Vec<u8>>)
    requires
        old(cache).wf(),
    ensures
        final(cache).wf(),
        match r {
            Some(response) => {
                &&& unexpired(old(cache)@, now).contains_key(cache_key@)
                &&& response@ == old(cache)@[cache_key@].response
                &&& final(cache)@ == old(cache)@
            },
            None => {
                &&& !unexpired(old(cache)@, now).contains_key(cache_key@)
                &&& final(cache)@ == old(cache)@.remove(cache_key@)
            },
        },
{
    if let Some(entry) = cache.get(cache_key) {
        if entry.expiry > now {
            return Some(copy_bytes(entry.response.as_slice()));
        }
    }
    cache.remove(cache_key);
    None
}

/// The least of the times to live of the answers of a packet.
pub open spec fn least_ttl(ttls: Seq<u32>) -> u32
    decreases ttls.len(),
{
    if ttls.len() == 0 {
        DEFAULT_TTL_SECS
    } else if ttls.len() == 1 {
        ttls[0]
    } else {
        let rest = least_ttl(ttls.drop_last());
        if ttls.last() < rest {
            ttls.last()
        } else {
            rest
        }
    }
}

/// How long a response is kept, in seconds: as long as the least of its answers
/// says, but no longer than the limit. `None` where it is not kept: where it is
/// no DNS packet, or an answer says so.
pub open spec fn kept_for(response: Seq<u8>) -> Option<u32> {
    match parsed_dns(response) {
        Ok(packet) => capped_ttl(packet.ttls),
        Err(_) => None,
    }
}

/// How long answers with the given times to live are kept, in seconds.
pub open spec fn capped_ttl(ttls: Seq<u32>) -> Option<u32> {
    let least = least_ttl(ttls);
    if least == 0 {
        None
    } else if least > MAX_TTL_SECS {
        Some(MAX_TTL_SECS)
    } else {
        Some(least)
    }
}

/// Reads how long answers with the given times to live are kept.
pub fn cache_ttl(ttls: &Vec<u32>) -> (r: Option<u32>)
    ensures
        r == capped_ttl(ttls@),
{
    let mut least: u32 = DEFAULT_TTL_SECS;
    let mut i: usize = 0;
    while i < ttls.len()
        invariant
            i <= ttls.len(),
            least == least_ttl(ttls@.take(i as int)),
        decreases ttls.len() - i,
    {
        assert(ttls@.take(i + 1).drop_last() =~= ttls@.take(i as int));
        if i == 0 || ttls[i] < least {
            least = ttls[i];
        }
        i += 1;
    }
    assert(ttls@.take(i as int) =~= ttls@);
    if least == 0 {
        None
    } else if least > MAX_TTL_SECS {
        Some(MAX_TTL_SECS)
    } else {
        Some(least)
    }
}

/// Whether no entry runs out before that under `key`.
pub open spec fn is_oldest(cache: Map<Seq<u8>, EntryView>, key: Seq<u8>) -> bool {
    &&& cache.contains_key(key)
    &&& forall|other: Seq<u8>| #[trigger]
        cache.contains_key(other) ==> cache[key].expiry <= cache[other].expiry
}

/// Whether `after` is `before` with room for an answer under `key`: where the
/// cache is full and has no answer under `key`, what has run out is dropped; if
/// it is still full, one of the entries that run out first is dropped too.
pub open spec fn makes_room(
    before: Map<Seq<u8>, EntryView>,
    key: Seq<u8>,
    now: u64,
    after: Map<Seq<u8>, EntryView>,
) -> bool {
    let live = unexpired(before, now);
    if before.dom().len() < MAX_CACHE_ENTRIES || before.contains_key(key) {
        after == before
    } else if live.dom().len() < MAX_CACHE_ENTRIES {
        after == live
    } else {
        exists|oldest: Seq<u8>| #[trigger] is_oldest(live, oldest) && after == live.remove(oldest)
    }
}

/// Whether `after` is `before` with `response` put under `key` for `ttl`
/// seconds.
pub open spec fn remembers(
    before: Map<Seq<u8>, EntryView>,
    key: Seq<u8>,
    response: Seq<u8>,
    ttl: Option<u32>,
    now: u64,
    after: Map<Seq<u8>, EntryView>,
) -> bool {
    match ttl {
        Some(secs) => exists|room: Map<Seq<u8>, EntryView>|
            {
                &&& #[trigger] makes_room(before, key, now, room)
                &&& after == room.insert(
                    key,
                    EntryView { response, expiry: (now + secs * NANOS_PER_SEC) as u64 },
                )
            },
        None => after == before,
    }
}

/// The clock reading up to which the time an answer is kept can be written
/// down.
pub open spec fn cache_clock_fits(now: u64) -> bool {
    now + MAX_TTL_SECS * NANOS_PER_SEC <= u64::MAX
}

fn make_room(cache_key: &[u8], cache: &mut DnsCache, now: u64)
    requires
        old(cache).wf(),
    ensures
        final(cache).wf(),
        makes_room(old(cache)@, cache_key@, now, final(cache)@),
{
    if cache.len() < MAX_CACHE_ENTRIES || cache.contains_key(cache_key) {
        return ;
    }
    evict_expired_cache(cache, now);
    if cache.len() < MAX_CACHE_ENTRIES {
        return ;
    }
    let ghost live = cache@;
    let ghost slots = cache.slots@;
    proof {
        lemma_count(pairs(slots));
        lemma_entries(pairs(slots));
    }
    let mut oldest: usize = 0;
    let mut i: usize = 1;
    while i < cache.slots.len()
        invariant
            cache.slots@ == slots,
            oldest < i <= slots.len(),
            forall|j: int|
                0 <= j < i ==> slots[oldest as int].entry.expiry <= (#[trigger] slots[j]).entry.expiry,
        decreases slots.len() - i,
    {
        if cache.slots[i].entry.expiry < cache.slots[oldest].entry.expiry {
            oldest = i;
        }
        i += 1;
    }
    cache.remove_at(oldest);
    proof {
        let all = pairs(slots);
        let key = slots[oldest as int].key@;
        assert(all[oldest as int] == (key, slots[oldest as int].entry@));
        assert forall|other: Seq<u8>| #[trigger] live.contains_key(other) implies live[key].expiry
            <= live[other].expiry by {
            let j = choose|j: int| stands_at(all, other, j);
            assert(all[j] == (slots[j].key@, slots[j].entry@));
        }
        assert(is_oldest(live, key));
    }
}

/// Puts a response under a key for `ttl` seconds, or not at all.
pub fn remember(
    cache_key: Vec<u8>,
    response: Vec<u8>,
    ttl: Option<u32>,
    cache: &mut DnsCache,
    now: u64,
)
    requires
        old(cache).wf(),
        cache_clock_fits(now),
        ttl matches Some(secs) ==> secs <= MAX_TTL_SECS,
    ensures
        final(cache).wf(),
        remembers(old(cache)@, cache_key@, response@, ttl, now, final(cache)@),
{
    if let Some(secs) = ttl {
        let expiry: u64 = now + secs as u64 * NANOS_PER_SEC;
        make_room(cache_key.as_slice(), cache, now);
        cache.insert(cache_key, CacheEntry { response, expiry });
    }
}

/// Puts a response under the key of its question for as long as it says.
pub fn insert_cache(cache_key: Vec<u8>, response: Vec<u8>, cache: &mut DnsCache, now: u64)
    requires
        old(cache).wf(),
        cache_clock_fits(now),
    ensures
        final(cache).wf(),
        remembers(old(cache)@, cache_key@, response@, kept_for(response@), now, final(cache)@),
        kept_for(response@) is Some ==> response@.len() >= DNS_HEADER_SIZE,
        response@.len() < DNS_HEADER_SIZE ==> final(cache)@ == old(cache)@,
{
    let ttl: Option<u32> = match parse_dns(response.as_slice()) {
        Ok(packet) => cache_ttl(&packet.ttls),
        Err(_) => None,
    };
    remember(cache_key, response, ttl, cache, now)
}

/// A response that is kept is found again under its key until its time is over,
/// and not after.
pub proof fn law_remembered_until_expiry(
    before: Map<Seq<u8>, EntryView>,
    key: Seq<u8>,
    response: Seq<u8>,
    secs: u32,
    now: u64,
    after: Map<Seq<u8>, EntryView>,
    later: u64,
)
    requires
        remembers(before, key, response, Some(secs), now, after),
        now + secs * NANOS_PER_SEC <= u64::MAX,
    ensures
        after.contains_key(key),
        after[key].response == response,
        unexpired(after, later).contains_key(key) <==> later < now + secs * NANOS_PER_SEC,
{
}

/// A cache within its limit stays within it.
pub proof fn law_cache_stays_bounded(
    before: Map<Seq<u8>, EntryView>,
    key: Seq<u8>,
    response: Seq<u8>,
    ttl: Option<u32>,
    now: u64,
    after: Map<Seq<u8>, EntryView>,
)
    requires
        before.dom().finite(),
        before.dom().len() <= MAX_CACHE_ENTRIES,
        remembers(before, key, response, ttl, now, after),
    ensures
        after.dom().finite(),
        after.dom().len() <= MAX_CACHE_ENTRIES,
{
    if let Some(secs) = ttl {
        let room = choose|room: Map<Seq<u8>, EntryView>|
            {
                &&& #[trigger] makes_room(before, key, now, room)
                &&& after == room.insert(
                    key,
                    EntryView { response, expiry: (now + secs * NANOS_PER_SEC) as u64 },
                )
            };
        let live = unexpired(before, now);
        assert(live.dom().subset_of(before.dom()));
        vstd::set_lib::lemma_len_subset(live.dom(), before.dom());
        assert(room.dom().finite());
        assert(after.dom() =~= room.dom().insert(key));
        if room == before && before.contains_key(key) {
            assert(after.dom() =~= before.dom());
        }
    }
}

/// Where a cache within its limit has room for an answer, or already has one
/// under its key, every other entry stays as it was. Where it is full, all
/// entries that have run out go; only where there is none of those, one entry
/// goes, of those that run out first. Every entry that is left stays as it was.
pub proof fn law_full_cache_drops_the_least(
    before: Map<Seq<u8>, EntryView>,
    key: Seq<u8>,
    response: Seq<u8>,
    ttl: Option<u32>,
    now: u64,
    after: Map<Seq<u8>, EntryView>,
)
    requires
        before.dom().finite(),
        before.dom().len() <= MAX_CACHE_ENTRIES,
        remembers(before, key, response, ttl, now, after),
    ensures
        ttl is None ==> after == before,
        before.dom().len() < MAX_CACHE_ENTRIES || before.contains_key(key) ==> after.remove(key)
            == before.remove(key),
        ttl is Some && before.dom().len() == MAX_CACHE_ENTRIES && !before.contains_key(key) ==> {
            if unexpired(before, now) != before {
                after.remove(key) == unexpired(before, now)
            } else {
                exists|oldest: Seq<u8>| #[trigger]
                    is_oldest(before, oldest) && after.remove(key) == before.remove(oldest)
            }
        },
        forall|other: Seq<u8>| #[trigger]
            after.contains_key(other) && other != key ==> before.contains_key(other)
                && after[other] == before[other],
{
    if let Some(secs) = ttl {
        let room = choose|room: Map<Seq<u8>, EntryView>|
            {
                &&& #[trigger] makes_room(before, key, now, room)
                &&& after == room.insert(
                    key,
                    EntryView { response, expiry: (now + secs * NANOS_PER_SEC) as u64 },
                )
            };
        let live = unexpired(before, now);
        assert(after.remove(key) =~= room.remove(key));
        if before.dom().len() == MAX_CACHE_ENTRIES && !before.contains_key(key) {
            assert(live.dom().subset_of(before.dom()));
            vstd::set_lib::lemma_len_subset(live.dom(), before.dom());
            assert(room.remove(key) =~= room);
            if live != before {
                if live.dom().len() == MAX_CACHE_ENTRIES {
                    vstd::set_lib::lemma_subset_equality(live.dom(), before.dom());
                    assert(live =~= before);
                }
            }
        }
    }
}

/// An answer that must not be kept changes nothing, and no answer is kept longer
/// than the limit.
pub proof fn law_ttl_is_honoured(ttls: Seq<u32>, i: int)
    requires
        0 <= i < ttls.len(),
    ensures
        ttls[i] == 0 ==> capped_ttl(ttls) is None,
        capped_ttl(ttls) matches Some(secs) ==> 0 < secs <= ttls[i] && secs <= MAX_TTL_SECS,
{
    lemma_least_ttl(ttls, i);
}

proof fn lemma_least_ttl(ttls: Seq<u32>, i: int)
    requires
        0 <= i < ttls.len(),
    ensures
        least_ttl(ttls) <= ttls[i],
    decreases ttls.len(),
{
    if ttls.len() > 1 && i < ttls.len() - 1 {
        lemma_least_ttl(ttls.drop_last(), i);
    }
}

} // verus!
