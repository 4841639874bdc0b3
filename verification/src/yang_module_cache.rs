//! A cache of YANG module texts.
//!
//! A module name and a revision identify stable content (RFC 7950, section
//! 11), so a module that was fetched from one device serves for all. Fetches
//! are made once: the first caller for a module leads and fetches it, and those
//! who come while the fetch is in flight wait for what the leader brings. If
//! the leader fails, the next caller leads.

use crate::text_channel;
use crate::text_channel::{channel, clone_receiver, current, is_closed, send, share, withdraw};
use std::sync::Arc;
use tokio::sync::watch::{Receiver, Sender};
use vstd::prelude::*;

verus! {

/// What came of the requests for modules.
#[derive(Debug, Clone, Copy, PartialEq, Eq, Structural)]
pub struct YangModuleCacheStats {
    /// Fetches avoided because the module was in the cache.
    pub hits: u64,
    /// Fetches made because the module was not in the cache.
    pub misses: u64,
    /// Fetches avoided by waiting for one in flight.
    pub coalesced: u64,
    /// Modules in the cache.
    pub size: u64,
}

impl YangModuleCacheStats {
    /// Nothing requested yet.
    pub open spec fn zero() -> Self {
        YangModuleCacheStats { hits: 0, misses: 0, coalesced: 0, size: 0 }
    }
}

impl Default for YangModuleCacheStats {
    fn default() -> (r: Self)
        ensures
            r == YangModuleCacheStats::zero(),
    {
        YangModuleCacheStats { hits: 0, misses: 0, coalesced: 0, size: 0 }
    }
}

/// A module name and a revision.
pub type KeyView = (Seq<char>, Seq<char>);

/// What the cache knows of a module.
pub enum EntryView {
    /// Its text.
    Ready(Seq<char>),
    /// That it is being fetched, and where the text will be published.
    InFlight(Receiver<Option<Arc<str>>>),
}

/// What the cache holds.
#[verifier::ext_equal]
pub struct CacheView {
    pub entries: Map<KeyView, EntryView>,
    pub stats: YangModuleCacheStats,
}

impl CacheView {
    /// The modules whose text is in the cache.
    pub open spec fn ready(self) -> Set<KeyView> {
        Set::new(|k: KeyView| self.entries.contains_key(k) && self.entries[k] is Ready)
    }

    /// The cache before its first request.
    pub open spec fn empty() -> Self {
        CacheView { entries: Map::empty(), stats: YangModuleCacheStats::zero() }
    }
}

#[derive(Debug)]
enum ModuleEntry {
    Ready(Arc<str>),
    InFlight(Receiver<Option<Arc<str>>>),
}

impl View for ModuleEntry {
    type V = EntryView;

    closed spec fn view(&self) -> EntryView {
        match self {
            ModuleEntry::Ready(text) => EntryView::Ready(text@),
            ModuleEntry::InFlight(rx) => EntryView::InFlight(*rx),
        }
    }
}

#[derive(Debug)]
struct Slot {
    name: String,
    revision: String,
    entry: ModuleEntry,
}

impl Slot {
    spec fn key(self) -> KeyView {
        (self.name@, self.revision@)
    }
}

/// Whether slot `i` is the one for `key`.
spec fn at(slots: Seq<Slot>, key: KeyView, i: int) -> bool {
    0 <= i < slots.len() && slots[i].key() == key
}

spec fn known(slots: Seq<Slot>, key: KeyView) -> bool {
    exists|i: int| at(slots, key, i)
}

spec fn position(slots: Seq<Slot>, key: KeyView) -> int {
    choose|i: int| at(slots, key, i)
}

spec fn entries(slots: Seq<Slot>) -> Map<KeyView, EntryView> {
    Map::new(|k: KeyView| known(slots, k), |k: KeyView| slots[position(slots, k)].entry@)
}

spec fn distinct(slots: Seq<Slot>) -> bool {
    forall|i: int, j: int|
        0 <= i < j < slots.len() ==> (#[trigger] slots[i]).key() != (#[trigger] slots[j]).key()
}

/// Where a module stands, where keys are distinct.
proof fn lemma_position(slots: Seq<Slot>, i: int)
    requires
        distinct(slots),
        0 <= i < slots.len(),
    ensures
        known(slots, slots[i].key()),
        position(slots, slots[i].key()) == i,
{
    assert(at(slots, slots[i].key(), i));
    let p = position(slots, slots[i].key());
    assert(at(slots, slots[i].key(), p));
}

proof fn lemma_push(slots: Seq<Slot>, slot: Slot)
    requires
        distinct(slots),
        !known(slots, slot.key()),
    ensures
        distinct(slots.push(slot)),
        entries(slots.push(slot)) == entries(slots).insert(slot.key(), slot.entry@),
{
    let after = slots.push(slot);
    assert forall|i: int, j: int| 0 <= i < j < after.len() implies (#[trigger] after[i]).key() != (
    #[trigger] after[j]).key() by {
        if j == slots.len() {
            assert(!at(slots, slot.key(), i));
        }
    }
    assert forall|k: KeyView| known(after, k) == (known(slots, k) || k == slot.key()) by {
        if known(slots, k) {
            assert(at(after, k, position(slots, k)));
        }
        if k == slot.key() {
            assert(at(after, k, slots.len() as int));
        }
        if known(after, k) && k != slot.key() {
            assert(at(slots, k, position(after, k)));
        }
    }
    assert forall|k: KeyView| known(after, k) implies entries(after)[k] == entries(slots).insert(
        slot.key(),
        slot.entry@,
    )[k] by {
        if k == slot.key() {
            lemma_position(after, slots.len() as int);
        } else {
            let p = position(slots, k);
            assert(at(slots, k, p));
            lemma_position(after, p);
        }
    }
    assert(entries(after) =~= entries(slots).insert(slot.key(), slot.entry@));
}

proof fn lemma_update(slots: Seq<Slot>, i: int, slot: Slot)
    requires
        distinct(slots),
        0 <= i < slots.len(),
        slots[i].key() == slot.key(),
    ensures
        distinct(slots.update(i, slot)),
        entries(slots.update(i, slot)) == entries(slots).insert(slot.key(), slot.entry@),
{
    let after = slots.update(i, slot);
    assert forall|j: int| 0 <= j < slots.len() implies (#[trigger] after[j]).key()
        == slots[j].key() by {}
    assert forall|j: int, k: int| 0 <= j < k < after.len() implies (#[trigger] after[j]).key() != (
    #[trigger] after[k]).key() by {
        assert(slots[j].key() != slots[k].key());
    }
    lemma_position(slots, i);
    assert forall|k: KeyView| known(after, k) == known(slots, k) by {
        if known(slots, k) {
            assert(at(after, k, position(slots, k)));
        }
        if known(after, k) {
            assert(at(slots, k, position(after, k)));
        }
    }
    assert forall|k: KeyView| known(after, k) implies entries(after)[k] == entries(slots).insert(
        slot.key(),
        slot.entry@,
    )[k] by {
        let p = position(slots, k);
        assert(known(slots, k));
        assert(at(slots, k, p));
        lemma_position(after, p);
        if k == slot.key() {
            assert(p == i);
        }
    }
    assert(entries(after) =~= entries(slots).insert(slot.key(), slot.entry@));
}

proof fn lemma_remove(slots: Seq<Slot>, i: int)
    requires
        distinct(slots),
        0 <= i < slots.len(),
    ensures
        distinct(slots.remove(i)),
        entries(slots.remove(i)) == entries(slots).remove(slots[i].key()),
{
    let after = slots.remove(i);
    assert forall|j: int, k: int| 0 <= j < k < after.len() implies (#[trigger] after[j]).key() != (
    #[trigger] after[k]).key() by {
        let a = if j < i { j } else { j + 1 };
        let b = if k < i { k } else { k + 1 };
        assert(slots[a].key() != slots[b].key());
    }
    assert forall|k: KeyView| known(after, k) == (known(slots, k) && k != slots[i].key()) by {
        if known(slots, k) && k != slots[i].key() {
            let p = position(slots, k);
            assert(at(slots, k, p));
            assert(at(after, k, if p < i { p } else { p - 1 }));
        }
        if known(after, k) {
            let p = position(after, k);
            assert(at(after, k, p));
            let q = if p < i { p } else { p + 1 };
            assert(at(slots, k, q));
            lemma_position(slots, i);
            lemma_position(slots, q);
        }
    }
    assert forall|k: KeyView| known(after, k) implies entries(after)[k] == entries(slots)[k] by {
        let p = position(after, k);
        assert(at(after, k, p));
        lemma_position(slots, if p < i { p } else { p + 1 });
    }
    assert(entries(after) =~= entries(slots).remove(slots[i].key()));
}

/// A cache of YANG module texts.
#[derive(Debug)]
pub struct YangModuleCache {
    slots: Vec<Slot>,
    stats: YangModuleCacheStats,
}

impl View for YangModuleCache {
    type V = CacheView;

    closed spec fn view(&self) -> CacheView {
        CacheView { entries: entries(self.slots@), stats: self.stats }
    }
}

impl Default for YangModuleCache {
    fn default() -> (r: Self)
        ensures
            r.wf(),
            r@ == CacheView::empty(),
    {
        YangModuleCache::new()
    }
}

/// The role of a caller for a module.
pub enum ModuleFetch {
    /// The module is in the cache: here is its text.
    Cached(Arc<str>),
    /// The module is being fetched: wait for it.
    Wait(ModuleFetchWaiter),
    /// Nobody fetches the module: fetch it, and then fulfil the lease, or
    /// abort it.
    Lead(ModuleFetchLease),
}

/// The role of a caller for a module.
pub enum RoleView {
    Cached(Seq<char>),
    Wait(Receiver<Option<Arc<str>>>),
    Lead(LeaseView),
}

/// What a lease is for, and the ends of the leader's channel.
pub struct LeaseView {
    pub key: KeyView,
    pub sender: Sender<Option<Arc<str>>>,
    /// The receiver that those who wait look at.
    pub receiver: Receiver<Option<Arc<str>>>,
}

impl LeaseView {
    /// Whether the receiver is the other end of the leader's channel.
    pub open spec fn linked(self) -> bool {
        text_channel::joined(self.sender, self.receiver)
    }

    /// What the leader's channel was made with.
    pub open spec fn initial(self) -> Option<Seq<char>> {
        text_channel::initial(self.sender)
    }

    /// Whether every receiver was gone when the leader was done.
    pub open spec fn deserted(self) -> bool {
        text_channel::deserted(self.sender)
    }
}

impl View for ModuleFetch {
    type V = RoleView;

    open spec fn view(&self) -> RoleView {
        match self {
            ModuleFetch::Cached(text) => RoleView::Cached(text@),
            ModuleFetch::Wait(waiter) => RoleView::Wait(waiter@),
            ModuleFetch::Lead(lease) => RoleView::Lead(lease@),
        }
    }
}

/// Waits for a fetch in flight.
#[derive(Debug)]
pub struct ModuleFetchWaiter {
    rx: Receiver<Option<Arc<str>>>,
}

impl View for ModuleFetchWaiter {
    type V = Receiver<Option<Arc<str>>>;

    closed spec fn view(&self) -> Receiver<Option<Arc<str>>> {
        self.rx
    }
}

/// What happened to one who waits.
#[derive(Debug)]
pub enum WaitEvent {
    /// This was found on the channel.
    Seen(Option<Arc<str>>),
    /// The leader is gone, and nothing was found on the channel.
    Closed,
}

impl WaitEvent {
    /// What happened, where this was found on the channel after it was asked
    /// whether the leader was gone.
    pub fn new(seen: Option<Arc<str>>, gone: bool) -> (r: Self)
        ensures
            r == (if gone && seen is None {
                WaitEvent::Closed
            } else {
                WaitEvent::Seen(seen)
            }),
    {
        if gone && seen.is_none() {
            WaitEvent::Closed
        } else {
            WaitEvent::Seen(seen)
        }
    }
}

/// Whether this happens to one who waits with `before` and looks, and is left
/// with `after`. A text that is seen is one that the channel carries. When the
/// leader is gone, what is seen is what the channel holds in the end; and it is
/// told that the leader is gone if and only if the channel holds nothing in the
/// end. One who finds the leader gone was not gone before the leader.
pub open spec fn looks(
    before: Receiver<Option<Arc<str>>>,
    event: WaitEvent,
    after: Receiver<Option<Arc<str>>>,
) -> bool {
    &&& text_channel::same_channel(before, after)
    &&& text_channel::closed(after) ==> forall|tx: Sender<Option<Arc<str>>>| #[trigger]
        text_channel::joined(tx, after) ==> !text_channel::deserted(tx)
    &&& match event {
        WaitEvent::Seen(text) => {
            &&& text_channel::carried(before, text_channel::text_view(text))
            &&& text_channel::closed(after) ==> text is Some && text_channel::text_view(text)
                == text_channel::last(before)
        },
        WaitEvent::Closed => {
            &&& text_channel::closed(after)
            &&& text_channel::last(before) is None
        },
    }
}

/// What one who waits is to do.
#[derive(Debug)]
pub enum WaitStep {
    /// Wait for the channel to change, and look again.
    Await,
    /// Stop waiting: with the text, or without one, to ask the cache again.
    Done(Option<Arc<str>>),
}

/// What one who waits is to do upon an event: with the text the wait is over;
/// when the leader is gone it is over without one.
pub open spec fn step_upon(event: WaitEvent) -> WaitStep {
    match event {
        WaitEvent::Seen(Some(text)) => WaitStep::Done(Some(text)),
        WaitEvent::Seen(None) => WaitStep::Await,
        WaitEvent::Closed => WaitStep::Done(None),
    }
}

impl ModuleFetchWaiter {
    /// Looks at the channel. Whether the leader is gone, and which of the things
    /// that the channel holds at some time is there until then, depends on the
    /// leader.
    pub fn look(&mut self) -> (r: WaitEvent)
        ensures
            looks(old(self)@, r, final(self)@),
    {
        let gone: bool = is_closed(&mut self.rx);
        WaitEvent::new(current(&self.rx), gone)
    }

    /// A receiver of the channel that has seen as much as this one, for waiting
    /// until the channel changes.
    pub fn receiver(&self) -> (r: Receiver<Option<Arc<str>>>)
        ensures
            r == self@,
    {
        clone_receiver(&self.rx)
    }
}

/// The counter one further on. It starts anew behind its last value.
pub open spec fn next(counter: u64) -> u64 {
    if counter == u64::MAX {
        0
    } else {
        (counter + 1) as u64
    }
}

fn count(counter: u64) -> (r: u64)
    ensures
        r == next(counter),
{
    counter.wrapping_add(1)
}

/// Held by the leader while it fetches a module.
pub struct ModuleFetchLease {
    name: String,
    revision: String,
    tx: Sender<Option<Arc<str>>>,
    rx: Ghost<Receiver<Option<Arc<str>>>>,
}

impl View for ModuleFetchLease {
    type V = LeaseView;

    closed spec fn view(&self) -> LeaseView {
        LeaseView {
            key: (self.name@, self.revision@),
            sender: self.tx,
            receiver: self.rx@,
        }
    }
}

/// The cache once a lease is fulfilled with a text.
pub open spec fn fulfils(cache: CacheView, lease: LeaseView, text: Seq<char>) -> CacheView {
    CacheView {
        entries: cache.entries.insert(lease.key, EntryView::Ready(text)),
        stats: YangModuleCacheStats { size: next(cache.stats.size), ..cache.stats },
    }
}

/// What becomes of the leader's channel when a text is published on it, and
/// `heard` tells that it was taken. If it was, the channel holds the text at
/// some time and in the end, and never anything but the text and what it was
/// made with. Otherwise every receiver was gone, and it never holds anything but
/// what it was made with.
pub open spec fn publishes(lease: LeaseView, text: Seq<char>, heard: bool) -> bool {
    &&& heard && lease.linked() ==> text_channel::carried(lease.receiver, Some(text))
    &&& heard && lease.linked() ==> text_channel::last(lease.receiver) == Some(text)
    &&& heard && lease.linked() ==> forall|seen: Option<Seq<char>>| #[trigger]
        text_channel::carried(lease.receiver, seen) ==> seen == Some(text) || seen == lease.initial()
    &&& heard == !lease.deserted()
    &&& !heard && lease.linked() ==> text_channel::last(lease.receiver) == lease.initial()
    &&& !heard && lease.linked() ==> forall|seen: Option<Seq<char>>| #[trigger]
        text_channel::carried(lease.receiver, seen) ==> seen == lease.initial()
}

/// What becomes of the leader's channel when a lease is given up: it never holds
/// anything but what it was made with.
pub open spec fn withdraws(lease: LeaseView) -> bool {
    &&& lease.linked() ==> text_channel::last(lease.receiver) == lease.initial()
    &&& lease.linked() ==> forall|seen: Option<Seq<char>>| #[trigger]
        text_channel::carried(lease.receiver, seen) ==> seen == lease.initial()
}

/// The cache once a lease is given up: nobody fetches the module any more.
pub open spec fn aborts(cache: CacheView, lease: LeaseView) -> CacheView {
    if cache.entries.contains_key(lease.key) && cache.entries[lease.key] is InFlight {
        CacheView { entries: cache.entries.remove(lease.key), ..cache }
    } else {
        cache
    }
}

impl ModuleFetchLease {
    /// Puts the text into the cache, and publishes it to those who wait. It
    /// returns whether there was anyone.
    pub fn fulfil(self, cache: &mut YangModuleCache, text: Arc<str>) -> (r: bool)
        requires
            old(cache).wf(),
        ensures
            final(cache).wf(),
            final(cache)@ == fulfils(old(cache)@, self@, text@),
            publishes(self@, text@, r),
    {
        let entry = ModuleEntry::Ready(share(&text));
        cache.put(self.name.clone(), self.revision.clone(), entry);
        cache.stats.size = count(cache.stats.size);
        send(self.tx, Some(text))
    }

    /// Gives the lease up, so that the next caller leads. Nothing is published:
    /// those who wait find nothing, and end without a text once they find the
    /// leader gone.
    pub fn abort(self, cache: &mut YangModuleCache)
        requires
            old(cache).wf(),
        ensures
            final(cache).wf(),
            final(cache)@ == aborts(old(cache)@, self@),
            withdraws(self@),
    {
        match cache.find(&self.name, &self.revision) {
            Some(i) => {
                let in_flight: bool = match &cache.slots[i].entry {
                    ModuleEntry::InFlight(_) => true,
                    ModuleEntry::Ready(_) => false,
                };
                if in_flight {
                    proof {
                        lemma_position(cache.slots@, i as int);
                        lemma_remove(cache.slots@, i as int);
                    }
                    let _ = cache.slots.remove(i);
                } else {
                    proof {
                        lemma_position(cache.slots@, i as int);
                    }
                }
            },
            None => {},
        }
        let _ = withdraw(self.tx);
    }
}

/// The cache once something happened to one who waits: a wait that brings a text
/// is counted.
pub open spec fn waits(cache: CacheView, event: WaitEvent) -> CacheView {
    if event matches WaitEvent::Seen(Some(_)) {
        CacheView {
            stats: YangModuleCacheStats { coalesced: next(cache.stats.coalesced), ..cache.stats },
            ..cache
        }
    } else {
        cache
    }
}

/// Whether `role` is the role of a caller for a module, and `after` the cache
/// that it leaves behind.
pub open spec fn begins(
    before: CacheView,
    key: KeyView,
    role: RoleView,
    after: CacheView,
) -> bool {
    if !before.entries.contains_key(key) {
        &&& role matches RoleView::Lead(lease)
        &&& lease.key == key
        &&& lease.linked()
        &&& lease.initial() is None
        &&& after == (CacheView {
            entries: before.entries.insert(key, EntryView::InFlight(lease.receiver)),
            stats: YangModuleCacheStats { misses: next(before.stats.misses), ..before.stats },
        })
    } else {
        match before.entries[key] {
            EntryView::Ready(text) => {
                &&& role == RoleView::Cached(text)
                &&& after == (CacheView {
                    stats: YangModuleCacheStats { hits: next(before.stats.hits), ..before.stats },
                    ..before
                })
            },
            EntryView::InFlight(receiver) => {
                &&& role == RoleView::Wait(receiver)
                &&& after == before
            },
        }
    }
}

/// The cache once a text was put in for a module: the first to write wins.
pub open spec fn inserts(cache: CacheView, key: KeyView, text: Seq<char>) -> CacheView {
    if cache.entries.contains_key(key) {
        cache
    } else {
        CacheView {
            entries: cache.entries.insert(key, EntryView::Ready(text)),
            stats: YangModuleCacheStats { size: next(cache.stats.size), ..cache.stats },
        }
    }
}

/// Whether `found` is the text of a module, and `after` the cache that asking
/// for it leaves behind. A module that is still being fetched counts as a miss.
pub open spec fn gets(
    before: CacheView,
    key: KeyView,
    found: Option<Seq<char>>,
    after: CacheView,
) -> bool {
    if before.ready().contains(key) {
        &&& found is Some
        &&& before.entries[key] == EntryView::Ready(found->0)
        &&& after == (CacheView {
            stats: YangModuleCacheStats { hits: next(before.stats.hits), ..before.stats },
            ..before
        })
    } else {
        &&& found is None
        &&& after == (CacheView {
            stats: YangModuleCacheStats { misses: next(before.stats.misses), ..before.stats },
            ..before
        })
    }
}

impl YangModuleCache {
    /// Whether no module has two entries.
    pub closed spec fn wf(&self) -> bool {
        distinct(self.slots@)
    }

    pub fn new() -> (r: Self)
        ensures
            r.wf(),
            r@ == CacheView::empty(),
    {
        let r = YangModuleCache { slots: Vec::new(), stats: YangModuleCacheStats::default() };
        assert(r@.entries =~= Map::<KeyView, EntryView>::empty());
        r
    }

    /// What came of the requests so far.
    pub fn stats(&self) -> (r: &YangModuleCacheStats)
        ensures
            *r == self@.stats,
    {
        &self.stats
    }

    /// Moves one who waits on by one event: with the text the wait is over, and
    /// a fetch was avoided; when the leader is gone it is over without one.
    pub fn wait(&mut self, event: WaitEvent) -> (r: WaitStep)
        requires
            old(self).wf(),
        ensures
            final(self).wf(),
            r == step_upon(event),
            final(self)@ == waits(old(self)@, event),
    {
        match event {
            WaitEvent::Seen(Some(text)) => {
                self.stats.coalesced = count(self.stats.coalesced);
                WaitStep::Done(Some(text))
            },
            WaitEvent::Seen(None) => WaitStep::Await,
            WaitEvent::Closed => WaitStep::Done(None),
        }
    }

    fn find(&self, name: &String, revision: &String) -> (r: Option<usize>)
        requires
            self.wf(),
        ensures
            match r {
                Some(i) => at(self.slots@, (name@, revision@), i as int),
                None => !known(self.slots@, (name@, revision@)),
            },
    {
        let mut i: usize = 0;
        while i < self.slots.len()
            invariant
                i <= self.slots@.len(),
                forall|j: int| 0 <= j < i ==> !at(self.slots@, (name@, revision@), j),
            decreases self.slots@.len() - i,
        {
            if self.slots[i].name == *name && self.slots[i].revision == *revision {
                return Some(i);
            }
            i += 1;
        }
        None
    }

    fn put(&mut self, name: String, revision: String, entry: ModuleEntry)
        requires
            old(self).wf(),
        ensures
            final(self).wf(),
            final(self)@ == (CacheView {
                entries: old(self)@.entries.insert((name@, revision@), entry@),
                ..old(self)@
            }),
    {
        let found = self.find(&name, &revision);
        let slot = Slot { name, revision, entry };
        match found {
            Some(i) => {
                proof {
                    lemma_update(self.slots@, i as int, slot);
                }
                self.slots.set(i, slot);
            },
            None => {
                proof {
                    lemma_push(self.slots@, slot);
                }
                self.slots.push(slot);
            },
        }
    }

    /// The role of a caller for a module: it is served from the cache, waits
    /// for a fetch in flight, or leads.
    pub fn begin_fetch(&mut self, name: &str, revision: &str) -> (r: ModuleFetch)
        requires
            old(self).wf(),
        ensures
            final(self).wf(),
            begins(old(self)@, (name@, revision@), r@, final(self)@),
    {
        let name: String = name.to_owned();
        let revision: String = revision.to_owned();
        match self.find(&name, &revision) {
            Some(i) => {
                proof {
                    lemma_position(self.slots@, i as int);
                }
                match &self.slots[i].entry {
                    ModuleEntry::Ready(text) => {
                        let text = share(text);
                        self.stats.hits = count(self.stats.hits);
                        ModuleFetch::Cached(text)
                    },
                    ModuleEntry::InFlight(rx) => ModuleFetch::Wait(
                        ModuleFetchWaiter { rx: clone_receiver(rx) },
                    ),
                }
            },
            None => {
                self.stats.misses = count(self.stats.misses);
                let (tx, rx) = channel(None);
                let seen = Ghost(rx);
                self.put(name.clone(), revision.clone(), ModuleEntry::InFlight(rx));
                ModuleFetch::Lead(
                    ModuleFetchLease { name, revision, tx, rx: seen },
                )
            },
        }
    }

    /// The text of a module, if it is in the cache. A module that is still
    /// being fetched counts as a miss.
    pub fn get(&mut self, name: &str, revision: &str) -> (r: Option<Arc<str>>)
        requires
            old(self).wf(),
        ensures
            final(self).wf(),
            gets(old(self)@, (name@, revision@), text_channel::text_view(r), final(self)@),
    {
        let found = match self.find(&name.to_owned(), &revision.to_owned()) {
            Some(i) => {
                proof {
                    lemma_position(self.slots@, i as int);
                }
                match &self.slots[i].entry {
                    ModuleEntry::Ready(text) => Some(share(text)),
                    ModuleEntry::InFlight(_) => None,
                }
            },
            None => None,
        };
        if found.is_some() {
            self.stats.hits = count(self.stats.hits);
        } else {
            self.stats.misses = count(self.stats.misses);
        }
        found
    }

    /// Puts the text of a module into the cache, unless something is known of
    /// the module: the first to write wins.
    pub fn insert(&mut self, name: &str, revision: &str, text: Arc<str>)
        requires
            old(self).wf(),
        ensures
            final(self).wf(),
            final(self)@ == inserts(old(self)@, (name@, revision@), text@),
    {
        let name: String = name.to_owned();
        let revision: String = revision.to_owned();
        if self.find(&name, &revision).is_none() {
            self.put(name, revision, ModuleEntry::Ready(text));
            self.stats.size = count(self.stats.size);
        }
    }

    /// The number of modules in the cache, those not counted that are being
    /// fetched.
    pub fn len(&self) -> (r: usize)
        requires
            self.wf(),
        ensures
            self@.ready().finite(),
            r == self@.ready().len(),
    {
        let mut n: usize = 0;
        let mut i: usize = 0;
        let ghost mut seen: Set<KeyView> = Set::empty();
        while i < self.slots.len()
            invariant
                self.wf(),
                n <= i <= self.slots@.len(),
                seen.finite(),
                seen.len() == n,
                forall|k: KeyView| #[trigger]
                    seen.contains(k) <==> exists|j: int|
                        0 <= j < i && at(self.slots@, k, j) && self.slots@[j].entry@ is Ready,
            decreases self.slots@.len() - i,
        {
            let ready: bool = match &self.slots[i].entry {
                ModuleEntry::Ready(_) => true,
                ModuleEntry::InFlight(_) => false,
            };
            let ghost key = self.slots@[i as int].key();
            let ghost before = seen;
            if ready {
                n += 1;
                proof {
                    assert(!before.contains(key));
                    seen = seen.insert(key);
                }
            }
            proof {
                assert forall|k: KeyView| #[trigger]
                    seen.contains(k) <==> exists|j: int|
                        0 <= j < i + 1 && at(self.slots@, k, j) && self.slots@[j].entry@ is Ready by {
                    if seen.contains(k) {
                        if ready && k == key {
                            assert(at(self.slots@, k, i as int));
                        } else {
                            let j = choose|j: int|
                                0 <= j < i && at(self.slots@, k, j) && self.slots@[j].entry@ is Ready;
                            assert(at(self.slots@, k, j));
                        }
                    }
                    if exists|j: int|
                        0 <= j < i + 1 && at(self.slots@, k, j) && self.slots@[j].entry@ is Ready {
                        let j = choose|j: int|
                            0 <= j < i + 1 && at(self.slots@, k, j)
                                && self.slots@[j].entry@ is Ready;
                        if j < i {
                            assert(before.contains(k));
                        }
                    }
                }
            }
            i += 1;
        }
        assert forall|k: KeyView| seen.contains(k) == self@.ready().contains(k) by {
            if self@.ready().contains(k) {
                assert(at(self.slots@, k, position(self.slots@, k)));
            }
            if seen.contains(k) {
                let j = choose|j: int|
                    0 <= j < i && at(self.slots@, k, j) && self.slots@[j].entry@ is Ready;
                lemma_position(self.slots@, j);
            }
        }
        assert(seen =~= self@.ready());
        n
    }

    /// Whether no module is in the cache.
    pub fn is_empty(&self) -> (r: bool)
        requires
            self.wf(),
        ensures
            r == (self@.ready() == Set::<KeyView>::empty()),
    {
        let n: usize = self.len();
        proof {
            if n == 0 {
                assert(self@.ready() =~= Set::<KeyView>::empty());
            }
        }
        n == 0
    }
}

} // verus!
