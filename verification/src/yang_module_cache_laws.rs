//! What holds of the module cache whoever calls it, and in whatever order.

use crate::text_channel;
use crate::text_channel::Text;
use crate::yang_module_cache;
use crate::yang_module_cache::{
    CacheView, EntryView, KeyView, LeaseView, ModuleFetch, RoleView, WaitEvent, WaitStep,
    YangModuleCacheStats,
};
use tokio::sync::watch::Receiver;
use vstd::prelude::*;

verus! {

/// Something that happens to the cache, or to one who waits.
pub enum CacheEvent {
    /// A caller asks for a module and gets a role.
    Begin(KeyView, RoleView),
    /// A leader brings the text, which was taken or not.
    Fulfil(LeaseView, Seq<char>, bool),
    /// A leader gives up.
    Abort(LeaseView),
    /// One who waits, by the number of those who were told to wait before it,
    /// looks at the channel, and goes on with what it saw.
    Look(nat, WaitEvent),
    /// A text is put in from elsewhere.
    Insert(KeyView, Seq<char>),
    /// The text of a module is asked for, without a role.
    Get(KeyView, Option<Seq<char>>),
}

impl CacheEvent {
    /// Whether the event spends the lease.
    pub open spec fn spends(self, lease: LeaseView) -> bool {
        match self {
            CacheEvent::Fulfil(spent, _, _) => spent == lease,
            CacheEvent::Abort(spent) => spent == lease,
            _ => false,
        }
    }

    /// The module that the event is about, if it is about one.
    pub open spec fn key(self) -> Option<KeyView> {
        match self {
            CacheEvent::Begin(key, _) => Some(key),
            CacheEvent::Fulfil(lease, _, _) => Some(lease.key),
            CacheEvent::Abort(lease) => Some(lease.key),
            CacheEvent::Insert(key, _) => Some(key),
            CacheEvent::Get(key, _) => Some(key),
            _ => None,
        }
    }
}

/// Whether the event takes the cache from `before` to `after`.
pub open spec fn moves(before: CacheView, event: CacheEvent, after: CacheView) -> bool {
    match event {
        CacheEvent::Begin(key, role) => yang_module_cache::begins(before, key, role, after),
        CacheEvent::Fulfil(lease, text, heard) => {
            &&& after == yang_module_cache::fulfils(before, lease, text)
            &&& yang_module_cache::publishes(lease, text, heard)
        },
        CacheEvent::Abort(lease) => {
            &&& after == yang_module_cache::aborts(before, lease)
            &&& yang_module_cache::withdraws(lease)
        },
        CacheEvent::Look(_, event) => after == yang_module_cache::waits(before, event),
        CacheEvent::Insert(key, text) => after == yang_module_cache::inserts(before, key, text),
        CacheEvent::Get(key, found) => yang_module_cache::gets(before, key, found, after),
    }
}

/// A cache, the leases on it that are out, and those who were told to wait, in
/// the order in which they were told.
pub struct World {
    pub cache: CacheView,
    pub leases: Set<LeaseView>,
    pub waiters: Seq<Receiver<Text>>,
}

/// Whether the event takes those who wait from the one to the other.
pub open spec fn waiting(
    before: Seq<Receiver<Text>>,
    event: CacheEvent,
    after: Seq<Receiver<Text>>,
) -> bool {
    match event {
        CacheEvent::Begin(_, RoleView::Wait(receiver)) => after == before.push(receiver),
        CacheEvent::Look(n, seen) => {
            &&& n < before.len()
            &&& after == before.update(n as int, after[n as int])
            &&& yang_module_cache::looks(before[n as int], seen, after[n as int])
        },
        _ => after == before,
    }
}

/// Whether the event takes the one to the other. A lease comes from a caller
/// that leads, and is spent at most once: by fulfilling it or by giving it up.
pub open spec fn happens(before: World, event: CacheEvent, after: World) -> bool {
    &&& moves(before.cache, event, after.cache)
    &&& waiting(before.waiters, event, after.waiters)
    &&& match event {
        CacheEvent::Begin(_, RoleView::Lead(lease)) => after.leases == before.leases.insert(lease),
        CacheEvent::Fulfil(lease, _, _) => before.leases.contains(lease) && after.leases
            == before.leases.remove(lease),
        CacheEvent::Abort(lease) => before.leases.contains(lease) && after.leases
            == before.leases.remove(lease),
        _ => after.leases == before.leases,
    }
}

/// Whether the events take a new cache through the worlds, one after the other.
pub open spec fn runs(worlds: Seq<World>, events: Seq<CacheEvent>) -> bool {
    &&& worlds.len() == events.len() + 1
    &&& worlds[0] == (World {
        cache: CacheView::empty(),
        leases: Set::empty(),
        waiters: Seq::empty(),
    })
    &&& forall|i: int|
        0 <= i < events.len() ==> happens(worlds[i], #[trigger] events[i], worlds[i + 1])
}

/// What the cache knows of the module, if anything.
pub open spec fn known(cache: CacheView, key: KeyView) -> Option<EntryView> {
    if cache.entries.contains_key(key) {
        Some(cache.entries[key])
    } else {
        None
    }
}

/// Whether the size counter tells the number of modules in the cache, as far as
/// its 64 bits go.
pub open spec fn counted(cache: CacheView) -> bool {
    &&& cache.ready().finite()
    &&& cache.stats.size == cache.ready().len() % 0x1_0000_0000_0000_0000
}

/// Whether the module of the lease is in flight, and those who wait for it hold
/// the other end of the leader's channel.
pub open spec fn live(cache: CacheView, lease: LeaseView) -> bool {
    &&& known(cache, lease.key) == Some(EntryView::InFlight(lease.receiver))
    &&& lease.linked()
    &&& lease.initial() is None
}

/// What holds in every world that is reached.
pub open spec fn in_order(world: World) -> bool {
    &&& counted(world.cache)
    &&& forall|lease: LeaseView| #[trigger]
        world.leases.contains(lease) ==> live(world.cache, lease)
    &&& forall|a: LeaseView, b: LeaseView| #[trigger]
        world.leases.contains(a) && #[trigger] world.leases.contains(b) && a.key == b.key ==> a == b
}

proof fn lemma_happens(before: World, event: CacheEvent, after: World)
    requires
        in_order(before),
        happens(before, event, after),
    ensures
        in_order(after),
{
    match event {
        CacheEvent::Fulfil(lease, _, _) => {
            assert(live(before.cache, lease));
            assert(after.cache.ready() =~= before.cache.ready().insert(lease.key));
        },
        CacheEvent::Insert(key, _) => {
            if !before.cache.entries.contains_key(key) {
                assert(after.cache.ready() =~= before.cache.ready().insert(key));
            } else {
                assert(after.cache.ready() =~= before.cache.ready());
            }
        },
        _ => {
            assert(after.cache.ready() =~= before.cache.ready());
        },
    }
    assert forall|lease: LeaseView| #[trigger] after.leases.contains(lease) implies live(
        after.cache,
        lease,
    ) by {
        if before.leases.contains(lease) {
            assert(live(before.cache, lease));
        }
    }
    assert forall|a: LeaseView, b: LeaseView| #[trigger]
        after.leases.contains(a) && #[trigger] after.leases.contains(b) && a.key
            == b.key implies a == b by {
        if before.leases.contains(a) {
            assert(live(before.cache, a));
        }
        if before.leases.contains(b) {
            assert(live(before.cache, b));
        }
    }
}

proof fn lemma_in_order(worlds: Seq<World>, events: Seq<CacheEvent>, n: int)
    requires
        runs(worlds, events),
        0 <= n <= events.len(),
    ensures
        in_order(worlds[n]),
    decreases n,
{
    if n == 0 {
        assert(CacheView::empty().ready() =~= Set::<KeyView>::empty());
    } else {
        lemma_in_order(worlds, events, n - 1);
        assert(happens(worlds[n - 1], events[n - 1], worlds[n]));
        lemma_happens(worlds[n - 1], events[n - 1], worlds[n]);
    }
}

/// At any time the size counter tells the number of modules whose text is in
/// the cache, those not counted that are in flight.
pub proof fn law_size_counts_modules(worlds: Seq<World>, events: Seq<CacheEvent>, n: int)
    requires
        runs(worlds, events),
        0 <= n <= events.len(),
    ensures
        counted(worlds[n].cache),
        worlds[n].cache.ready().len() <= u64::MAX ==> worlds[n].cache.stats.size
            == worlds[n].cache.ready().len(),
        worlds[0].cache.stats.size == 0,
{
    lemma_in_order(worlds, events, n);
}

/// Whether the lease is handed out at `i`, and not spent from then up to `j`.
pub open spec fn out_between(
    events: Seq<CacheEvent>,
    lease: LeaseView,
    i: int,
    j: int,
) -> bool {
    &&& 0 <= i < j <= events.len()
    &&& events[i] == CacheEvent::Begin(lease.key, RoleView::Lead(lease))
    &&& forall|k: int| i < k < j ==> !(#[trigger] events[k]).spends(lease)
}

proof fn lemma_out(
    worlds: Seq<World>,
    events: Seq<CacheEvent>,
    lease: LeaseView,
    i: int,
    j: int,
)
    requires
        runs(worlds, events),
        out_between(events, lease, i, j),
    ensures
        worlds[j].leases.contains(lease),
        live(worlds[j].cache, lease),
    decreases j,
{
    assert(happens(worlds[j - 1], events[j - 1], worlds[j]));
    if j > i + 1 {
        lemma_out(worlds, events, lease, i, j - 1);
        assert(!events[j - 1].spends(lease));
    }
    lemma_in_order(worlds, events, j);
}

/// While a lease is out, everyone who asks for its module waits on the leader's
/// channel, whatever else happens: nobody else fetches the module, and asking
/// for it changes and counts nothing.
pub proof fn law_single_flight(
    worlds: Seq<World>,
    events: Seq<CacheEvent>,
    lease: LeaseView,
    i: int,
    j: int,
    role: RoleView,
)
    requires
        runs(worlds, events),
        j < events.len(),
        out_between(events, lease, i, j),
        events[j] == CacheEvent::Begin(lease.key, role),
    ensures
        role == RoleView::Wait(lease.receiver),
        worlds[j + 1].cache == worlds[j].cache,
{
    lemma_out(worlds, events, lease, i, j);
    assert(happens(worlds[j], events[j], worlds[j + 1]));
}

proof fn lemma_waiter(worlds: Seq<World>, events: Seq<CacheEvent>, n: int, i: int, j: int)
    requires
        runs(worlds, events),
        0 <= i <= j <= events.len(),
        0 <= n < worlds[i].waiters.len(),
    ensures
        n < worlds[j].waiters.len(),
        text_channel::same_channel(worlds[i].waiters[n], worlds[j].waiters[n]),
    decreases j,
{
    if i < j {
        lemma_waiter(worlds, events, n, i, j - 1);
        assert(happens(worlds[j - 1], events[j - 1], worlds[j]));
        let (a, b, c) = (
            worlds[i].waiters[n],
            worlds[j - 1].waiters[n],
            worlds[j].waiters[n],
        );
        assert(text_channel::same_channel(b, c));
        assert forall|tx: tokio::sync::watch::Sender<Text>|
            #![trigger text_channel::joined(tx, c)]
            text_channel::joined(tx, a) == text_channel::joined(tx, c) by {
            assert(text_channel::joined(tx, b) == text_channel::joined(tx, c));
        }
        assert forall|text: Option<Seq<char>>|
            #![trigger text_channel::carried(c, text)]
            text_channel::carried(a, text) == text_channel::carried(c, text) by {
            assert(text_channel::carried(b, text) == text_channel::carried(c, text));
        }
    }
}

/// Whether the one who was told to wait at `j` finds the leader gone when it looks
/// at `l`.
pub open spec fn finds_gone(worlds: Seq<World>, j: int, l: int) -> bool {
    text_channel::closed(worlds[l + 1].waiters[worlds[j].waiters.len() as int])
}

/// What one who was told to wait while the lease was out sees when it looks: what
/// the leader's channel carries. If it finds the leader gone, not everyone was
/// gone before the leader.
proof fn lemma_look(
    worlds: Seq<World>,
    events: Seq<CacheEvent>,
    lease: LeaseView,
    i: int,
    j: int,
    receiver: Receiver<Text>,
    l: int,
    event: WaitEvent,
)
    requires
        runs(worlds, events),
        j < l < events.len(),
        out_between(events, lease, i, j),
        events[j] == CacheEvent::Begin(lease.key, RoleView::Wait(receiver)),
        events[l] == CacheEvent::Look(worlds[j].waiters.len(), event),
    ensures
        receiver == lease.receiver,
        event matches WaitEvent::Seen(seen) ==> text_channel::carried(
            receiver,
            text_channel::text_view(seen),
        ),
        event is Closed ==> finds_gone(worlds, j, l) && text_channel::last(receiver) is None,
        finds_gone(worlds, j, l) ==> !lease.deserted(),
        finds_gone(worlds, j, l) ==> (event matches WaitEvent::Seen(seen) ==> seen is Some),
        worlds[l + 1].cache == yang_module_cache::waits(worlds[l].cache, event),
{
    let n = worlds[j].waiters.len() as int;
    law_single_flight(worlds, events, lease, i, j, RoleView::Wait(receiver));
    lemma_out(worlds, events, lease, i, j);
    assert(happens(worlds[j], events[j], worlds[j + 1]));
    assert(happens(worlds[l], events[l], worlds[l + 1]));
    lemma_waiter(worlds, events, n, j + 1, l);
    let w = worlds[l].waiters[n];
    assert(text_channel::same_channel(receiver, w));
    assert(yang_module_cache::looks(w, event, worlds[l + 1].waiters[n]));
    assert(text_channel::joined(lease.sender, w));
    assert(text_channel::joined(lease.sender, worlds[l + 1].waiters[n]));
    if let WaitEvent::Seen(seen) = event {
        assert(text_channel::carried(w, text_channel::text_view(seen)));
    }
}

/// Everyone who waits for a leader gets the text that the leader brings. Take
/// one who was told to wait while the lease was out, and any look of it, when
/// the leader brings a text. The wait goes on or ends with that text, and is then
/// counted: it never ends with another, and never without one. From the time that
/// the leader is found gone the wait is over. The text was taken and is there to
/// be seen, unless all who waited were gone.
pub proof fn law_waiters_get_the_text(
    worlds: Seq<World>,
    events: Seq<CacheEvent>,
    lease: LeaseView,
    i: int,
    j: int,
    receiver: Receiver<Text>,
    k: int,
    text: Seq<char>,
    heard: bool,
    l: int,
    event: WaitEvent,
)
    requires
        runs(worlds, events),
        i < j < k < events.len(),
        j < l < events.len(),
        out_between(events, lease, i, k),
        events[j] == CacheEvent::Begin(lease.key, RoleView::Wait(receiver)),
        events[k] == CacheEvent::Fulfil(lease, text, heard),
        events[l] == CacheEvent::Look(worlds[j].waiters.len(), event),
    ensures
        receiver == lease.receiver,
        match yang_module_cache::step_upon(event) {
            WaitStep::Await => worlds[l + 1].cache == worlds[l].cache,
            WaitStep::Done(got) => {
                &&& text_channel::text_view(got) == Some(text)
                &&& worlds[l + 1].cache.entries == worlds[l].cache.entries
                &&& worlds[l + 1].cache.stats.coalesced == yang_module_cache::next(
                    worlds[l].cache.stats.coalesced,
                )
            },
        },
        finds_gone(worlds, j, l) ==> yang_module_cache::step_upon(event) is Done,
        finds_gone(worlds, j, l) ==> heard,
        heard ==> text_channel::carried(receiver, Some(text)),
        !heard ==> lease.deserted(),
{
    assert(out_between(events, lease, i, j));
    lemma_look(worlds, events, lease, i, j, receiver, l, event);
    lemma_out(worlds, events, lease, i, k);
    assert(happens(worlds[k], events[k], worlds[k + 1]));
}

/// Everyone who waits for a leader that gives up is set free to ask again. Take
/// one who was told to wait while the lease was out, and any look of it, when the
/// leader gives up. The wait goes on or ends without a text, and nothing is
/// counted. From the time that the leader is found gone the wait is over.
pub proof fn law_waiters_are_freed_by_abort(
    worlds: Seq<World>,
    events: Seq<CacheEvent>,
    lease: LeaseView,
    i: int,
    j: int,
    receiver: Receiver<Text>,
    k: int,
    l: int,
    event: WaitEvent,
)
    requires
        runs(worlds, events),
        i < j < k < events.len(),
        j < l < events.len(),
        out_between(events, lease, i, k),
        events[j] == CacheEvent::Begin(lease.key, RoleView::Wait(receiver)),
        events[k] == CacheEvent::Abort(lease),
        events[l] == CacheEvent::Look(worlds[j].waiters.len(), event),
    ensures
        receiver == lease.receiver,
        yang_module_cache::step_upon(event) == (if finds_gone(worlds, j, l) {
            WaitStep::Done(None)
        } else {
            WaitStep::Await
        }),
        worlds[l + 1].cache == worlds[l].cache,
{
    assert(out_between(events, lease, i, j));
    lemma_look(worlds, events, lease, i, j, receiver, l, event);
    lemma_out(worlds, events, lease, i, k);
    assert(happens(worlds[k], events[k], worlds[k + 1]));
}

proof fn lemma_ready(
    worlds: Seq<World>,
    events: Seq<CacheEvent>,
    key: KeyView,
    text: Seq<char>,
    i: int,
    j: int,
)
    requires
        runs(worlds, events),
        0 <= i <= j <= events.len(),
        known(worlds[i].cache, key) == Some(EntryView::Ready(text)),
    ensures
        known(worlds[j].cache, key) == Some(EntryView::Ready(text)),
    decreases j,
{
    if i < j {
        lemma_ready(worlds, events, key, text, i, j - 1);
        lemma_in_order(worlds, events, j - 1);
        assert(happens(worlds[j - 1], events[j - 1], worlds[j]));
        match events[j - 1] {
            CacheEvent::Fulfil(lease, _, _) => {
                assert(live(worlds[j - 1].cache, lease));
            },
            CacheEvent::Abort(lease) => {
                assert(live(worlds[j - 1].cache, lease));
            },
            _ => {},
        }
    }
}

/// Once a leader has brought the text of a module, everyone who asks for the
/// module from then on is served that text, whatever else happens.
pub proof fn law_fetched_once(
    worlds: Seq<World>,
    events: Seq<CacheEvent>,
    lease: LeaseView,
    text: Seq<char>,
    heard: bool,
    i: int,
    j: int,
    role: RoleView,
)
    requires
        runs(worlds, events),
        0 <= i < j < events.len(),
        events[i] == CacheEvent::Fulfil(lease, text, heard),
        events[j] == CacheEvent::Begin(lease.key, role),
    ensures
        role == RoleView::Cached(text),
{
    assert(happens(worlds[i], events[i], worlds[i + 1]));
    lemma_ready(worlds, events, lease.key, text, i + 1, j);
    assert(happens(worlds[j], events[j], worlds[j + 1]));
}

/// A leader that brings the text makes the size grow by one, up to where the
/// counter starts anew, and changes no other counter.
pub proof fn law_fulfil_adds_one_module(
    worlds: Seq<World>,
    events: Seq<CacheEvent>,
    lease: LeaseView,
    text: Seq<char>,
    heard: bool,
    i: int,
)
    requires
        runs(worlds, events),
        0 <= i < events.len(),
        events[i] == CacheEvent::Fulfil(lease, text, heard),
    ensures
        !worlds[i].cache.ready().contains(lease.key),
        worlds[i + 1].cache.ready() == worlds[i].cache.ready().insert(lease.key),
        worlds[i + 1].cache.stats == (yang_module_cache::YangModuleCacheStats {
            size: yang_module_cache::next(worlds[i].cache.stats.size),
            ..worlds[i].cache.stats
        }),
{
    assert(happens(worlds[i], events[i], worlds[i + 1]));
    lemma_in_order(worlds, events, i);
    assert(live(worlds[i].cache, lease));
    assert(worlds[i + 1].cache.ready() =~= worlds[i].cache.ready().insert(lease.key));
}

/// When a leader gives up, nothing is counted, and the next who asks for the
/// module leads.
pub proof fn law_next_caller_leads_after_abort(
    worlds: Seq<World>,
    events: Seq<CacheEvent>,
    lease: LeaseView,
    i: int,
    j: int,
    role: RoleView,
)
    requires
        runs(worlds, events),
        0 <= i < j < events.len(),
        events[i] == CacheEvent::Abort(lease),
        events[j] == CacheEvent::Begin(lease.key, role),
        forall|k: int| i < k < j ==> (#[trigger] events[k]).key() != Some(lease.key),
    ensures
        worlds[i + 1].cache.stats == worlds[i].cache.stats,
        role is Lead,
{
    assert(happens(worlds[i], events[i], worlds[i + 1]));
    lemma_in_order(worlds, events, i);
    assert(live(worlds[i].cache, lease));
    lemma_untouched(worlds, events, lease.key, i + 1, j);
    assert(happens(worlds[j], events[j], worlds[j + 1]));
}

proof fn lemma_untouched(
    worlds: Seq<World>,
    events: Seq<CacheEvent>,
    key: KeyView,
    i: int,
    j: int,
)
    requires
        runs(worlds, events),
        0 <= i <= j <= events.len(),
        forall|k: int| i <= k < j ==> (#[trigger] events[k]).key() != Some(key),
    ensures
        known(worlds[j].cache, key) == known(worlds[i].cache, key),
    decreases j,
{
    if i < j {
        lemma_untouched(worlds, events, key, i, j - 1);
        assert(happens(worlds[j - 1], events[j - 1], worlds[j]));
        assert(events[j - 1].key() != Some(key));
    }
}

/// What happens to one module leaves every other as it is.
pub proof fn law_modules_are_independent(
    before: CacheView,
    event: CacheEvent,
    after: CacheView,
    key: KeyView,
)
    requires
        moves(before, event, after),
        event.key() != Some(key),
    ensures
        known(after, key) == known(before, key),
{
}

/// Every request that gets a role is counted as a hit or as a miss, or is left
/// to be counted when its wait brings a text.
pub proof fn law_requests_are_counted(
    before: CacheView,
    key: KeyView,
    role: RoleView,
    after: CacheView,
)
    requires
        yang_module_cache::begins(before, key, role, after),
    ensures
        after.stats.hits == (if role is Cached {
            yang_module_cache::next(before.stats.hits)
        } else {
            before.stats.hits
        }),
        after.stats.misses == (if role is Lead {
            yang_module_cache::next(before.stats.misses)
        } else {
            before.stats.misses
        }),
        after.stats.coalesced == before.stats.coalesced,
        after.stats.size == before.stats.size,
{
}

/// A text that is in the cache, whoever put it there, stays what it is, and is
/// what everyone gets who asks for the module: the first to write wins.
pub proof fn law_first_writer_wins(
    worlds: Seq<World>,
    events: Seq<CacheEvent>,
    key: KeyView,
    text: Seq<char>,
    i: int,
    j: int,
)
    requires
        runs(worlds, events),
        0 <= i <= j < events.len(),
        known(worlds[i].cache, key) == Some(EntryView::Ready(text)),
    ensures
        known(worlds[j].cache, key) == Some(EntryView::Ready(text)),
        events[j] matches CacheEvent::Get(asked, found) ==> (asked == key ==> found == Some(text)),
        events[j] matches CacheEvent::Begin(asked, role) ==> (asked == key ==> role
            == RoleView::Cached(text)),
{
    lemma_ready(worlds, events, key, text, i, j);
    assert(happens(worlds[j], events[j], worlds[j + 1]));
}

/// A counter goes up by one, and from its last value to zero.
pub proof fn law_counters_go_up(counter: u64)
    ensures
        counter < u64::MAX ==> yang_module_cache::next(counter) == counter + 1,
        counter == u64::MAX ==> yang_module_cache::next(counter) == 0,
{
}

/// A new cache knows nothing and has counted nothing. The modules whose text is
/// in a cache are those that it knows with their text.
pub proof fn law_what_is_in_a_cache(cache: CacheView, key: KeyView)
    ensures
        known(CacheView::empty(), key) is None,
        CacheView::empty().stats.hits == 0,
        CacheView::empty().stats.misses == 0,
        CacheView::empty().stats.coalesced == 0,
        CacheView::empty().stats.size == 0,
        cache.ready().contains(key) <==> (known(cache, key) matches Some(entry) && entry is Ready),
{
}

/// A caller leads if and only if nothing is known of the module, and then it is
/// in flight on the caller's channel, on which nothing was published yet. It is
/// served if and only if the text is there, with that text. Otherwise it waits on
/// the channel of the one who leads.
pub proof fn law_roles(before: CacheView, key: KeyView, role: RoleView, after: CacheView)
    requires
        yang_module_cache::begins(before, key, role, after),
    ensures
        match known(before, key) {
            None => {
                &&& role matches RoleView::Lead(lease)
                &&& lease.key == key
                &&& lease.linked()
                &&& lease.initial() is None
                &&& known(after, key) == Some(EntryView::InFlight(lease.receiver))
            },
            Some(EntryView::Ready(text)) => {
                &&& role == RoleView::Cached(text)
                &&& after.entries == before.entries
            },
            Some(EntryView::InFlight(receiver)) => {
                &&& role == RoleView::Wait(receiver)
                &&& after == before
            },
        },
{
}

/// What a leader brings is in the cache as it was brought. When a leader gives
/// up, what is in flight is known no longer, what is in the cache stays there,
/// and nothing is counted.
pub proof fn law_leases_are_spent(cache: CacheView, lease: LeaseView, text: Seq<char>)
    ensures
        known(yang_module_cache::fulfils(cache, lease, text), lease.key) == Some(
            EntryView::Ready(text),
        ),
        known(yang_module_cache::aborts(cache, lease), lease.key) == match known(
            cache,
            lease.key,
        ) {
            Some(EntryView::Ready(kept)) => Some(EntryView::Ready(kept)),
            _ => None,
        },
        yang_module_cache::aborts(cache, lease).stats == cache.stats,
{
}

/// A text that is put in is there, and counted, where nothing was known of the
/// module; otherwise nothing changes.
pub proof fn law_texts_are_put_in_once(cache: CacheView, key: KeyView, text: Seq<char>)
    ensures
        ({
            let after = yang_module_cache::inserts(cache, key, text);
            if known(cache, key) is None {
                &&& known(after, key) == Some(EntryView::Ready(text))
                &&& after.stats.size == yang_module_cache::next(cache.stats.size)
                &&& after.stats.hits == cache.stats.hits
                &&& after.stats.misses == cache.stats.misses
                &&& after.stats.coalesced == cache.stats.coalesced
            } else {
                after == cache
            }
        }),
{
}

/// Who asks for a text gets it where it is there, which is a hit; otherwise it
/// gets none, which is a miss, also where the module is in flight. Nothing else
/// is counted, and what is known stays as it is.
pub proof fn law_texts_are_got(
    before: CacheView,
    key: KeyView,
    found: Option<Seq<char>>,
    after: CacheView,
)
    requires
        yang_module_cache::gets(before, key, found, after),
    ensures
        after.entries == before.entries,
        after.stats.size == before.stats.size,
        after.stats.coalesced == before.stats.coalesced,
        match known(before, key) {
            Some(EntryView::Ready(text)) => {
                &&& found == Some(text)
                &&& after.stats.hits == yang_module_cache::next(before.stats.hits)
                &&& after.stats.misses == before.stats.misses
            },
            _ => {
                &&& found is None
                &&& after.stats.misses == yang_module_cache::next(before.stats.misses)
                &&& after.stats.hits == before.stats.hits
            },
        },
{
}

/// A wait that brings a text is over with that text and is counted; one that
/// finds the leader gone is over without a text; and one that finds neither goes
/// on. Only the first is counted, and what is known stays as it is.
pub proof fn law_waits_are_counted(cache: CacheView, event: WaitEvent)
    ensures
        ({
            let after = yang_module_cache::waits(cache, event);
            let step = yang_module_cache::step_upon(event);
            &&& after.entries == cache.entries
            &&& match event {
                WaitEvent::Seen(Some(text)) => {
                    &&& step == WaitStep::Done(Some(text))
                    &&& after.stats == (YangModuleCacheStats {
                        coalesced: yang_module_cache::next(cache.stats.coalesced),
                        ..cache.stats
                    })
                },
                WaitEvent::Seen(None) => step is Await && after.stats == cache.stats,
                WaitEvent::Closed => step == WaitStep::Done(None) && after.stats == cache.stats,
            }
        }),
{
}

/// A role is seen with what it holds, and so is a text.
pub proof fn law_roles_are_seen_whole(role: ModuleFetch, text: Text)
    ensures
        match role {
            ModuleFetch::Cached(t) => role@ == RoleView::Cached(t@),
            ModuleFetch::Wait(waiter) => role@ == RoleView::Wait(waiter@),
            ModuleFetch::Lead(lease) => role@ == RoleView::Lead(lease@),
        },
        match text {
            Some(t) => text_channel::text_view(text) == Some(t@),
            None => text_channel::text_view(text) is None,
        },
{
}

} // verus!
