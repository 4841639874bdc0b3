//! What becomes of each packet: where it goes, how it is validated, what is
//! said of it, and what is recorded.

use crate::actor_invariant;
use crate::actor_model;
use crate::actor_model::{
    Actor, LookupView, Message, Publisher, StepView, Subscription, ValidationMode, ValidationView,
};
use crate::identity_laws;
use crate::metrics::{CacheLookupBy, DropReason, EventView, Instrument, SkipReason, TagView};
use crate::notification::{NotificationVariant, UdpNotifPacketDecoded};
use crate::subscription::{InfoView, SubscriptionId};
use crate::text;
use crate::validation;
use crate::validation::{
    CacheLookupCommand, PendingLookup, PendingValidation, RunAction, RunEvent, Step,
    ValidationActor,
};
use vstd::prelude::*;

verus! {

/// The tags that say where a packet came from: the publisher's address and port,
/// and its id.
pub open spec fn origin(message: Message) -> Seq<TagView> {
    seq![
        TagView::PeerAddress(message.session.peer.ip),
        TagView::PeerPort(message.session.peer.port),
        TagView::PublisherId(message.packet.publisher_id),
    ]
}

/// The tags that say which subscription a value is about.
pub open spec fn topic(info: InfoView) -> Seq<TagView> {
    seq![
        TagView::SubscriptionId(info.id),
        TagView::SubscriptionTarget(info.target),
        TagView::RouterContentId(info.content_id),
    ]
}

/// One thing recorded.
pub open spec fn once(instrument: Instrument, tags: Seq<TagView>) -> EventView {
    EventView { instrument, value: 1, tags }
}

/// What is recorded of a packet that was decoded, the first time that it is
/// processed, and only then.
pub open spec fn decoding<P>(
    message: Message,
    decoded: UdpNotifPacketDecoded<P>,
    reprocessed: bool,
) -> Seq<EventView> {
    if reprocessed {
        Seq::empty()
    } else {
        match decoded.contents {
            Some(contents) => seq![
                once(
                    Instrument::Decoded,
                    origin(message).push(TagView::SubscriptionId(contents.id())),
                ),
            ],
            None => seq![once(Instrument::Decoded, origin(message))],
        }
    }
}

proof fn lemma_decoding<C, P>(
    a: Actor<C>,
    message: Message,
    decoded: UdpNotifPacketDecoded<P>,
    reprocessed: bool,
)
    ensures
        a.count_decoded(message, decoded, reprocessed) == (Actor {
            events: a.events + decoding(message, decoded, reprocessed),
            ..a
        }),
{
    let b = a.count_decoded(message, decoded, reprocessed);
    assert(b.events =~= a.events + decoding(message, decoded, reprocessed));
}

proof fn lemma_tags(message: Message, info: InfoView)
    ensures
        actor_model::packet_tags(message) == origin(message),
        actor_model::stream_tags(message, info) == origin(message) + topic(info),
{
    assert(actor_model::packet_tags(message) =~= origin(message));
    assert(actor_model::stream_tags(message, info) =~= origin(message) + topic(info));
}

/// An actor begins with the limits and the setting that it is made with, and
/// with nothing else.
pub proof fn law_actor_begins_empty<C>(per_peer: nat, per_subscription: nat, strict: bool)
    ensures
        ({
            let a = Actor::<C>::start(per_peer, per_subscription, strict);
            &&& a.max_per_peer == per_peer
            &&& a.max_per_subscription == per_subscription
            &&& a.anydata_strict == strict
            &&& a.queue.len() == 0
            &&& a.events.len() == 0
            &&& forall|ip: (bool, u128), id: SubscriptionId| #[trigger] a.find(ip, id) is None
        }),
{
}

/// Whether the limits and the setting are the same.
pub open spec fn same_settings<C>(a: Actor<C>, b: Actor<C>) -> bool {
    &&& a.max_per_peer == b.max_per_peer
    &&& a.max_per_subscription == b.max_per_subscription
    &&& a.anydata_strict == b.anydata_strict
}

/// Nothing that happens changes the limits or the setting, and what was recorded
/// stays recorded.
pub proof fn law_settings_and_records_stay<C, P>(
    a: Actor<C>,
    message: Message,
    outcome: Option<UdpNotifPacketDecoded<P>>,
    reprocessed: bool,
    lookup: LookupView,
    validation: ValidationView<P>,
    tags: Seq<TagView>,
    well: bool,
    content_id: Option<Seq<char>>,
    info: InfoView,
    library: bool,
    context: Option<C>,
)
    ensures
        same_settings(a, a.process(message, outcome, reprocessed).0),
        same_settings(a, a.lookup_sent(lookup, well)),
        same_settings(a, a.validated(validation, well).0),
        same_settings(a, a.forwarded(tags, well)),
        same_settings(a, a.respond(content_id, info, library, context)),
        same_settings(a, a.dequeue()),
        a.events.is_prefix_of(a.process(message, outcome, reprocessed).0.events),
        a.events.is_prefix_of(a.lookup_sent(lookup, well).events),
        a.events.is_prefix_of(a.validated(validation, well).0.events),
        a.events.is_prefix_of(a.forwarded(tags, well).events),
        a.events.is_prefix_of(a.respond(content_id, info, library, context).events),
        a.events.is_prefix_of(a.dequeue().events),
        a.process(message, outcome, reprocessed).0.queue == a.queue,
        a.lookup_sent(lookup, well).queue == a.queue,
        a.validated(validation, well).0.queue == a.queue,
        a.validated(validation, well).0.peers == a.peers,
        a.forwarded(tags, well).queue == a.queue,
        a.forwarded(tags, well).peers == a.peers,
        a.dequeue().peers == a.peers,
{
}

/// A packet that cannot be decoded is dropped for that reason, and changes
/// nothing else.
pub proof fn law_undecodable_packets_are_dropped<C, P>(
    a: Actor<C>,
    message: Message,
    reprocessed: bool,
)
    ensures
        a.process(message, None::<UdpNotifPacketDecoded<P>>, reprocessed).1 is Done,
        a.process(message, None::<UdpNotifPacketDecoded<P>>, reprocessed).0 == (Actor {
            events: a.events.push(
                once(
                    Instrument::Dropped,
                    origin(message).push(TagView::Dropped(DropReason::DecodeError)),
                ),
            ),
            ..a
        }),
{
    lemma_tags(message, crate::subscription::empty_info(message.session.peer.ip, 0));
}

/// A packet that names no subscription is dropped for that reason, and changes
/// nothing else.
pub proof fn law_packets_of_no_subscription_are_dropped<C, P>(
    a: Actor<C>,
    message: Message,
    decoded: UdpNotifPacketDecoded<P>,
    reprocessed: bool,
)
    requires
        decoded.contents is None,
    ensures
        a.process(message, Some(decoded), reprocessed).1 is Done,
        a.process(message, Some(decoded), reprocessed).0 == (Actor {
            events: (a.events + decoding(message, decoded, reprocessed)).push(
                once(
                    Instrument::Dropped,
                    origin(message).push(TagView::Dropped(DropReason::NoSubscriptionId)),
                ),
            ),
            ..a
        }),
{
    lemma_tags(message, crate::subscription::empty_info(message.session.peer.ip, 0));
    lemma_decoding(a, message, decoded, reprocessed);
}

/// An announcement that tells no modules is dropped for that reason, and changes
/// nothing else, unless a fetch is in flight for its subscription.
pub proof fn law_announcements_without_modules_are_dropped<C, P>(
    a: Actor<C>,
    message: Message,
    decoded: UdpNotifPacketDecoded<P>,
    reprocessed: bool,
)
    requires
        decoded.contents matches Some(contents) && (contents.announced() matches Some(s)
            && s.module_version is None) && !a.awaits(
            message.session.peer.ip.key(),
            contents.id(),
        ),
    ensures
        a.process(message, Some(decoded), reprocessed).1 is Done,
        a.process(message, Some(decoded), reprocessed).0 == (Actor {
            events: (a.events + decoding(message, decoded, reprocessed)).push(
                once(
                    Instrument::Dropped,
                    origin(message).push(
                        TagView::Dropped(DropReason::IncompleteSubscriptionStarted),
                    ),
                ),
            ),
            ..a
        }),
{
    lemma_tags(message, crate::subscription::empty_info(message.session.peer.ip, 0));
    lemma_decoding(a, message, decoded, reprocessed);
    let ip = message.session.peer.ip.key();
    let id = decoded.contents->0.id();
    assert(a.count_decoded(message, decoded, reprocessed).find(ip, id) == a.find(ip, id));
}

/// A payload without an envelope is validated as a notification, whatever the
/// setting; any other as data, strictly or not as the setting says.
pub proof fn law_validation_mode<C, P>(
    a: Actor<C>,
    message: Message,
    decoded: UdpNotifPacketDecoded<P>,
    reprocessed: bool,
)
    ensures
        a.process(message, Some(decoded), reprocessed).1 matches StepView::Validate(v) ==> {
            &&& v.mode is LegacyNotification <==> decoded.legacy
            &&& v.mode matches ValidationMode::Data { anydata_strict } ==> anydata_strict
                == a.anydata_strict
        },
{
}

/// Whether there is a schema to validate packets of the subscription against.
pub open spec fn has_schema<C>(s: Subscription<C>) -> bool {
    &&& s.content_id is Some
    &&& s.context is Some
    &&& !identity_laws::knows_nothing(s.info)
}

/// Why packets of the subscription are not validated.
pub open spec fn has_no_schema_for<C>(s: Subscription<C>, reason: SkipReason) -> bool {
    match reason {
        SkipReason::NoSubscriptionInfo => identity_laws::knows_nothing(s.info),
        SkipReason::ContextFailed => !identity_laws::knows_nothing(s.info) && s.content_id is Some,
        SkipReason::NoLibrary => !identity_laws::knows_nothing(s.info) && s.content_id is None,
    }
}

/// Whether the step is the right one for a packet of a subscription on file, and
/// `events` what is recorded for it: the packet is to be validated where there is
/// a schema, against that schema; where there is none it goes on unvalidated, and
/// the reason is recorded.
pub open spec fn goes_on<C, P>(
    s: Subscription<C>,
    message: Message,
    decoded: UdpNotifPacketDecoded<P>,
    step: StepView<P>,
    events: Seq<EventView>,
) -> bool {
    match step {
        StepView::Validate(v) => {
            &&& has_schema(s)
            &&& v.info == s.info
            &&& Some(v.content_id) == s.content_id
            &&& v.message == message
            &&& v.decoded == decoded
            &&& events.len() == 0
        },
        StepView::Forward(f) => {
            &&& !has_schema(s)
            &&& f.content_id is None
            &&& f.info == s.info
            &&& f.session == message.session
            &&& f.packet == decoded
            &&& f.tags == origin(message) + topic(s.info)
            &&& exists|reason: SkipReason| #[trigger]
                has_no_schema_for(s, reason) && events == seq![
                    once(
                        Instrument::Skipped,
                        (origin(message) + topic(s.info)).push(TagView::Skipped(reason)),
                    ),
                ]
        },
        _ => false,
    }
}

proof fn lemma_goes_on<C, P>(
    counted: Actor<C>,
    after: Actor<C>,
    s: Subscription<C>,
    message: Message,
    decoded: UdpNotifPacketDecoded<P>,
    b: Actor<C>,
    step: StepView<P>,
)
    requires
        after.events == counted.events,
        ({
            let tags = actor_model::stream_tags(message, s.info);
            if s.validates() && !s.info.is_empty() {
                b == after && step is Validate && step->Validate_0.info == s.info
                    && step->Validate_0.content_id == s.content_id->0 && step->Validate_0.message
                    == message && step->Validate_0.decoded == decoded
            } else {
                b == after.record(
                    Instrument::Skipped,
                    1,
                    tags.push(TagView::Skipped(s.skips(s.info))),
                ) && step == StepView::Forward(
                    actor_model::forwarding(None, s.info, message, decoded),
                )
            }
        }),
    ensures
        goes_on(s, message, decoded, step, b.events.skip(counted.events.len() as int)),
        counted.events.is_prefix_of(b.events),
{
    identity_laws::law_empty_subscriptions(s.info, message.session.peer.ip, 0);
    lemma_tags(message, s.info);
    let more = b.events.skip(counted.events.len() as int);
    if s.validates() && !s.info.is_empty() {
        assert(more =~= Seq::<EventView>::empty());
    } else {
        let reason = s.skips(s.info);
        assert(has_no_schema_for(s, reason));
        assert(more =~= seq![
            once(
                Instrument::Skipped,
                (origin(message) + topic(s.info)).push(TagView::Skipped(reason)),
            ),
        ]);
    }
}

/// A packet of a subscription that is on file, and for which no fetch is in
/// flight, goes on at once and changes nothing that is known.
pub proof fn law_packets_of_known_subscriptions_go_on<C, P>(
    a: Actor<C>,
    message: Message,
    decoded: UdpNotifPacketDecoded<P>,
    reprocessed: bool,
    id: SubscriptionId,
)
    requires
        a.wf(),
        decoded.contents == Some(NotificationVariant::Other(id)),
        a.find(message.session.peer.ip.key(), id) matches Some(s) && !s.pending,
    ensures
        ({
            let s = a.find(message.session.peer.ip.key(), id)->0;
            let (b, step) = a.process(message, Some(decoded), reprocessed);
            let recorded = a.events + decoding(message, decoded, reprocessed);
            &&& b.peers == a.peers
            &&& recorded.is_prefix_of(b.events)
            &&& goes_on(s, message, decoded, step, b.events.skip(recorded.len() as int))
        }),
{
    let ip = message.session.peer.ip.key();
    let s = a.find(ip, id)->0;
    lemma_decoding(a, message, decoded, reprocessed);
    let counted = a.count_decoded(message, decoded, reprocessed);
    assert(counted.find(ip, id) == a.find(ip, id));
    assert(a.peers[ip].subscriptions.contains_key(id));
    assert(s.wf(ip, id, a.max_per_subscription));
    let (b, step) = a.process(message, Some(decoded), reprocessed);
    lemma_goes_on(counted, counted, s, message, decoded, b, step);
}

/// An announcement of what is on file already, and for which no fetch is in
/// flight, goes on at once as any packet does, and changes nothing that is
/// known.
pub proof fn law_repeated_announcements_go_on<C, P>(
    a: Actor<C>,
    message: Message,
    decoded: UdpNotifPacketDecoded<P>,
    reprocessed: bool,
)
    requires
        a.wf(),
        crate::validation_laws::announcement(message, decoded) matches Some(info) && a.find(
            message.session.peer.ip.key(),
            info.id,
        ) matches Some(s) && s.info == info && !s.pending,
    ensures
        ({
            let info = crate::validation_laws::announcement(message, decoded)->0;
            let s = a.find(message.session.peer.ip.key(), info.id)->0;
            let (b, step) = a.process(message, Some(decoded), reprocessed);
            let recorded = a.events + decoding(message, decoded, reprocessed);
            &&& b.peers == a.peers
            &&& recorded.is_prefix_of(b.events)
            &&& goes_on(s, message, decoded, step, b.events.skip(recorded.len() as int))
        }),
{
    crate::validation_laws::law_repeated_announcement_is_no_news(a, message, decoded, reprocessed);
    let ip = message.session.peer.ip.key();
    let info = crate::validation_laws::announcement(message, decoded)->0;
    let s = a.find(ip, info.id)->0;
    lemma_decoding(a, message, decoded, reprocessed);
    let counted = a.count_decoded(message, decoded, reprocessed);
    assert(counted.find(ip, info.id) == a.find(ip, info.id));
    assert(counted.peers[ip].subscriptions.dom().contains(info.id));
    let after = counted.supersede(ip, info);
    assert(after.peers =~= a.peers);
    assert(after.find(ip, info.id) == a.find(ip, info.id));
    let (b, step) = a.process(message, Some(decoded), reprocessed);
    lemma_goes_on(counted, after, s, message, decoded, b, step);
}

/// A packet of a subscription that is not on file, and that does not announce
/// one, has the subscription looked up by its publisher and its id. From then on
/// a fetch is in flight for it, nothing is known of it, and nothing is held.
pub proof fn law_unknown_subscriptions_are_looked_up_by_id<C, P>(
    a: Actor<C>,
    message: Message,
    decoded: UdpNotifPacketDecoded<P>,
    reprocessed: bool,
    id: SubscriptionId,
)
    requires
        decoded.contents == Some(NotificationVariant::Other(id)),
        a.find(message.session.peer.ip.key(), id) is None,
    ensures
        ({
            let ip = message.session.peer.ip;
            let (b, step) = a.process(message, Some(decoded), reprocessed);
            &&& step matches StepView::Lookup(lookup)
            &&& lookup.message == message
            &&& lookup.by == CacheLookupBy::SubscriptionId
            &&& lookup.info.peer_ip == ip
            &&& lookup.info.id == id
            &&& identity_laws::knows_nothing(lookup.info)
            &&& b.find(ip.key(), id) matches Some(s)
            &&& s.pending && s.info == lookup.info && s.buffered.len() == 0
            &&& s.content_id is None && s.context is None
            &&& b.events == (a.events + decoding(message, decoded, reprocessed)).push(
                once(
                    Instrument::CacheLookups,
                    origin(message).push(TagView::LookupBy(CacheLookupBy::SubscriptionId)),
                ),
            )
        }),
{
    let ip = message.session.peer.ip;
    lemma_decoding(a, message, decoded, reprocessed);
    lemma_tags(message, crate::subscription::empty_info(ip, id));
    let counted = a.count_decoded(message, decoded, reprocessed);
    assert(counted.find(ip.key(), id) == a.find(ip.key(), id));
    identity_laws::law_empty_subscriptions(
        crate::subscription::empty_info(ip, id),
        ip,
        id,
    );
}

/// An announcement of what is not on file, or of what is other than what is on
/// file, is looked up with all that it announces, which is recorded.
pub proof fn law_news_is_looked_up_and_recorded<C, P>(
    a: Actor<C>,
    message: Message,
    decoded: UdpNotifPacketDecoded<P>,
    reprocessed: bool,
)
    requires
        a.wf(),
        crate::validation_laws::announcement(message, decoded) matches Some(info) && !(a.find(
            message.session.peer.ip.key(),
            info.id,
        ) matches Some(s) && (s.info == info || s.pending)),
    ensures
        ({
            let ip = message.session.peer.ip;
            let announced = decoded.contents->0.announced()->0;
            let (b, step) = a.process(message, Some(decoded), reprocessed);
            &&& step matches StepView::Lookup(lookup)
            &&& lookup.message == message
            &&& lookup.by == CacheLookupBy::SubscriptionInfo
            &&& Some(lookup.info) == actor_model::described(
                ip,
                announced,
                text::opt_view(decoded.canonical_xpath),
            )
            &&& b.find(ip.key(), announced.id) matches Some(s)
            &&& s.pending && s.info == lookup.info && s.buffered.len() == 0
            &&& s.content_id is None && s.context is None
            &&& b.events == (a.events + decoding(message, decoded, reprocessed)).push(
                once(
                    Instrument::CacheLookups,
                    (origin(message) + topic(lookup.info)).push(
                        TagView::LookupBy(CacheLookupBy::SubscriptionInfo),
                    ),
                ),
            )
        }),
{
    crate::validation_laws::law_new_announcement_is_looked_up(a, message, decoded, reprocessed);
    let ip = message.session.peer.ip.key();
    let info = crate::validation_laws::announcement(message, decoded)->0;
    lemma_decoding(a, message, decoded, reprocessed);
    lemma_tags(message, info);
    let counted = a.count_decoded(message, decoded, reprocessed);
    assert(counted.find(ip, info.id) == a.find(ip, info.id));
    assert(counted.supersede(ip, info).find(ip, info.id) is None);
    assert(counted.supersede(ip, info).events == counted.events);
}

/// Whether `b` is `a` once a packet was to be held for the subscription `id`,
/// for which a fetch is in flight. It is dropped where the subscription holds as
/// many packets as it may, and also where its publisher does; otherwise it is
/// held, behind those that are, and how many the publisher holds is recorded, and
/// then what `note` says. Nothing else changes.
pub open spec fn held_or_dropped<C>(
    a: Actor<C>,
    b: Actor<C>,
    message: Message,
    id: SubscriptionId,
    note: Seq<EventView>,
) -> bool {
    let ip = message.session.peer.ip.key();
    let publisher = a.peers[ip];
    let s = publisher.subscriptions[id];
    let dropped = |reason: DropReason|
        once(Instrument::Dropped, origin(message).push(TagView::Dropped(reason)));
    if s.buffered.len() >= a.max_per_subscription {
        b == (Actor {
            events: a.events.push(dropped(DropReason::BufferFullSubscription)),
            ..a
        })
    } else if publisher.total >= a.max_per_peer {
        b == (Actor { events: a.events.push(dropped(DropReason::BufferFullPeer)), ..a })
    } else {
        b == (Actor {
            peers: a.peers.insert(
                ip,
                Publisher {
                    subscriptions: publisher.subscriptions.insert(
                        id,
                        Subscription { buffered: s.buffered.push(message), ..s },
                    ),
                    total: publisher.total + 1,
                },
            ),
            events: a.events.push(
                EventView {
                    instrument: Instrument::Buffered,
                    value: publisher.total + 1,
                    tags: origin(message),
                },
            ) + note,
            ..a
        })
    }
}

proof fn lemma_held<C>(a: Actor<C>, info: InfoView, message: Message)
    requires
        a.awaits(message.session.peer.ip.key(), info.id),
    ensures
        held_or_dropped(a, a.buffer(info, message).0, message, info.id, Seq::empty()),
{
    lemma_tags(message, info);
    let ip = message.session.peer.ip.key();
    let b = a.buffer(info, message).0;
    assert(a.with_publisher(ip, a.peers[ip]).peers =~= a.peers);
    let publisher = a.peers[ip];
    let s = publisher.subscriptions[info.id];
    if s.buffered.len() < a.max_per_subscription && publisher.total < a.max_per_peer {
        assert(b.events + Seq::<EventView>::empty() =~= b.events);
    }
}

/// A packet of a subscription for which a fetch is in flight is held if there is
/// room for it, and dropped if not. Of an announcement that is held it is
/// recorded that it waits.
pub proof fn law_packets_are_held_within_limits<C, P>(
    a: Actor<C>,
    message: Message,
    decoded: UdpNotifPacketDecoded<P>,
    reprocessed: bool,
)
    requires
        a.wf(),
        decoded.contents is Some,
        a.awaits(message.session.peer.ip.key(), decoded.contents->0.id()),
    ensures
        a.process(message, Some(decoded), reprocessed).1 is Done,
        held_or_dropped(
            Actor { events: a.events + decoding(message, decoded, reprocessed), ..a },
            a.process(message, Some(decoded), reprocessed).0,
            message,
            decoded.contents->0.id(),
            if decoded.contents->0 is Other {
                Seq::empty()
            } else {
                seq![
                    once(
                        Instrument::SubscriptionUpdateDeferred,
                        origin(message).push(TagView::SubscriptionId(decoded.contents->0.id())),
                    ),
                ]
            },
        ),
{
    let ip = message.session.peer.ip.key();
    let id = decoded.contents->0.id();
    lemma_decoding(a, message, decoded, reprocessed);
    let counted = a.count_decoded(message, decoded, reprocessed);
    let s = a.find(ip, id)->0;
    assert(counted.find(ip, id) == a.find(ip, id));
    assert(a.peers.contains_key(ip) && a.peers[ip].subscriptions.contains_key(id));
    assert(s.wf(ip, id, a.max_per_subscription));
    lemma_held(counted, s.info, message);
    lemma_tags(message, s.info);
    let b = a.process(message, Some(decoded), reprocessed).0;
    let held = counted.buffer(s.info, message).0;
    if actor_model::announces(decoded) {
        let note = seq![
            once(
                Instrument::SubscriptionUpdateDeferred,
                origin(message).push(TagView::SubscriptionId(id)),
            ),
        ];
        if counted.buffer(s.info, message).1 {
            assert(b.events =~= held.events + note);
            assert(held.events + Seq::<EventView>::empty() =~= held.events);
        }
    }
}

/// The packet that a lookup was made for is held if there is room for it, and
/// dropped if not, once the lookup is under way. If the lookup could not be sent,
/// nothing changes.
pub proof fn law_packets_wait_for_their_lookup<C>(a: Actor<C>, lookup: LookupView)
    requires
        a.awaits(lookup.message.session.peer.ip.key(), lookup.info.id),
    ensures
        held_or_dropped(
            a,
            a.lookup_sent(lookup, true),
            lookup.message,
            lookup.info.id,
            Seq::empty(),
        ),
        a.lookup_sent(lookup, false) == a,
{
    lemma_held(a, lookup.info, lookup.message);
}

/// What the subscriptions of a publisher hold together is what each of them
/// holds, added up.
pub proof fn law_held_packets_add_up<C>(
    subscriptions: Map<SubscriptionId, Subscription<C>>,
    ids: Set<SubscriptionId>,
    id: SubscriptionId,
)
    requires
        ids.finite(),
        !ids.contains(id),
    ensures
        actor_model::held(subscriptions, Set::empty()) == 0,
        actor_model::held(subscriptions, ids.insert(id)) == actor_model::held(subscriptions, ids)
            + subscriptions[id].buffered.len(),
{
    actor_invariant::lemma_held_split(subscriptions, ids.insert(id), id);
    assert(ids.insert(id).remove(id) =~= ids);
}

/// A packet that is found valid goes on with the content id of the schema that
/// it was validated against, as it was decoded and with the session that it came
/// through. One that is not is dropped for that reason. Each is recorded.
pub proof fn law_verdicts_decide<C, P>(a: Actor<C>, validation: ValidationView<P>)
    ensures
        ({
            let message = validation.message;
            let tags = origin(message) + topic(validation.info);
            let (b, step) = a.validated(validation, true);
            &&& step matches StepView::Forward(f)
            &&& f.content_id == Some(validation.content_id)
            &&& f.info == validation.info
            &&& f.session == message.session
            &&& f.packet == validation.decoded
            &&& f.tags == tags
            &&& b == (Actor { events: a.events.push(once(Instrument::Validated, tags)), ..a })
        }),
        ({
            let tags = origin(validation.message) + topic(validation.info);
            let (b, step) = a.validated(validation, false);
            &&& step is Done
            &&& b == (Actor {
                events: a.events.push(
                    once(
                        Instrument::Dropped,
                        tags.push(TagView::Dropped(DropReason::ValidationFailed)),
                    ),
                ),
                ..a
            })
        }),
{
    lemma_tags(validation.message, validation.info);
}

/// What goes on is recorded as sent, and what could not go on as dropped for
/// that reason.
pub proof fn law_sending_is_recorded<C>(a: Actor<C>, tags: Seq<TagView>)
    ensures
        a.forwarded(tags, true) == (Actor {
            events: a.events.push(once(Instrument::Sent, tags)),
            ..a
        }),
        a.forwarded(tags, false) == (Actor {
            events: a.events.push(
                once(Instrument::Dropped, tags.push(TagView::Dropped(DropReason::SendError))),
            ),
            ..a
        }),
{
}

/// A response is what is known of the subscription from then on: its content id
/// and its schema where it brings a library, and neither where it does not. The
/// subscription waits no longer and holds nothing.
pub proof fn law_responses_are_taken_over<C>(
    a: Actor<C>,
    content_id: Option<Seq<char>>,
    info: InfoView,
    library: bool,
    context: Option<C>,
)
    requires
        a.wf(),
        a.find(info.peer_ip.key(), info.id) is Some,
    ensures
        ({
            let ip = info.peer_ip.key();
            let before = a.find(ip, info.id)->0;
            let b = a.respond(content_id, info, library, context);
            &&& b.find(ip, info.id) matches Some(s)
            &&& s.info == info
            &&& !s.pending
            &&& s.buffered.len() == 0
            &&& library ==> s.content_id == content_id && s.context == context
            &&& !library ==> s.content_id is None && s.context is None
            &&& b.queue == a.queue + before.buffered
            &&& b.peers[ip].total + before.buffered.len() == a.peers[ip].total
            &&& b.peers.dom() == a.peers.dom()
        }),
{
    actor_invariant::lemma_respond(a, content_id, info, library, context);
    let b = a.respond(content_id, info, library, context);
    assert(b.peers.dom() =~= a.peers.dom());
}

/// What is recorded of a response: what came of the schema, each packet that is
/// let out, and how many packets, publishers and subscriptions there are then.
pub proof fn law_responses_are_recorded<C>(
    a: Actor<C>,
    content_id: Option<Seq<char>>,
    info: InfoView,
    library: bool,
    context: Option<C>,
)
    requires
        a.wf(),
        a.find(info.peer_ip.key(), info.id) is Some,
    ensures
        ({
            let ip = info.peer_ip.key();
            let held = a.find(ip, info.id)->0.buffered;
            let b = a.respond(content_id, info, library, context);
            let n = a.events.len() as int;
            let m = held.len() as int;
            let tags = seq![TagView::PeerAddress(info.peer_ip)] + topic(info);
            &&& b.events.len() == n + m + 5
            &&& b.events[n] == once(
                if !library {
                    Instrument::YangContextEmpty
                } else if context is Some {
                    Instrument::YangContextLoaded
                } else {
                    Instrument::YangContextFailed
                },
                tags,
            )
            &&& forall|i: int|
                0 <= i < m ==> b.events[n + 1 + i] == once(
                    Instrument::BufferDrained,
                    origin(#[trigger] held[i]) + topic(info),
                )
            &&& b.events[n + m + 1] == (EventView {
                instrument: Instrument::Buffered,
                value: b.peers[ip].total,
                tags,
            })
            &&& b.events[n + m + 2] == (EventView {
                instrument: Instrument::Pending,
                value: b.queue.len(),
                tags: Seq::empty(),
            })
            &&& b.events[n + m + 3] == (EventView {
                instrument: Instrument::CachedPeers,
                value: b.peers.dom().len(),
                tags: Seq::empty(),
            })
            &&& b.events[n + m + 4] == (EventView {
                instrument: Instrument::CachedSubscriptions,
                value: b.peers[ip].subscriptions.dom().len(),
                tags: seq![TagView::PeerAddress(info.peer_ip)],
            })
        }),
{
    let ip = info.peer_ip.key();
    let held = a.find(ip, info.id)->0.buffered;
    let b = a.respond(content_id, info, library, context);
    let n = a.events.len() as int;
    let m = held.len() as int;
    assert(b.peers.dom() =~= a.peers.dom());
    let drained = Actor::<C>::drain_events(held, info);
    assert(drained.len() == m);
    assert forall|i: int| 0 <= i < m implies b.events[n + 1 + i] == once(
        Instrument::BufferDrained,
        origin(#[trigger] held[i]) + topic(info),
    ) by {
        lemma_tags(held[i], info);
        assert(b.events[n + 1 + i] == drained[i]);
    }
    assert(seq![TagView::PeerAddress(info.peer_ip)] + crate::metrics::subscription_tags(info)
        =~= seq![TagView::PeerAddress(info.peer_ip)] + topic(info));
}

/// When a packet leaves the queue, how many are left is recorded.
pub proof fn law_leaving_the_queue_is_recorded<C>(a: Actor<C>)
    requires
        a.queue.len() > 0,
    ensures
        a.dequeue().queue.len() == a.queue.len() - 1,
        a.dequeue() == (Actor {
            queue: a.dequeue().queue,
            events: a.events.push(
                EventView {
                    instrument: Instrument::Pending,
                    value: a.dequeue().queue.len(),
                    tags: Seq::empty(),
                },
            ),
            ..a
        }),
{
}

/// The command of a lookup asks for just what the lookup is about, through the
/// session that the packet came through: by all that is announced, or by the id.
pub proof fn law_lookups_ask_for_what_they_are_about(
    command: CacheLookupCommand,
    lookup: LookupView,
)
    requires
        validation::asks(command, lookup),
    ensures
        match command {
            CacheLookupCommand::LookupBySubscriptionInfo { subscription_info, session } => {
                &&& lookup.by is SubscriptionInfo
                &&& subscription_info@ == lookup.info
                &&& session == lookup.message.session
            },
            CacheLookupCommand::LookupBySubscriptionId { session, subscription_id } => {
                &&& lookup.by is SubscriptionId
                &&& subscription_id == lookup.info.id
                &&& session == lookup.message.session
            },
        },
{
}

/// A lookup that is to be sent comes with a command that asks for it.
pub proof fn law_lookups_come_with_their_command<P>(step: Step<P>)
    requires
        step.wf(),
    ensures
        step matches Step::Lookup(command, pending) ==> validation::asks(command, pending@),
{
}

/// A packet is validated against the schema of its own subscription.
pub proof fn law_packets_are_validated_against_their_schema<C, P>(
    actor: ValidationActor<C>,
    pending: PendingValidation<P>,
    lookup: PendingLookup,
)
    ensures
        actor.context_of(pending) == match actor@.find(
            pending@.message.session.peer.ip.key(),
            pending@.info.id,
        ) {
            Some(s) => s.context,
            None => None,
        },
        actor.awaits(lookup) <==> (actor@.find(
            lookup@.message.session.peer.ip.key(),
            lookup@.info.id,
        ) matches Some(s) && s.pending),
{
}

/// A running actor ends when it is told to, when a channel closes, and when a
/// packet could not be processed to its end, and then changes nothing. Otherwise
/// it goes on.
pub proof fn law_when_the_actor_ends<C>(a: Actor<C>, event: RunEvent<C>, action: RunAction)
    requires
        validation::acts(a, event, action),
    ensures
        action is Exit <==> {
            ||| event is Command
            ||| event == RunEvent::<C>::CacheResponse(None)
            ||| event == RunEvent::<C>::Packet(None)
            ||| event is PacketFailed
        },
        action is Exit ==> validation::after_event(a, event) == a,
{
}

/// A running actor takes a response over and waits. It processes each packet
/// that comes, which is recorded, and when nothing comes the first of the queue,
/// which is not for the first time.
pub proof fn law_what_a_running_actor_does<C>(a: Actor<C>, event: RunEvent<C>, action: RunAction)
    requires
        validation::acts(a, event, action),
    ensures
        match event {
            RunEvent::CacheResponse(Some((response, context))) => {
                &&& action is Wait
                &&& validation::after_event(a, event) == a.respond(
                    text::opt_view(response.cached_content_id),
                    response.subscription_info@,
                    response.yang_lib_ref is Some,
                    context,
                )
            },
            RunEvent::Queue => if a.queue.len() > 0 {
                &&& action == (RunAction::Process { message: a.queue[0], is_reprocessed: true })
                &&& validation::after_event(a, event) == a.dequeue()
            } else {
                action is Wait && validation::after_event(a, event) == a
            },
            RunEvent::Packet(Some(message)) => {
                &&& action == (RunAction::Process { message, is_reprocessed: false })
                &&& validation::after_event(a, event) == (Actor {
                    events: a.events.push(once(Instrument::Received, origin(message))),
                    ..a
                })
            },
            _ => action is Exit,
        },
{
    if let RunEvent::Packet(Some(message)) = event {
        lemma_tags(message, crate::subscription::empty_info(message.session.peer.ip, 0));
    }
}

/// A subscription is on file under its publisher and its id, and nowhere else; a
/// fetch is in flight for it if and only if it is on file and says so.
pub proof fn law_subscriptions_are_on_file<C>(a: Actor<C>, ip: (bool, u128), id: SubscriptionId)
    ensures
        match a.find(ip, id) {
            Some(s) => {
                &&& a.peers.contains_key(ip)
                &&& a.peers[ip].subscriptions.contains_key(id)
                &&& a.peers[ip].subscriptions[id] == s
                &&& a.awaits(ip, id) == s.pending
            },
            None => {
                &&& a.peers.contains_key(ip) ==> !a.peers[ip].subscriptions.contains_key(id)
                &&& !a.awaits(ip, id)
            },
        },
{
}

/// A packet announces a subscription if and only if it says that one was started
/// or modified, and then it announces what it says of it.
pub proof fn law_what_packets_announce<P>(message: Message, decoded: UdpNotifPacketDecoded<P>)
    ensures
        match decoded.contents {
            Some(NotificationVariant::SubscriptionStarted(s)) => {
                &&& actor_model::announces(decoded)
                &&& crate::validation_laws::announcement(message, decoded)
                    == actor_model::described(
                    message.session.peer.ip,
                    s,
                    text::opt_view(decoded.canonical_xpath),
                )
            },
            Some(NotificationVariant::SubscriptionModified(s)) => {
                &&& actor_model::announces(decoded)
                &&& crate::validation_laws::announcement(message, decoded)
                    == actor_model::described(
                    message.session.peer.ip,
                    s,
                    text::opt_view(decoded.canonical_xpath),
                )
            },
            _ => {
                &&& !actor_model::announces(decoded)
                &&& crate::validation_laws::announcement(message, decoded) is None
            },
        },
{
}

} // verus!
