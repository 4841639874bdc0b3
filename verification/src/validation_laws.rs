//! What holds of the validation actor as a whole.

use crate::actor_invariant;
use crate::actor_model;
use crate::actor_model::{
    Actor, LookupView, Message, StepView, Subscription, ValidationView,
};
use crate::metrics::{CacheLookupBy, DropReason, Instrument, SkipReason, TagView};
use crate::notification::{NotificationVariant, UdpNotifPacketDecoded};
use crate::subscription::{InfoView, SubscriptionId, TargetView};
use crate::text;
use vstd::prelude::*;

verus! {

/// The invariant holds at first, and whatever happens keeps it.
pub proof fn law_invariant<C, P>(
    a: Actor<C>,
    per_peer: nat,
    per_subscription: nat,
    strict: bool,
    message: Message,
    outcome: Option<UdpNotifPacketDecoded<P>>,
    reprocessed: bool,
    validation: ValidationView<P>,
    tags: Seq<TagView>,
    well: bool,
    content_id: Option<Seq<char>>,
    info: InfoView,
    library: bool,
    context: Option<C>,
)
    requires
        a.wf(),
    ensures
        Actor::<C>::start(per_peer, per_subscription, strict).wf(),
        a.process(message, outcome, reprocessed).0.wf(),
        a.process(message, outcome, reprocessed).1 matches StepView::Lookup(lookup) ==> a.process(
            message,
            outcome,
            reprocessed,
        ).0.lookup_sent(lookup, well).wf(),
        a.validated(validation, well).0.wf(),
        a.forwarded(tags, well).wf(),
        a.respond(content_id, info, library, context).wf(),
        a.dequeue().wf(),
{
    actor_invariant::lemma_respond(a, content_id, info, library, context);
    if let Some(decoded) = outcome {
        let counted = a.count_decoded(message, decoded, reprocessed);
        assert(counted.wf());
        actor_invariant::lemma_extract(counted, message, decoded);
        if let StepView::Lookup(lookup) = a.process(message, outcome, reprocessed).1 {
            actor_invariant::lemma_buffer(
                a.process(message, outcome, reprocessed).0,
                lookup.info,
                lookup.message,
            );
        }
    }
}

/// No subscription holds more packets than the limit per subscription, and all
/// subscriptions of a publisher together hold no more than the limit per
/// publisher.
pub proof fn law_limits<C>(a: Actor<C>, ip: (bool, u128))
    requires
        a.wf(),
        a.peers.contains_key(ip),
    ensures
        a.peers[ip].total == actor_model::held(
            a.peers[ip].subscriptions,
            a.peers[ip].subscriptions.dom(),
        ),
        a.peers[ip].total <= a.max_per_peer,
        forall|id: SubscriptionId| #[trigger]
            a.peers[ip].subscriptions.contains_key(id)
                ==> a.peers[ip].subscriptions[id].buffered.len() <= a.max_per_subscription,
{
    assert forall|id: SubscriptionId| #[trigger]
        a.peers[ip].subscriptions.contains_key(
            id,
        ) implies a.peers[ip].subscriptions[id].buffered.len() <= a.max_per_subscription by {
        assert(a.peers[ip].subscriptions[id].wf(ip, id, a.max_per_subscription));
    }
}

/// While a schema fetch is in flight for a subscription, a packet of that
/// subscription, an announcement included, is held or dropped: nothing is
/// forwarded, no second fetch is made, and the subscription keeps its identity
/// and goes on waiting.
pub proof fn law_packets_wait_for_the_fetch<C, P>(
    a: Actor<C>,
    message: Message,
    decoded: UdpNotifPacketDecoded<P>,
    reprocessed: bool,
)
    requires
        a.wf(),
        decoded.contents is Some,
        a.awaits(message.session.peer.ip.key(), decoded.contents->0.id()),
    ensures
        ({
            let ip = message.session.peer.ip.key();
            let id = decoded.contents->0.id();
            let before = a.find(ip, id)->0;
            let (b, step) = a.process(message, Some(decoded), reprocessed);
            &&& step is Done
            &&& b.find(ip, id) matches Some(after)
            &&& after == before || after == (Subscription {
                buffered: before.buffered.push(message),
                ..before
            })
        }),
{
    let ip = message.session.peer.ip.key();
    let id = decoded.contents->0.id();
    let counted = a.count_decoded(message, decoded, reprocessed);
    assert(counted.find(ip, id) == a.find(ip, id));
    assert(a.peers.contains_key(ip) && a.peers[ip].subscriptions.contains_key(id));
    assert(a.find(ip, id)->0.wf(ip, id, a.max_per_subscription));
}

/// A lookup is made only where no fetch is in flight for the subscription, and
/// from then on one is.
pub proof fn law_one_fetch_at_a_time<C, P>(
    a: Actor<C>,
    message: Message,
    outcome: Option<UdpNotifPacketDecoded<P>>,
    reprocessed: bool,
)
    requires
        a.wf(),
    ensures
        a.process(message, outcome, reprocessed).1 matches StepView::Lookup(lookup) ==> {
            &&& lookup.message == message
            &&& !a.awaits(message.session.peer.ip.key(), lookup.info.id)
            &&& a.process(message, outcome, reprocessed).0.awaits(
                message.session.peer.ip.key(),
                lookup.info.id,
            )
        },
{
    let ip = message.session.peer.ip.key();
    if let Some(decoded) = outcome {
        let counted = a.count_decoded(message, decoded, reprocessed);
        actor_invariant::lemma_extract(counted, message, decoded);
        actor_invariant::lemma_consult(counted, message.session.peer, decoded);
        if decoded.contents is Some && a.awaits(ip, decoded.contents->0.id()) {
            law_packets_wait_for_the_fetch(a, message, decoded, reprocessed);
        }
    }
}

/// Only a response ends the wait of a subscription: no packet does.
pub proof fn law_only_a_response_ends_the_wait<C, P>(
    a: Actor<C>,
    message: Message,
    outcome: Option<UdpNotifPacketDecoded<P>>,
    reprocessed: bool,
    ip: (bool, u128),
    id: SubscriptionId,
)
    requires
        a.wf(),
        a.awaits(ip, id),
    ensures
        a.process(message, outcome, reprocessed).0.awaits(ip, id),
        forall|info: InfoView, m: Message| #[trigger] a.buffer(info, m).0.awaits(ip, id),
        forall|v: ValidationView<P>, valid: bool| #[trigger] a.validated(v, valid).0.awaits(ip, id),
        forall|tags: Seq<TagView>, sent: bool| #[trigger]
            a.forwarded(tags, sent).awaits(ip, id),
{
    if let Some(decoded) = outcome {
        if belongs(message, outcome, ip, id) {
            law_packets_wait_for_the_fetch(a, message, decoded, reprocessed);
        } else {
            law_others_untouched(a, message, outcome, reprocessed, ip, id);
        }
    }
}

/// Whether the packet belongs to the subscription `id` of the publisher at
/// `ip`.
pub open spec fn belongs<P>(
    message: Message,
    outcome: Option<UdpNotifPacketDecoded<P>>,
    ip: (bool, u128),
    id: SubscriptionId,
) -> bool {
    &&& message.session.peer.ip.key() == ip
    &&& outcome matches Some(decoded)
    &&& decoded.contents matches Some(contents)
    &&& contents.id() == id
}

/// A packet changes no subscription but the one that it belongs to.
pub proof fn law_others_untouched<C, P>(
    a: Actor<C>,
    message: Message,
    outcome: Option<UdpNotifPacketDecoded<P>>,
    reprocessed: bool,
    ip: (bool, u128),
    id: SubscriptionId,
)
    requires
        a.wf(),
        !belongs(message, outcome, ip, id),
    ensures
        a.process(message, outcome, reprocessed).0.find(ip, id) == a.find(ip, id),
{
    if let Some(decoded) = outcome {
        let counted = a.count_decoded(message, decoded, reprocessed);
        actor_invariant::lemma_consult(counted, message.session.peer, decoded);
        actor_invariant::lemma_extract(counted, message, decoded);
        assert(counted.find(ip, id) == a.find(ip, id));
        if let Some(contents) = decoded.contents {
            if let Some(s) = counted.find(message.session.peer.ip.key(), contents.id()) {
                assert(s.wf(
                    message.session.peer.ip.key(),
                    contents.id(),
                    a.max_per_subscription,
                ));
            }
            if let Some(announced) = contents.announced() {
                if let Some(info) = actor_model::described(
                    message.session.peer.ip,
                    announced,
                    text::opt_view(decoded.canonical_xpath),
                ) {
                    lemma_supersede_frame(
                        counted,
                        message.session.peer.ip.key(),
                        info,
                        ip,
                        id,
                    );
                }
            }
        }
    }
}

proof fn lemma_supersede_frame<C>(
    a: Actor<C>,
    own: (bool, u128),
    info: InfoView,
    ip: (bool, u128),
    id: SubscriptionId,
)
    requires
        own != ip || info.id != id,
    ensures
        a.supersede(own, info).find(ip, id) == a.find(ip, id),
{
    if a.peers.contains_key(own) {
        let p = a.peers[own];
        if p.subscriptions.remove(info.id).dom() == Set::<SubscriptionId>::empty() {
            assert(own == ip ==> !p.subscriptions.contains_key(id)) by {
                if own == ip && p.subscriptions.contains_key(id) {
                    assert(p.subscriptions.remove(info.id).dom().contains(id));
                }
            }
        }
        if p.subscriptions.dom() == Set::<SubscriptionId>::empty() {
            assert(!p.subscriptions.dom().contains(id));
        }
    }
}

/// A response changes no subscription but the one that it was looked up for,
/// and none at all where that one is not on file.
pub proof fn law_response_frame<C>(
    a: Actor<C>,
    content_id: Option<Seq<char>>,
    info: InfoView,
    library: bool,
    context: Option<C>,
    ip: (bool, u128),
    id: SubscriptionId,
)
    requires
        a.wf(),
    ensures
        (ip, id) != (info.peer_ip.key(), info.id) ==> a.respond(
            content_id,
            info,
            library,
            context,
        ).find(ip, id) == a.find(ip, id),
        a.find(info.peer_ip.key(), info.id) is None ==> a.respond(
            content_id,
            info,
            library,
            context,
        ) == a,
{
}

/// A response loses no packet: what leaves the hold buffer enters the queue.
pub proof fn law_response_keeps_every_packet<C>(
    a: Actor<C>,
    content_id: Option<Seq<char>>,
    info: InfoView,
    library: bool,
    context: Option<C>,
)
    requires
        a.wf(),
        a.find(info.peer_ip.key(), info.id) is Some,
    ensures
        ({
            let ip = info.peer_ip.key();
            let b = a.respond(content_id, info, library, context);
            &&& b.queue == a.queue + a.find(ip, info.id)->0.buffered
            &&& b.peers[ip].total + b.queue.len() == a.peers[ip].total + a.queue.len()
        }),
{
    actor_invariant::lemma_respond(a, content_id, info, library, context);
}

/// Holds packets one after the other.
pub open spec fn hold_all<C>(a: Actor<C>, info: InfoView, messages: Seq<Message>) -> Actor<C>
    decreases messages.len(),
{
    if messages.len() == 0 {
        a
    } else {
        hold_all(a, info, messages.drop_last()).buffer(info, messages.last()).0
    }
}

proof fn lemma_hold_all<C>(a: Actor<C>, info: InfoView, messages: Seq<Message>)
    requires
        a.wf(),
        a.awaits(info.peer_ip.key(), info.id),
        forall|i: int|
            0 <= i < messages.len() ==> (#[trigger] messages[i]).session.peer.ip.key()
                == info.peer_ip.key(),
        a.find(info.peer_ip.key(), info.id)->0.buffered.len() + messages.len()
            <= a.max_per_subscription,
        a.peers[info.peer_ip.key()].total + messages.len() <= a.max_per_peer,
    ensures
        ({
            let b = hold_all(a, info, messages);
            let s = a.find(info.peer_ip.key(), info.id)->0;
            &&& b.wf()
            &&& b.find(info.peer_ip.key(), info.id) == Some(
                Subscription { buffered: s.buffered + messages, ..s },
            )
            &&& b.peers[info.peer_ip.key()].total == a.peers[info.peer_ip.key()].total
                + messages.len()
            &&& b.queue == a.queue
            &&& b.max_per_peer == a.max_per_peer
            &&& b.max_per_subscription == a.max_per_subscription
        }),
    decreases messages.len(),
{
    let ip = info.peer_ip.key();
    let s = a.find(ip, info.id)->0;
    if messages.len() == 0 {
        assert(s.buffered + messages =~= s.buffered);
    } else {
        let front = messages.drop_last();
        lemma_hold_all(a, info, front);
        let mid = hold_all(a, info, front);
        assert(messages.last().session.peer.ip.key() == ip);
        actor_invariant::lemma_buffer(mid, info, messages.last());
        assert((s.buffered + front).push(messages.last()) =~= s.buffered + messages);
    }
}

/// Packets that were held come out once the response is there, all of them and
/// in the order in which they came in, behind what was let out before.
pub proof fn law_held_packets_come_out_in_order<C>(
    a: Actor<C>,
    info: InfoView,
    messages: Seq<Message>,
    answer: InfoView,
    content_id: Option<Seq<char>>,
    library: bool,
    context: Option<C>,
)
    requires
        a.wf(),
        a.awaits(info.peer_ip.key(), info.id),
        forall|i: int|
            0 <= i < messages.len() ==> (#[trigger] messages[i]).session.peer.ip.key()
                == info.peer_ip.key(),
        a.find(info.peer_ip.key(), info.id)->0.buffered.len() + messages.len()
            <= a.max_per_subscription,
        a.peers[info.peer_ip.key()].total + messages.len() <= a.max_per_peer,
        answer.peer_ip == info.peer_ip,
        answer.id == info.id,
    ensures
        ({
            let held = a.find(info.peer_ip.key(), info.id)->0.buffered;
            let b = hold_all(a, info, messages).respond(content_id, answer, library, context);
            &&& b.queue == a.queue + held + messages
            &&& b.find(info.peer_ip.key(), info.id) matches Some(s)
            &&& s.buffered.len() == 0 && !s.pending
        }),
{
    lemma_hold_all(a, info, messages);
    let held = a.find(info.peer_ip.key(), info.id)->0.buffered;
    assert(a.queue + (held + messages) =~= a.queue + held + messages);
}

/// Packets leave the queue in the order in which they entered it.
pub proof fn law_queue_is_first_in_first_out<C>(a: Actor<C>)
    requires
        a.queue.len() > 0,
    ensures
        a.queue == seq![a.queue[0]] + a.dequeue().queue,
{
    assert(a.queue =~= seq![a.queue[0]] + a.dequeue().queue);
}

/// A packet goes on with a content id only if it was validated against the
/// schema with that content id, and found valid.
pub proof fn law_content_id_means_validated<C, P>(
    a: Actor<C>,
    message: Message,
    outcome: Option<UdpNotifPacketDecoded<P>>,
    reprocessed: bool,
    validation: ValidationView<P>,
    valid: bool,
)
    ensures
        a.process(message, outcome, reprocessed).1 matches StepView::Forward(f)
            ==> f.content_id is None,
        match a.validated(validation, valid).1 {
            StepView::Forward(f) => valid && f.content_id == Some(validation.content_id) && f.packet
                == validation.decoded,
            StepView::Done => !valid,
            _ => false,
        },
{
}

/// What is sent on of a packet is what the decoder made of it, with the session
/// that it came through.
pub proof fn law_packet_is_sent_on_as_decoded<C, P>(
    a: Actor<C>,
    message: Message,
    decoded: UdpNotifPacketDecoded<P>,
    reprocessed: bool,
    valid: bool,
)
    ensures
        match a.process(message, Some(decoded), reprocessed).1 {
            StepView::Forward(f) => f.packet == decoded && f.session == message.session,
            StepView::Validate(v) => a.validated(v, valid).1 matches StepView::Forward(f) ==> (
            f.packet == decoded && f.session == message.session),
            _ => true,
        },
{
}

/// Putting a target into canonical form changes its XPath filter alone, and
/// nothing at all where there is no such filter or it has no such form. Doing it
/// again changes nothing, where the canonical form is its own canonical form or
/// has none.
pub proof fn law_canonical_target(
    target: TargetView,
    canonical: Option<Seq<char>>,
    again: Option<Seq<char>>,
)
    ensures
        ({
            let once = actor_model::canonical_target(target, canonical);
            &&& once == (TargetView {
                datastore_xpath_filter: once.datastore_xpath_filter,
                ..target
            })
            &&& target.datastore_xpath_filter is None || canonical is None ==> once == target
            &&& again is None || again == canonical ==> actor_model::canonical_target(once, again)
                == once
        }),
{
}

/// A packet that asks for nothing more to be done was put into a hold buffer
/// or counted as dropped.
pub proof fn law_no_packet_vanishes<C, P>(
    a: Actor<C>,
    message: Message,
    outcome: Option<UdpNotifPacketDecoded<P>>,
    reprocessed: bool,
)
    requires
        a.wf(),
        a.process(message, outcome, reprocessed).1 is Done,
    ensures
        ({
            let ip = message.session.peer.ip.key();
            let b = a.process(message, outcome, reprocessed).0;
            ||| b.events.len() > a.events.len() && b.events.last().instrument
                == Instrument::Dropped
            ||| outcome is Some && outcome->0.contents is Some && {
                let id = outcome->0.contents->0.id();
                &&& a.find(ip, id) matches Some(s)
                &&& b.find(ip, id) == Some(
                    Subscription { buffered: s.buffered.push(message), ..s },
                )
            }
        }),
{
    let ip = message.session.peer.ip.key();
    if let Some(decoded) = outcome {
        let counted = a.count_decoded(message, decoded, reprocessed);
        actor_invariant::lemma_consult(counted, message.session.peer, decoded);
        if let Some(contents) = decoded.contents {
            assert(counted.find(ip, contents.id()) == a.find(ip, contents.id()));
            if let Some(s) = counted.find(ip, contents.id()) {
                assert(s.wf(ip, contents.id(), a.max_per_subscription));
            }
        }
    }
}

/// An announcement that does not tell the modules is dropped: it starts no
/// fetch, and leaves what is known as it is. It is held, as any packet is,
/// while a fetch is in flight for its subscription.
pub proof fn law_incomplete_announcement_is_dropped<C, P>(
    a: Actor<C>,
    message: Message,
    decoded: UdpNotifPacketDecoded<P>,
    reprocessed: bool,
)
    requires
        actor_model::announces(decoded),
        decoded.contents->0.announced()->0.module_version is None,
        !a.awaits(message.session.peer.ip.key(), decoded.contents->0.id()),
    ensures
        ({
            let (b, step) = a.process(message, Some(decoded), reprocessed);
            &&& step is Done
            &&& b.peers == a.peers
            &&& b.queue == a.queue
            &&& b == a.count_decoded(message, decoded, reprocessed).drop_packet(
                actor_model::packet_tags(message),
                DropReason::IncompleteSubscriptionStarted,
            )
        }),
{
    let ip = message.session.peer.ip.key();
    let id = decoded.contents->0.id();
    let counted = a.count_decoded(message, decoded, reprocessed);
    assert(counted.find(ip, id) == a.find(ip, id));
}

/// What a packet that announces a subscription says of it.
pub open spec fn announcement<P>(message: Message, decoded: UdpNotifPacketDecoded<P>) -> Option<
    InfoView,
> {
    if actor_model::announces(decoded) {
        actor_model::described(
            message.session.peer.ip,
            decoded.contents->0.announced()->0,
            text::opt_view(decoded.canonical_xpath),
        )
    } else {
        None
    }
}

/// An announcement that says what is on file already, and for which no fetch
/// is in flight, changes nothing that is known and starts no fetch.
pub proof fn law_repeated_announcement_is_no_news<C, P>(
    a: Actor<C>,
    message: Message,
    decoded: UdpNotifPacketDecoded<P>,
    reprocessed: bool,
)
    requires
        a.wf(),
        announcement(message, decoded) matches Some(info) && a.find(
            message.session.peer.ip.key(),
            info.id,
        ) matches Some(s) && s.info == info && !s.pending,
    ensures
        a.process(message, Some(decoded), reprocessed).0.peers == a.peers,
        a.process(message, Some(decoded), reprocessed).1 is Validate || a.process(
            message,
            Some(decoded),
            reprocessed,
        ).1 is Forward,
{
    let ip = message.session.peer.ip.key();
    let info = announcement(message, decoded)->0;
    let counted = a.count_decoded(message, decoded, reprocessed);
    assert(counted.find(ip, info.id) == a.find(ip, info.id));
    assert(counted.peers[ip].subscriptions.dom().contains(info.id));
    assert(counted.supersede(ip, info).peers =~= a.peers);
}

/// An announcement of a subscription that is not on file, or of one that is
/// other than what is on file, and for which no fetch is in flight, starts a
/// fetch for it, and what was on file is gone, its schema with it. No packet is
/// lost by that, for none was held.
pub proof fn law_new_announcement_is_looked_up<C, P>(
    a: Actor<C>,
    message: Message,
    decoded: UdpNotifPacketDecoded<P>,
    reprocessed: bool,
)
    requires
        a.wf(),
        announcement(message, decoded) matches Some(info) && !(a.find(
            message.session.peer.ip.key(),
            info.id,
        ) matches Some(s) && (s.info == info || s.pending)),
    ensures
        ({
            let ip = message.session.peer.ip.key();
            let info = announcement(message, decoded)->0;
            let (b, step) = a.process(message, Some(decoded), reprocessed);
            &&& step == StepView::<P>::Lookup(
                LookupView {
                    info,
                    by: CacheLookupBy::SubscriptionInfo,
                    message,
                },
            )
            &&& b.find(ip, info.id) == Some(
                Subscription { pending: true, ..actor_model::fresh::<C>(info) },
            )
            &&& a.find(ip, info.id) matches Some(s) ==> s.buffered.len() == 0
        }),
{
    let ip = message.session.peer.ip.key();
    let info = announcement(message, decoded)->0;
    if let Some(s) = a.find(ip, info.id) {
        assert(s.wf(ip, info.id, a.max_per_subscription));
    }
    let counted = a.count_decoded(message, decoded, reprocessed);
    assert(counted.find(ip, info.id) == a.find(ip, info.id));
    assert(counted.supersede(ip, info).find(ip, info.id) is None);
}

/// The packet that a lookup was made for is held, and alone, once the lookup
/// is under way, if the limits leave room for it.
pub proof fn law_lookup_holds_its_packet<C, P>(
    a: Actor<C>,
    message: Message,
    outcome: Option<UdpNotifPacketDecoded<P>>,
    reprocessed: bool,
)
    requires
        a.wf(),
        a.process(message, outcome, reprocessed).1 is Lookup,
        a.max_per_subscription > 0,
        a.process(message, outcome, reprocessed).0.peers[message.session.peer.ip.key()].total
            < a.max_per_peer,
    ensures
        ({
            let (b, step) = a.process(message, outcome, reprocessed);
            let lookup = step->Lookup_0;
            &&& b.lookup_sent(lookup, true).find(
                message.session.peer.ip.key(),
                lookup.info.id,
            ) matches Some(s)
            &&& s.pending
            &&& s.info == lookup.info
            &&& s.buffered == seq![message]
        }),
{
    let ip = message.session.peer.ip.key();
    let decoded = outcome->0;
    let counted = a.count_decoded(message, decoded, reprocessed);
    actor_invariant::lemma_consult(counted, message.session.peer, decoded);
    actor_invariant::lemma_extract(counted, message, decoded);
    let (b, step) = a.process(message, outcome, reprocessed);
    let lookup = step->Lookup_0;
    let s = b.find(ip, lookup.info.id)->0;
    assert(s == (Subscription { pending: true, ..actor_model::fresh::<C>(lookup.info) }));
    assert(s.buffered.push(message) =~= seq![message]);
}

/// Once a response is there, each further packet of the subscription goes on
/// at once, from whatever port of the publisher it comes: to be validated
/// where a schema was loaded, and unvalidated, with the reason told, where none
/// was.
pub proof fn law_after_the_response<C, P>(
    a: Actor<C>,
    content_id: Option<Seq<char>>,
    info: InfoView,
    library: bool,
    context: Option<C>,
    message: Message,
    decoded: UdpNotifPacketDecoded<P>,
    reprocessed: bool,
)
    requires
        a.wf(),
        a.find(info.peer_ip.key(), info.id) is Some,
        message.session.peer.ip == info.peer_ip,
        decoded.contents == Some(NotificationVariant::Other(info.id)),
    ensures
        ({
            let b = a.respond(content_id, info, library, context);
            let (c, step) = b.process(message, Some(decoded), reprocessed);
            &&& c.peers == b.peers
            &&& if info.is_empty() {
                step == StepView::Forward(
                    actor_model::forwarding(None, info, message, decoded),
                ) && reports(c, SkipReason::NoSubscriptionInfo)
            } else if library && content_id is Some && context is Some {
                step matches StepView::Validate(v) && v.info == info && Some(v.content_id)
                    == content_id && v.message == message && v.decoded == decoded
            } else if library && content_id is Some {
                step == StepView::Forward(
                    actor_model::forwarding(None, info, message, decoded),
                ) && reports(c, SkipReason::ContextFailed)
            } else {
                step == StepView::Forward(
                    actor_model::forwarding(None, info, message, decoded),
                ) && reports(c, SkipReason::NoLibrary)
            }
        }),
{
}

/// Whether the last thing recorded is that validation was skipped for this
/// reason.
pub open spec fn reports<C>(a: Actor<C>, reason: SkipReason) -> bool {
    &&& a.events.len() > 0
    &&& a.events.last().instrument == Instrument::Skipped
    &&& a.events.last().tags.len() > 0
    &&& a.events.last().tags.last() == TagView::Skipped(reason)
}

/// Whether the subscription, if it has a schema, has its content id.
pub open spec fn identified<C>(subscription: Option<Subscription<C>>) -> bool {
    subscription matches Some(s) ==> (s.context is Some ==> s.content_id is Some)
}

/// Whether every loaded schema has its content id.
pub open spec fn schemas_identified<C>(a: Actor<C>) -> bool {
    forall|ip: (bool, u128), id: SubscriptionId|
        identified(#[trigger] a.find(ip, id))
}

/// Each subscription is in one of four states: a fetch is in flight, a schema
/// is loaded, the schema could not be loaded, or there is no YANG library.
pub proof fn law_subscription_states<C>(a: Actor<C>, ip: (bool, u128), id: SubscriptionId)
    requires
        a.wf(),
        schemas_identified(a),
        a.find(ip, id) is Some,
    ensures
        ({
            let s = a.find(ip, id)->0;
            ||| s.pending && s.context is None && s.content_id is None
            ||| !s.pending && s.context is Some && s.content_id is Some
            ||| !s.pending && s.context is None && s.content_id is Some
            ||| !s.pending && s.context is None && s.content_id is None
        }),
{
    assert(a.peers[ip].subscriptions.contains_key(id));
    assert(a.find(ip, id)->0.wf(ip, id, a.max_per_subscription));
}

/// Every loaded schema has its content id, as long as each response that
/// brings a schema brings its content id.
pub proof fn law_schemas_stay_identified<C, P>(
    a: Actor<C>,
    message: Message,
    outcome: Option<UdpNotifPacketDecoded<P>>,
    reprocessed: bool,
    content_id: Option<Seq<char>>,
    info: InfoView,
    library: bool,
    context: Option<C>,
)
    requires
        a.wf(),
        schemas_identified(a),
        library && context is Some ==> content_id is Some,
    ensures
        schemas_identified(a.process(message, outcome, reprocessed).0),
        schemas_identified(a.respond(content_id, info, library, context)),
{
    let b = a.process(message, outcome, reprocessed).0;
    assert forall|ip: (bool, u128), id: SubscriptionId|
        identified(#[trigger] b.find(ip, id)) by {
        if belongs(message, outcome, ip, id) {
            let decoded = outcome->0;
            let counted = a.count_decoded(message, decoded, reprocessed);
            actor_invariant::lemma_consult(counted, message.session.peer, decoded);
            actor_invariant::lemma_extract(counted, message, decoded);
            assert(counted.find(ip, id) == a.find(ip, id));
            assert(identified(a.find(ip, id)));
            if a.awaits(ip, id) {
                law_packets_wait_for_the_fetch(a, message, decoded, reprocessed);
            }
        } else {
            law_others_untouched(a, message, outcome, reprocessed, ip, id);
            assert(identified(a.find(ip, id)));
        }
    }
    let c = a.respond(content_id, info, library, context);
    assert forall|ip: (bool, u128), id: SubscriptionId|
        identified(#[trigger] c.find(ip, id)) by {
        law_response_frame(a, content_id, info, library, context, ip, id);
        assert(identified(a.find(ip, id)));
    }
}

} // verus!
