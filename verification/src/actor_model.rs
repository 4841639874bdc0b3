//! What the validation actor does, as functions on its state.

use crate::metrics;
use crate::metrics::{CacheLookupBy, DropReason, EventView, Instrument, SkipReason, TagView};
use crate::notification::{
    SessionInfo, SubscriptionStartedModified, UdpNotifPacketDecoded, UdpNotifRequest,
};
use crate::subscription;
use crate::subscription::{
    InfoView, ModuleVersionView, PeerAddress, PeerIp, SubscriptionId, TargetView,
};
use crate::text;
use std::sync::Arc;
use vstd::prelude::*;

verus! {

/// A packet that the actor holds.
pub type Message = Arc<UdpNotifRequest>;

/// The state of one subscription.
///
/// | `pending` | `context` | `content_id` | meaning                                  |
/// |-----------|-----------|--------------|------------------------------------------|
/// | `true`    | none      | none         | a schema fetch is in flight              |
/// | `false`   | some      | some         | the schema is loaded, messages validated |
/// | `false`   | none      | some         | the schema could not be loaded           |
/// | `false`   | none      | none         | there is no YANG library                 |
#[verifier::ext_equal]
#[verifier::reject_recursive_types(C)]
pub struct Subscription<C> {
    pub content_id: Option<Seq<char>>,
    pub info: InfoView,
    pub context: Option<C>,
    pub buffered: Seq<Message>,
    pub pending: bool,
}

/// The subscriptions of one publisher, and how many packets they hold.
#[verifier::ext_equal]
#[verifier::reject_recursive_types(C)]
pub struct Publisher<C> {
    pub subscriptions: Map<SubscriptionId, Subscription<C>>,
    pub total: nat,
}

/// The state of the actor.
#[verifier::ext_equal]
#[verifier::reject_recursive_types(C)]
pub struct Actor<C> {
    pub max_per_peer: nat,
    pub max_per_subscription: nat,
    pub anydata_strict: bool,
    pub peers: Map<(bool, u128), Publisher<C>>,
    /// Packets let out of a hold buffer that wait to be processed again.
    pub queue: Seq<Message>,
    /// What the instruments recorded and nobody has taken yet.
    pub events: Seq<EventView>,
}

/// A subscription as it is first heard of.
pub open spec fn fresh<C>(info: InfoView) -> Subscription<C> {
    Subscription {
        content_id: None,
        info,
        context: None,
        buffered: Seq::empty(),
        pending: false,
    }
}

/// A publisher as it is first heard of.
pub open spec fn no_subscriptions<C>() -> Publisher<C> {
    Publisher { subscriptions: Map::empty(), total: 0 }
}

/// The number of packets that the subscriptions in `ids` hold.
pub open spec fn held<C>(
    subscriptions: Map<SubscriptionId, Subscription<C>>,
    ids: Set<SubscriptionId>,
) -> nat
    decreases ids.len(),
    when ids.finite()
{
    if ids.len() == 0 {
        0
    } else {
        let id = ids.choose();
        subscriptions[id].buffered.len() + held(subscriptions, ids.remove(id))
    }
}

impl<C> Subscription<C> {
    /// What holds of the subscription `id` of the publisher at `ip` at all
    /// times: it is filed under its own identity, its hold buffer is within
    /// the limit and holds packets of that publisher alone, and only while a
    /// fetch is in flight, and while one is, no schema is held.
    pub open spec fn wf(self, ip: (bool, u128), id: SubscriptionId, limit: nat) -> bool {
        &&& self.info.peer_ip.key() == ip
        &&& self.info.id == id
        &&& self.buffered.len() <= limit
        &&& forall|i: int|
            0 <= i < self.buffered.len() ==> (#[trigger] self.buffered[i]).session.peer.ip.key()
                == ip
        &&& !self.pending ==> self.buffered.len() == 0
        &&& self.pending ==> self.context is None && self.content_id is None
    }
}

impl<C> Publisher<C> {
    /// What holds of the publisher at `ip` at all times: it has subscriptions,
    /// each of them in order, and its count of held packets is right and
    /// within the limit.
    pub open spec fn wf(self, ip: (bool, u128), per_peer: nat, per_subscription: nat) -> bool {
        &&& self.subscriptions.dom().finite()
        &&& exists|id: SubscriptionId| self.subscriptions.contains_key(id)
        &&& self.total == held(self.subscriptions, self.subscriptions.dom())
        &&& self.total <= per_peer
        &&& forall|id: SubscriptionId| #[trigger]
            self.subscriptions.contains_key(id) ==> self.subscriptions[id].wf(
                ip,
                id,
                per_subscription,
            )
    }
}

impl<C> Actor<C> {
    /// What holds of the actor at all times.
    pub open spec fn wf(self) -> bool {
        &&& self.peers.dom().finite()
        &&& forall|ip: (bool, u128)| #[trigger]
            self.peers.contains_key(ip) ==> self.peers[ip].wf(
                ip,
                self.max_per_peer,
                self.max_per_subscription,
            )
    }

    /// The actor before its first packet.
    pub open spec fn start(
        max_per_peer: nat,
        max_per_subscription: nat,
        anydata_strict: bool,
    ) -> Self {
        Actor {
            max_per_peer,
            max_per_subscription,
            anydata_strict,
            peers: Map::empty(),
            queue: Seq::empty(),
            events: Seq::empty(),
        }
    }

    /// The subscription `id` of the publisher at `ip`.
    pub open spec fn find(self, ip: (bool, u128), id: SubscriptionId) -> Option<Subscription<C>> {
        if self.peers.contains_key(ip) && self.peers[ip].subscriptions.contains_key(id) {
            Some(self.peers[ip].subscriptions[id])
        } else {
            None
        }
    }

    /// Whether a schema fetch is in flight for the subscription.
    pub open spec fn awaits(self, ip: (bool, u128), id: SubscriptionId) -> bool {
        self.find(ip, id) is Some && self.find(ip, id)->0.pending
    }

    /// The publisher at `ip`, known or not.
    pub open spec fn publisher(self, ip: (bool, u128)) -> Publisher<C> {
        if self.peers.contains_key(ip) {
            self.peers[ip]
        } else {
            no_subscriptions()
        }
    }

    pub open spec fn with_publisher(self, ip: (bool, u128), publisher: Publisher<C>) -> Self {
        Actor { peers: self.peers.insert(ip, publisher), ..self }
    }

    /// An instrument records a value.
    pub open spec fn record(
        self,
        instrument: Instrument,
        value: nat,
        tags: Seq<TagView>,
    ) -> Self {
        Actor { events: self.events.push(EventView { instrument, value, tags }), ..self }
    }

    /// A packet is dropped.
    pub open spec fn drop_packet(self, tags: Seq<TagView>, reason: DropReason) -> Self {
        self.record(Instrument::Dropped, 1, tags.push(TagView::Dropped(reason)))
    }

    /// An announced subscription supersedes the one filed under its id, if
    /// that one is another.
    pub open spec fn supersede(self, ip: (bool, u128), info: InfoView) -> Self {
        if !self.peers.contains_key(ip) {
            self
        } else {
            let publisher = self.peers[ip];
            let kept = match self.find(ip, info.id) {
                Some(s) if s.info != info => Publisher {
                    subscriptions: publisher.subscriptions.remove(info.id),
                    total: (publisher.total - s.buffered.len()) as nat,
                },
                _ => publisher,
            };
            if kept.subscriptions.dom() == Set::<SubscriptionId>::empty() {
                Actor { peers: self.peers.remove(ip), ..self }
            } else {
                self.with_publisher(ip, kept)
            }
        }
    }

    /// A packet is put into the hold buffer of its subscription, or dropped
    /// where that buffer, or the publisher's, is full; and whether it was put
    /// there.
    pub open spec fn buffer(self, info: InfoView, message: Message) -> (Self, bool) {
        let ip = message.session.peer.ip.key();
        let tags = packet_tags(message);
        let publisher = self.publisher(ip);
        let known = self.with_publisher(ip, publisher);
        let subscription = if publisher.subscriptions.contains_key(info.id) {
            publisher.subscriptions[info.id]
        } else {
            fresh(info)
        };
        if subscription.buffered.len() >= self.max_per_subscription {
            (known.drop_packet(tags, DropReason::BufferFullSubscription), false)
        } else if publisher.total >= self.max_per_peer {
            (known.drop_packet(tags, DropReason::BufferFullPeer), false)
        } else {
            let filled = Subscription {
                buffered: subscription.buffered.push(message),
                ..subscription
            };
            let counted = Publisher {
                subscriptions: publisher.subscriptions.insert(info.id, filled),
                total: publisher.total + 1,
            };
            (
                self.with_publisher(ip, counted).record(
                    Instrument::Buffered,
                    publisher.total + 1,
                    tags,
                ),
                true,
            )
        }
    }

    /// A schema fetch for the subscription takes off.
    pub open spec fn mark_pending(self, ip: (bool, u128), info: InfoView) -> Self {
        let publisher = self.publisher(ip);
        let subscription = if publisher.subscriptions.contains_key(info.id) {
            publisher.subscriptions[info.id]
        } else {
            fresh(info)
        };
        self.with_publisher(
            ip,
            Publisher {
                subscriptions: publisher.subscriptions.insert(
                    info.id,
                    Subscription { pending: true, ..subscription },
                ),
                ..publisher
            },
        )
    }

    /// What is known of the subscription that a notification belongs to: what
    /// the notification announces, or what is on file; and, where that is on
    /// file, the content id of its schema.
    pub open spec fn consult<P>(
        self,
        peer: PeerAddress,
        decoded: UdpNotifPacketDecoded<P>,
    ) -> (Self, Option<(InfoView, Option<Option<Seq<char>>>)>) {
        let ip = peer.ip.key();
        match decoded.contents {
            None => (self, None),
            Some(contents) => match contents.announced() {
                Some(announced) => match described(
                    peer.ip,
                    announced,
                    text::opt_view(decoded.canonical_xpath),
                ) {
                    None => (self, None),
                    Some(info) => {
                        let after = self.supersede(ip, info);
                        let on_file = match after.find(ip, info.id) {
                            Some(s) => Some(s.content_id),
                            None => None,
                        };
                        (after, Some((info, on_file)))
                    },
                },
                None => match self.find(ip, contents.id()) {
                    None => (self, None),
                    Some(s) => (self, Some((s.info, Some(s.content_id)))),
                },
            },
        }
    }

    /// Finds out which subscription a packet belongs to. The packet is held
    /// while a schema fetch is in flight, starts one where none was made, and
    /// is dropped where it names no subscription or announces one in part.
    pub open spec fn extract<P>(
        self,
        message: Message,
        decoded: UdpNotifPacketDecoded<P>,
    ) -> (Self, ExtractionView) {
        let peer = message.session.peer;
        let ip = peer.ip.key();
        let tags = packet_tags(message);
        if announces(decoded) && self.awaits(ip, decoded.contents->0.id()) {
            let id = decoded.contents->0.id();
            let (after, held) = self.buffer(self.find(ip, id)->0.info, message);
            (
                if held {
                    after.record(
                        Instrument::SubscriptionUpdateDeferred,
                        1,
                        tags.push(TagView::SubscriptionId(id)),
                    )
                } else {
                    after
                },
                ExtractionView::Settled,
            )
        } else {
            let (after, found) = self.consult(peer, decoded);
            match found {
                Some((info, Some(content_id))) => {
                    if content_id is None && after.awaits(ip, info.id) {
                        (after.buffer(info, message).0, ExtractionView::Settled)
                    } else {
                        (after, ExtractionView::Known(info))
                    }
                },
                Some((info, None)) => (
                    after.record(
                        Instrument::CacheLookups,
                        1,
                        stream_tags(message, info).push(
                            TagView::LookupBy(CacheLookupBy::SubscriptionInfo),
                        ),
                    ).mark_pending(ip, info),
                    ExtractionView::Lookup(info, CacheLookupBy::SubscriptionInfo),
                ),
                None => {
                    if announces(decoded) {
                        (
                            after.drop_packet(tags, DropReason::IncompleteSubscriptionStarted),
                            ExtractionView::Settled,
                        )
                    } else {
                        match decoded.contents {
                            Some(contents) => {
                                let info = subscription::empty_info(peer.ip, contents.id());
                                (
                                    after.record(
                                        Instrument::CacheLookups,
                                        1,
                                        tags.push(
                                            TagView::LookupBy(CacheLookupBy::SubscriptionId),
                                        ),
                                    ).mark_pending(ip, info),
                                    ExtractionView::Lookup(info, CacheLookupBy::SubscriptionId),
                                )
                            },
                            None => (
                                after.drop_packet(tags, DropReason::NoSubscriptionId),
                                ExtractionView::Settled,
                            ),
                        }
                    }
                },
            }
        }
    }

    /// Counts a decoded packet, the first time that it is processed.
    pub open spec fn count_decoded<P>(
        self,
        message: Message,
        decoded: UdpNotifPacketDecoded<P>,
        reprocessed: bool,
    ) -> Self {
        if reprocessed {
            self
        } else {
            self.record(
                Instrument::Decoded,
                1,
                match decoded.contents {
                    Some(contents) => packet_tags(message).push(
                        TagView::SubscriptionId(contents.id()),
                    ),
                    None => packet_tags(message),
                },
            )
        }
    }

    /// Processes a packet up to the work that is done elsewhere: sending a
    /// lookup, validating, or forwarding.
    pub open spec fn process<P>(
        self,
        message: Message,
        decoded: Option<UdpNotifPacketDecoded<P>>,
        reprocessed: bool,
    ) -> (Self, StepView<P>) {
        let tags = packet_tags(message);
        match decoded {
            None => (self.drop_packet(tags, DropReason::DecodeError), StepView::Done),
            Some(d) => {
                let (after, extraction) = self.count_decoded(message, d, reprocessed).extract(
                    message,
                    d,
                );
                match extraction {
                    ExtractionView::Settled => (after, StepView::Done),
                    ExtractionView::Lookup(info, by) => (
                        after,
                        StepView::Lookup(LookupView { info, by, message }),
                    ),
                    ExtractionView::Known(info) => {
                        let subscription = after.find(message.session.peer.ip.key(), info.id)->0;
                        if subscription.validates() && !info.is_empty() {
                            (
                                after,
                                StepView::Validate(
                                    ValidationView {
                                        info,
                                        content_id: subscription.content_id->0,
                                        message,
                                        decoded: d,
                                        mode: if d.legacy {
                                            ValidationMode::LegacyNotification
                                        } else {
                                            ValidationMode::Data {
                                                anydata_strict: self.anydata_strict,
                                            }
                                        },
                                    },
                                ),
                            )
                        } else {
                            (
                                after.record(
                                    Instrument::Skipped,
                                    1,
                                    stream_tags(message, info).push(
                                        TagView::Skipped(subscription.skips(info)),
                                    ),
                                ),
                                StepView::Forward(forwarding(None, info, message, d)),
                            )
                        }
                    },
                }
            },
        }
    }

    /// The lookup for a packet was sent, or could not be.
    pub open spec fn lookup_sent(self, lookup: LookupView, sent: bool) -> Self {
        if sent {
            self.buffer(lookup.info, lookup.message).0
        } else {
            self
        }
    }

    /// A packet was found valid, or not.
    pub open spec fn validated<P>(self, validation: ValidationView<P>, valid: bool) -> (Self, StepView<P>) {
        let tags = stream_tags(validation.message, validation.info);
        if valid {
            (
                self.record(Instrument::Validated, 1, tags),
                StepView::Forward(
                    forwarding(
                        Some(validation.content_id),
                        validation.info,
                        validation.message,
                        validation.decoded,
                    ),
                ),
            )
        } else {
            (self.drop_packet(tags, DropReason::ValidationFailed), StepView::Done)
        }
    }

    /// A packet with these tags was forwarded, or could not be.
    pub open spec fn forwarded(self, tags: Seq<TagView>, sent: bool) -> Self {
        if sent {
            self.record(Instrument::Sent, 1, tags)
        } else {
            self.drop_packet(tags, DropReason::SendError)
        }
    }

    /// What the instruments record when packets leave a hold buffer.
    pub open spec fn drain_events(messages: Seq<Message>, info: InfoView) -> Seq<EventView> {
        messages.map_values(
            |m: Message|
                EventView {
                    instrument: Instrument::BufferDrained,
                    value: 1,
                    tags: stream_tags(m, info),
                },
        )
    }

    /// A schema fetch came back: `library` tells whether a YANG library was
    /// found, `context` is what was loaded from it.
    pub open spec fn respond(
        self,
        content_id: Option<Seq<char>>,
        info: InfoView,
        library: bool,
        context: Option<C>,
    ) -> Self {
        let ip = info.peer_ip.key();
        match self.find(ip, info.id) {
            None => self,
            Some(s) => {
                let tags = seq![TagView::PeerAddress(info.peer_ip)] + metrics::subscription_tags(
                    info,
                );
                let outcome = if !library {
                    Instrument::YangContextEmpty
                } else if context is Some {
                    Instrument::YangContextLoaded
                } else {
                    Instrument::YangContextFailed
                };
                let settled = Subscription {
                    content_id: if library {
                        content_id
                    } else {
                        None
                    },
                    info,
                    context: if library {
                        context
                    } else {
                        None
                    },
                    buffered: Seq::empty(),
                    pending: false,
                };
                let publisher = Publisher {
                    subscriptions: self.peers[ip].subscriptions.insert(info.id, settled),
                    total: (self.peers[ip].total - s.buffered.len()) as nat,
                };
                let counted = self.record(outcome, 1, tags);
                Actor {
                    peers: self.peers.insert(ip, publisher),
                    queue: self.queue + s.buffered,
                    events: counted.events + Self::drain_events(s.buffered, info),
                    ..self
                }.record(Instrument::Buffered, publisher.total, tags).record(
                    Instrument::Pending,
                    (self.queue + s.buffered).len(),
                    Seq::empty(),
                ).record(
                    Instrument::CachedPeers,
                    self.peers.dom().len(),
                    Seq::empty(),
                ).record(
                    Instrument::CachedSubscriptions,
                    publisher.subscriptions.dom().len(),
                    seq![TagView::PeerAddress(info.peer_ip)],
                )
            },
        }
    }

    /// The next packet leaves the queue.
    pub open spec fn dequeue(self) -> Self {
        Actor { queue: self.queue.drop_first(), ..self }.record(
            Instrument::Pending,
            (self.queue.len() - 1) as nat,
            Seq::empty(),
        )
    }
}

impl<C> Subscription<C> {
    /// Whether there is a schema to validate against.
    pub open spec fn validates(self) -> bool {
        self.content_id is Some && self.context is Some
    }

    /// Why a packet of the subscription is not validated.
    pub open spec fn skips(self, info: InfoView) -> SkipReason {
        if info.is_empty() {
            SkipReason::NoSubscriptionInfo
        } else if self.content_id is Some {
            SkipReason::ContextFailed
        } else {
            SkipReason::NoLibrary
        }
    }
}

/// The tags of the packet.
pub open spec fn packet_tags(message: Message) -> Seq<TagView> {
    metrics::peer_tags(message.session.peer, message.packet.publisher_id)
}

/// The tags of the packet, and of the subscription that it belongs to.
pub open spec fn stream_tags(message: Message, info: InfoView) -> Seq<TagView> {
    packet_tags(message) + metrics::subscription_tags(info)
}

/// What is forwarded of a packet.
pub open spec fn forwarding<P>(
    content_id: Option<Seq<char>>,
    info: InfoView,
    message: Message,
    decoded: UdpNotifPacketDecoded<P>,
) -> ForwardView<P> {
    ForwardView {
        content_id,
        info,
        session: message.session,
        packet: decoded,
        tags: stream_tags(message, info),
    }
}

/// Whether the notification announces a subscription, new or modified.
pub open spec fn announces<P>(decoded: UdpNotifPacketDecoded<P>) -> bool {
    decoded.contents is Some && decoded.contents->0.announced() is Some
}

/// What a notification says of the subscription that it announces, if it tells
/// the modules.
pub open spec fn described(
    ip: PeerIp,
    announced: SubscriptionStartedModified,
    canonical_xpath: Option<Seq<char>>,
) -> Option<InfoView> {
    match announced.module_version {
        None => None,
        Some(modules) => Some(
            InfoView {
                peer_ip: ip,
                id: announced.id,
                target: canonical_target(announced.target@, canonical_xpath),
                stop_time: text::opt_view(announced.stop_time),
                transport: text::opt_view(announced.transport),
                encoding: text::opt_view(announced.encoding),
                purpose: text::opt_view(announced.purpose),
                update_trigger: text::opt_view(announced.update_trigger),
                models: subscription::module_views(modules@).push(
                    ModuleVersionView {
                        name: "ietf-subscribed-notifications"@,
                        revision: None,
                        version: None,
                    },
                ),
                content_id: match announced.yang_library_content_id {
                    Some(id) => id@,
                    None => Seq::empty(),
                },
            },
        ),
    }
}

/// The target with its XPath filter in canonical form, where there is such a
/// filter and it has such a form.
pub open spec fn canonical_target(
    target: TargetView,
    canonical_xpath: Option<Seq<char>>,
) -> TargetView {
    if target.datastore_xpath_filter is Some && canonical_xpath is Some {
        TargetView { datastore_xpath_filter: canonical_xpath, ..target }
    } else {
        target
    }
}

/// What came of finding out which subscription a packet belongs to.
pub enum ExtractionView {
    /// The packet is held or dropped.
    Settled,
    /// The packet belongs to this subscription.
    Known(InfoView),
    /// A schema lookup is due.
    Lookup(InfoView, CacheLookupBy),
}

/// How a payload is validated.
#[derive(Debug, Clone, Copy, PartialEq, Eq, Structural)]
pub enum ValidationMode {
    /// As instance data, parsed strictly, `anydata` nodes included where the
    /// flag says so, with what is present validated.
    Data { anydata_strict: bool },
    /// As a YANG notification, parsed strictly.
    LegacyNotification,
}

/// A schema lookup that is to be sent for a packet.
pub struct LookupView {
    pub info: InfoView,
    pub by: CacheLookupBy,
    pub message: Message,
}

/// A packet that is to be validated.
pub struct ValidationView<P> {
    pub info: InfoView,
    pub content_id: Seq<char>,
    pub message: Message,
    pub decoded: UdpNotifPacketDecoded<P>,
    pub mode: ValidationMode,
}

/// A packet that is to be forwarded.
pub struct ForwardView<P> {
    pub content_id: Option<Seq<char>>,
    pub info: InfoView,
    pub session: SessionInfo,
    pub packet: UdpNotifPacketDecoded<P>,
    pub tags: Seq<TagView>,
}

/// What is to be done for a packet.
pub enum StepView<P> {
    /// Nothing more.
    Done,
    /// A schema lookup is to be sent.
    Lookup(LookupView),
    /// The packet is to be validated against the schema.
    Validate(ValidationView<P>),
    /// The packet is to be forwarded.
    Forward(ForwardView<P>),
}

} // verus!
