//! The validation actor: which UDP-Notif packets are validated, held back,
//! forwarded or dropped.
//!
//! Packets are validated against the YANG schema of their subscription. A
//! schema is looked up the first time that a subscription is heard of, and
//! until the answer is there the packets of the subscription are held. What a
//! publisher can have held is bounded, per subscription and in all.
//!
//! The actor does no I/O. Each function moves its state on and says what is to
//! be done outside; what came of that is handed to the next function.

use crate::actor_invariant;
use crate::actor_model;
use crate::actor_model::{
    Actor, ExtractionView, ForwardView, LookupView, Publisher, StepView, Subscription,
    ValidationMode, ValidationView,
};
use crate::fx;
use crate::metrics;
use crate::metrics::{
    address_tags, copy_tags, extend_peer_tags_with_subscription_info, no_tags,
    peer_tags_from_packet, tags_with, CacheLookupBy, DropReason, Instrument, MetricEvent,
    SkipReason, Tag, TagView,
};
use crate::notification::{
    SessionInfo, SubscriptionStartedModified, UdpNotifPacketDecoded, UdpNotifRequest,
};
use crate::subscription;
use crate::subscription::{
    copy_modules, PeerAddress, PeerIp, SubscriptionId, SubscriptionInfo, Target,
    YangPushModuleVersion,
};
use crate::text;
use crate::text::copy_opt;
use crate::ContentId;
use rustc_hash::FxHashMap;
use std::collections::VecDeque;
use std::sync::Arc;
use vstd::prelude::*;

verus! {

/// A failure that ends the actor.
#[derive(Debug, Clone, Copy, PartialEq, Eq, Structural)]
pub enum ValidationActorError {
    CacheLookupSendError,
    CacheResponseReceiveError,
    SendError,
}

impl ValidationActorError {
    /// What is said of the failure.
    pub open spec fn text(self) -> Seq<char> {
        match self {
            ValidationActorError::CacheLookupSendError => "Failed to send cache lookup command"@,
            ValidationActorError::CacheResponseReceiveError => "Failed to receive cache response"@,
            ValidationActorError::SendError => "Failed to send the decoded UDP-Notif packet"@,
        }
    }

    /// What is said of the failure.
    pub fn message(&self) -> (r: String)
        ensures
            r@ == self.text(),
    {
        match self {
            ValidationActorError::CacheLookupSendError =>
                "Failed to send cache lookup command".to_owned(),
            ValidationActorError::CacheResponseReceiveError =>
                "Failed to receive cache response".to_owned(),
            ValidationActorError::SendError =>
                "Failed to send the decoded UDP-Notif packet".to_owned(),
        }
    }
}

/// A failure to reach the actor.
#[derive(Debug, Clone, Copy, PartialEq, Eq, Structural)]
pub enum ValidationActorHandleError {
    SendErr,
}

impl ValidationActorHandleError {
    /// What is said of the failure.
    pub fn message(&self) -> (r: String)
        ensures
            r@ == "Failed to send command to actor"@,
    {
        "Failed to send command to actor".to_owned()
    }
}

/// A packet that passed the validation stage, with the subscription that it
/// belongs to, the session that it came through, and the content id of the
/// YANG library that it was validated against, or none where it was not
/// validated.
#[derive(Debug, PartialEq, Eq)]
pub struct ValidatedNotification<P> {
    pub cached_content_id: Option<ContentId>,
    pub subscription_info: SubscriptionInfo,
    pub session: SessionInfo,
    pub packet: UdpNotifPacketDecoded<P>,
}

/// A request to look up the schema of a subscription.
#[derive(Debug, PartialEq, Eq)]
pub enum CacheLookupCommand {
    LookupBySubscriptionInfo { subscription_info: SubscriptionInfo, session: SessionInfo },
    LookupBySubscriptionId { session: SessionInfo, subscription_id: SubscriptionId },
}

/// Where the YANG library of a subscription lies.
#[derive(Debug, PartialEq, Eq)]
pub struct YangLibraryReference {
    pub yang_library_path: String,
    pub search_dir: String,
}

/// What came of a schema lookup.
#[derive(Debug, PartialEq, Eq)]
pub struct CacheResponse {
    pub cached_content_id: Option<ContentId>,
    pub subscription_info: SubscriptionInfo,
    pub yang_lib_ref: Option<YangLibraryReference>,
}

/// A packet that is held once a schema lookup for it is under way.
#[derive(Debug)]
pub struct PendingLookup {
    subscription_info: SubscriptionInfo,
    by: CacheLookupBy,
    message: Arc<UdpNotifRequest>,
}

impl View for PendingLookup {
    type V = LookupView;

    closed spec fn view(&self) -> LookupView {
        LookupView { info: self.subscription_info@, by: self.by, message: self.message }
    }
}

/// Whether the command asks for what the lookup is about.
pub open spec fn asks(command: CacheLookupCommand, lookup: LookupView) -> bool {
    match command {
        CacheLookupCommand::LookupBySubscriptionInfo { subscription_info, session } => {
            &&& lookup.by == CacheLookupBy::SubscriptionInfo
            &&& subscription_info@ == lookup.info
            &&& session == lookup.message.session
        },
        CacheLookupCommand::LookupBySubscriptionId { session, subscription_id } => {
            &&& lookup.by == CacheLookupBy::SubscriptionId
            &&& subscription_id == lookup.info.id
            &&& session == lookup.message.session
        },
    }
}

/// A packet that is to be validated.
#[derive(Debug)]
pub struct PendingValidation<P> {
    subscription_info: SubscriptionInfo,
    content_id: ContentId,
    message: Arc<UdpNotifRequest>,
    decoded: UdpNotifPacketDecoded<P>,
    mode: ValidationMode,
}

impl<P> View for PendingValidation<P> {
    type V = ValidationView<P>;

    closed spec fn view(&self) -> ValidationView<P> {
        ValidationView {
            info: self.subscription_info@,
            content_id: self.content_id@,
            message: self.message,
            decoded: self.decoded,
            mode: self.mode,
        }
    }
}

impl<P> PendingValidation<P> {
    /// The packet whose payload is to be validated.
    pub fn message(&self) -> (r: &Arc<UdpNotifRequest>)
        ensures
            *r == self@.message,
    {
        &self.message
    }

    /// How the payload is to be validated.
    pub fn mode(&self) -> (r: ValidationMode)
        ensures
            r == self@.mode,
    {
        self.mode
    }
}

/// What is recorded of a packet that is forwarded.
#[derive(Debug)]
pub struct PendingForward {
    tags: Vec<Tag>,
}

impl View for PendingForward {
    type V = Seq<TagView>;

    closed spec fn view(&self) -> Seq<TagView> {
        metrics::tag_views(self.tags@)
    }
}

/// What is to be done for a packet.
#[derive(Debug)]
pub enum Step<P> {
    /// Nothing more.
    Done,
    /// A schema lookup is to be sent.
    Lookup(CacheLookupCommand, PendingLookup),
    /// The packet is to be validated.
    Validate(PendingValidation<P>),
    /// The packet is to be forwarded.
    Forward(ValidatedNotification<P>, PendingForward),
}

impl<P> View for Step<P> {
    type V = StepView<P>;

    open spec fn view(&self) -> StepView<P> {
        match self {
            Step::Done => StepView::Done,
            Step::Lookup(_, pending) => StepView::Lookup(pending@),
            Step::Validate(pending) => StepView::Validate(pending@),
            Step::Forward(notification, pending) => StepView::Forward(
                ForwardView {
                    content_id: text::opt_view(notification.cached_content_id),
                    info: notification.subscription_info@,
                    session: notification.session,
                    packet: notification.packet,
                    tags: pending@,
                },
            ),
        }
    }
}

impl<P> Step<P> {
    /// Whether the command of a lookup asks for what the lookup is about.
    pub open spec fn wf(&self) -> bool {
        self matches Step::Lookup(command, pending) ==> asks(*command, pending@)
    }
}

/// The state of one subscription.
#[derive(Debug)]
struct CachedSubscription<C> {
    cached_content_id: Option<ContentId>,
    subscription_info: SubscriptionInfo,
    yang_ctx: Option<C>,
    buffered_packets: Vec<Arc<UdpNotifRequest>>,
    schema_fetch_pending: bool,
}

impl<C> View for CachedSubscription<C> {
    type V = Subscription<C>;

    closed spec fn view(&self) -> Subscription<C> {
        Subscription {
            content_id: text::opt_view(self.cached_content_id),
            info: self.subscription_info@,
            context: self.yang_ctx,
            buffered: self.buffered_packets@,
            pending: self.schema_fetch_pending,
        }
    }
}

impl<C> CachedSubscription<C> {
    fn new(subscription_info: SubscriptionInfo) -> (r: Self)
        ensures
            r@ == actor_model::fresh::<C>(subscription_info@),
    {
        CachedSubscription {
            cached_content_id: None,
            subscription_info,
            yang_ctx: None,
            buffered_packets: Vec::new(),
            schema_fetch_pending: false,
        }
    }
}

/// The subscriptions of one publisher, and how many packets they hold.
#[derive(Debug)]
#[verifier::reject_recursive_types(C)]
struct CachedPeerSubscriptions<C> {
    subscriptions: FxHashMap<SubscriptionId, CachedSubscription<C>>,
    total_buffered: usize,
}

spec fn subscription_views<C>(m: Map<SubscriptionId, CachedSubscription<C>>) -> Map<
    SubscriptionId,
    Subscription<C>,
> {
    m.map_values(|s: CachedSubscription<C>| s@)
}

impl<C> View for CachedPeerSubscriptions<C> {
    type V = Publisher<C>;

    closed spec fn view(&self) -> Publisher<C> {
        Publisher {
            subscriptions: subscription_views(self.subscriptions@),
            total: self.total_buffered as nat,
        }
    }
}

impl<C> CachedPeerSubscriptions<C> {
    fn new() -> (r: Self)
        ensures
            r@ == actor_model::no_subscriptions::<C>(),
    {
        let r = CachedPeerSubscriptions { subscriptions: FxHashMap::default(), total_buffered: 0 };
        assert(r@.subscriptions =~= Map::<SubscriptionId, Subscription<C>>::empty());
        r
    }

    fn find(&self, id: SubscriptionId) -> (r: Option<&CachedSubscription<C>>)
        ensures
            match r {
                Some(s) => self@.subscriptions.contains_key(id) && self@.subscriptions[id] == s@,
                None => !self@.subscriptions.contains_key(id),
            },
    {
        fx::get(&self.subscriptions, &id)
    }

    /// Takes the subscription `id` out, or what stands for it before it is
    /// first heard of.
    fn take_or_new(&mut self, id: SubscriptionId, info: &SubscriptionInfo) -> (r:
        CachedSubscription<C>)
        ensures
            final(self)@ == (Publisher {
                subscriptions: old(self)@.subscriptions.remove(id),
                ..old(self)@
            }),
            r@ == (if old(self)@.subscriptions.contains_key(id) {
                old(self)@.subscriptions[id]
            } else {
                actor_model::fresh(info@)
            }),
            final(self).total_buffered == old(self).total_buffered,
    {
        let taken = fx::remove(&mut self.subscriptions, &id);
        assert(self@.subscriptions =~= old(self)@.subscriptions.remove(id));
        match taken {
            Some(s) => s,
            None => CachedSubscription::new(info.clone()),
        }
    }

    fn put(&mut self, id: SubscriptionId, s: CachedSubscription<C>)
        ensures
            final(self)@ == (Publisher {
                subscriptions: old(self)@.subscriptions.insert(id, s@),
                ..old(self)@
            }),
            final(self).total_buffered == old(self).total_buffered,
    {
        let _ = fx::insert(&mut self.subscriptions, id, s);
        assert(self@.subscriptions =~= old(self)@.subscriptions.insert(id, s@));
    }
}

spec fn publisher_views<C>(m: Map<(bool, u128), CachedPeerSubscriptions<C>>) -> Map<
    (bool, u128),
    Publisher<C>,
> {
    m.map_values(|p: CachedPeerSubscriptions<C>| p@)
}

/// The validation actor, over schema contexts of type `C`.
#[derive(Debug)]
#[verifier::reject_recursive_types(C)]
pub struct ValidationActor<C> {
    max_buffered_packets_per_peer: usize,
    max_buffered_packets_per_subscription: usize,
    /// Whether `anydata` nodes are validated strictly against their schema.
    anydata_strict: bool,
    peer_cache: FxHashMap<(bool, u128), CachedPeerSubscriptions<C>>,
    /// Packets let out of a hold buffer, which are processed one at a time.
    pending_packets: VecDeque<Arc<UdpNotifRequest>>,
    /// What the instruments recorded and nobody has taken yet.
    events: Vec<MetricEvent>,
}

impl<C> View for ValidationActor<C> {
    type V = Actor<C>;

    closed spec fn view(&self) -> Actor<C> {
        Actor {
            max_per_peer: self.max_buffered_packets_per_peer as nat,
            max_per_subscription: self.max_buffered_packets_per_subscription as nat,
            anydata_strict: self.anydata_strict,
            peers: publisher_views(self.peer_cache@),
            queue: self.pending_packets@,
            events: metrics::event_views(self.events@),
        }
    }
}

impl<C> ValidationActor<C> {
    pub fn new(
        max_buffered_packets_per_peer: usize,
        max_buffered_packets_per_subscription: usize,
        anydata_strict: bool,
    ) -> (r: Self)
        ensures
            r@.wf(),
            r@ == Actor::<C>::start(
                max_buffered_packets_per_peer as nat,
                max_buffered_packets_per_subscription as nat,
                anydata_strict,
            ),
    {
        let r = ValidationActor {
            max_buffered_packets_per_peer,
            max_buffered_packets_per_subscription,
            anydata_strict,
            peer_cache: FxHashMap::default(),
            pending_packets: VecDeque::new(),
            events: Vec::new(),
        };
        assert(r@ =~= Actor::<C>::start(
            max_buffered_packets_per_peer as nat,
            max_buffered_packets_per_subscription as nat,
            anydata_strict,
        ));
        r
    }

    fn record(&mut self, instrument: Instrument, value: u64, tags: Vec<Tag>)
        ensures
            final(self)@ == old(self)@.record(instrument, value as nat, metrics::tag_views(tags@)),
    {
        self.events.push(MetricEvent { instrument, value, tags });
        assert(self@ =~= old(self)@.record(instrument, value as nat, metrics::tag_views(tags@)));
    }

    /// Whether a packet waits to be processed again.
    pub fn has_pending(&self) -> (r: bool)
        ensures
            r == (self@.queue.len() > 0),
    {
        self.pending_packets.len() > 0
    }

    /// Hands out what the instruments recorded since the last time.
    pub fn take_events(&mut self) -> (r: Vec<MetricEvent>)
        ensures
            metrics::event_views(r@) == old(self)@.events,
            final(self)@ == (Actor { events: Seq::empty(), ..old(self)@ }),
    {
        let mut events: Vec<MetricEvent> = Vec::new();
        std::mem::swap(&mut events, &mut self.events);
        assert(self@ =~= Actor { events: Seq::empty(), ..old(self)@ });
        events
    }

    fn find(&self, ip: PeerIp, id: SubscriptionId) -> (r: Option<&CachedSubscription<C>>)
        ensures
            match r {
                Some(s) => self@.find(ip.key(), id) == Some(s@),
                None => self@.find(ip.key(), id) is None,
            },
    {
        match fx::get(&self.peer_cache, &ip.as_key()) {
            Some(p) => p.find(id),
            None => None,
        }
    }

    /// Takes the publisher at `ip` out, or what stands for it before it is
    /// first heard of.
    fn take_publisher(&mut self, ip: PeerIp) -> (r: CachedPeerSubscriptions<C>)
        ensures
            r@ == old(self)@.publisher(ip.key()),
            final(self)@ == (Actor { peers: old(self)@.peers.remove(ip.key()), ..old(self)@ }),
    {
        let taken = fx::remove(&mut self.peer_cache, &ip.as_key());
        assert(self@.peers =~= old(self)@.peers.remove(ip.key()));
        match taken {
            Some(p) => p,
            None => CachedPeerSubscriptions::new(),
        }
    }

    fn put_publisher(&mut self, ip: PeerIp, p: CachedPeerSubscriptions<C>)
        ensures
            final(self)@ == old(self)@.with_publisher(ip.key(), p@),
    {
        let _ = fx::insert(&mut self.peer_cache, ip.as_key(), p);
        assert(self@.peers =~= old(self)@.peers.insert(ip.key(), p@));
    }

    /// Strikes off the subscription that is filed under the id of an announced
    /// one, where it is another, so that the schema is looked up anew.
    fn check_subscription_new(&mut self, ip: PeerIp, info: &SubscriptionInfo)
        requires
            old(self)@.wf(),
        ensures
            final(self)@.wf(),
            final(self)@ == old(self)@.supersede(ip.key(), info@),
    {
        let ghost before = self@;
        proof {
            actor_invariant::lemma_supersede(before, ip.key(), info@);
        }
        if fx::get(&self.peer_cache, &ip.as_key()).is_none() {
            return;
        }
        let mut publisher = self.take_publisher(ip);
        let is_different: bool = match publisher.find(info.id) {
            Some(s) => !s.subscription_info.same(info),
            None => true,
        };
        if is_different {
            let removed = publisher.take_or_new(info.id, info);
            let count: usize = removed.buffered_packets.len();
            publisher.total_buffered = publisher.total_buffered - count;
            assert(!before.peers[ip.key()].subscriptions.contains_key(info.id)
                ==> publisher@.subscriptions =~= before.peers[ip.key()].subscriptions);
        }
        assert(publisher@.subscriptions.dom() =~= publisher.subscriptions@.dom());
        if !publisher.subscriptions.is_empty() {
            self.put_publisher(ip, publisher);
        } else {
            assert(publisher.subscriptions@.dom() =~= Set::empty());
        }
        assert(self@ =~= before.supersede(ip.key(), info@));
    }

    /// Puts a packet into the hold buffer of its subscription, unless that
    /// buffer, or the publisher's, is full. Returns whether it was put there.
    fn buffer_packet(&mut self, info: SubscriptionInfo, message: Arc<UdpNotifRequest>) -> (r: bool)
        requires
            old(self)@.wf(),
        ensures
            (final(self)@, r) == old(self)@.buffer(info@, message),
            old(self)@.awaits(message.session.peer.ip.key(), info@.id) ==> final(self)@.wf(),
    {
        let ghost before = self@;
        let peer = message.peer_address();
        let tags = peer_tags_from_packet(peer, message.packet.publisher_id);
        proof {
            if before.awaits(peer.ip.key(), info@.id) {
                actor_invariant::lemma_buffer(before, info@, message);
            }
        }
        let mut publisher = self.take_publisher(peer.ip);
        let buffered: usize = match publisher.find(info.id) {
            Some(s) => s.buffered_packets.len(),
            None => 0,
        };
        if buffered >= self.max_buffered_packets_per_subscription {
            self.put_publisher(peer.ip, publisher);
            let tags = tags_with(&tags, Tag::Dropped(DropReason::BufferFullSubscription));
            self.record(Instrument::Dropped, 1, tags);
            assert(self@ =~= before.buffer(info@, message).0);
            return false;
        }
        if publisher.total_buffered >= self.max_buffered_packets_per_peer {
            self.put_publisher(peer.ip, publisher);
            let tags = tags_with(&tags, Tag::Dropped(DropReason::BufferFullPeer));
            self.record(Instrument::Dropped, 1, tags);
            assert(self@ =~= before.buffer(info@, message).0);
            return false;
        }
        let mut subscription = publisher.take_or_new(info.id, &info);
        subscription.buffered_packets.push(message);
        publisher.put(info.id, subscription);
        publisher.total_buffered = publisher.total_buffered + 1;
        let total: u64 = publisher.total_buffered as u64;
        assert(publisher@.subscriptions =~= before.publisher(peer.ip.key()).subscriptions.insert(
            info@.id,
            subscription@,
        ));
        self.put_publisher(peer.ip, publisher);
        self.record(Instrument::Buffered, total, tags);
        assert(self@ =~= before.buffer(info@, message).0);
        true
    }

    /// Notes that a schema fetch takes off for the subscription.
    fn mark_pending(&mut self, ip: PeerIp, info: &SubscriptionInfo)
        ensures
            final(self)@ == old(self)@.mark_pending(ip.key(), info@),
    {
        let ghost before = self@;
        let mut publisher = self.take_publisher(ip);
        let mut subscription = publisher.take_or_new(info.id, info);
        subscription.schema_fetch_pending = true;
        publisher.put(info.id, subscription);
        assert(publisher@.subscriptions =~= before.publisher(ip.key()).subscriptions.insert(
            info@.id,
            subscription@,
        ));
        self.put_publisher(ip, publisher);
        assert(self@ =~= before.mark_pending(ip.key(), info@));
    }

    /// What is known of the subscription that a notification belongs to: what
    /// the notification announces, or what is on file; and, where that is on
    /// file, the content id of its schema.
    fn get_subscription_info<P>(&mut self, peer: PeerAddress, decoded: &UdpNotifPacketDecoded<P>) -> (r:
        Option<(SubscriptionInfo, Option<Option<ContentId>>)>)
        requires
            old(self)@.wf(),
        ensures
            final(self)@.wf(),
            final(self)@ == old(self)@.consult(peer, *decoded).0,
            match (r, old(self)@.consult(peer, *decoded).1) {
                (Some((info, on_file)), Some((known, known_on_file))) => {
                    &&& info@ == known
                    &&& match on_file {
                        Some(content_id) => known_on_file == Some(text::opt_view(content_id)),
                        None => known_on_file is None,
                    }
                },
                (None, None) => true,
                _ => false,
            },
    {
        proof {
            actor_invariant::lemma_consult(self@, peer, *decoded);
        }
        let contents = match &decoded.contents {
            Some(contents) => contents,
            None => {
                return None;
            },
        };
        let info = match contents.announcement() {
            Some(announced) => match build_subscription_info(
                peer.ip,
                announced,
                &decoded.canonical_xpath,
            ) {
                Some(info) => {
                    self.check_subscription_new(peer.ip, &info);
                    info
                },
                None => {
                    return None;
                },
            },
            None => match self.find(peer.ip, contents.subscription_id()) {
                Some(s) => s.subscription_info.clone(),
                None => {
                    return None;
                },
            },
        };
        let on_file = match self.find(peer.ip, contents.subscription_id()) {
            Some(s) => if s.subscription_info.same(&info) {
                Some(copy_opt(&s.cached_content_id))
            } else {
                None
            },
            None => None,
        };
        Some((info, on_file))
    }
}

/// What came of finding out which subscription a packet belongs to.
enum Extraction {
    /// The packet is held or dropped.
    Settled,
    /// The packet belongs to this subscription.
    Known(SubscriptionInfo, Arc<UdpNotifRequest>),
    /// A schema lookup is due.
    Lookup(CacheLookupCommand, PendingLookup),
}

impl View for Extraction {
    type V = ExtractionView;

    closed spec fn view(&self) -> ExtractionView {
        match self {
            Extraction::Settled => ExtractionView::Settled,
            Extraction::Known(info, _) => ExtractionView::Known(info@),
            Extraction::Lookup(_, pending) => ExtractionView::Lookup(pending@.info, pending@.by),
        }
    }
}

impl<C> ValidationActor<C> {
    /// Finds out which subscription a packet belongs to. The packet is held
    /// while a schema fetch is in flight, starts one where none was made, and
    /// is dropped where it names no subscription or announces one in part.
    fn extract_subscription_info<P>(
        &mut self,
        message: Arc<UdpNotifRequest>,
        decoded: &UdpNotifPacketDecoded<P>,
    ) -> (r: Extraction)
        requires
            old(self)@.wf(),
        ensures
            final(self)@.wf(),
            (final(self)@, r@) == old(self)@.extract(message, *decoded),
            r matches Extraction::Known(_, known) ==> known == message,
            r matches Extraction::Lookup(command, pending) ==> asks(command, pending@)
                && pending@.message == message,
    {
        let ghost before = self@;
        proof {
            actor_invariant::lemma_extract(before, message, *decoded);
        }
        let peer = message.peer_address();
        let tags = peer_tags_from_packet(peer, message.packet.publisher_id);
        if let Some(contents) = &decoded.contents {
            if contents.announcement().is_some() {
                let id: SubscriptionId = contents.subscription_id();
                let in_flight = match self.find(peer.ip, id) {
                    Some(s) => if s.schema_fetch_pending {
                        Some(s.subscription_info.clone())
                    } else {
                        None
                    },
                    None => None,
                };
                if let Some(info) = in_flight {
                    if self.buffer_packet(info, message) {
                        let tags = tags_with(&tags, Tag::SubscriptionId(id));
                        self.record(Instrument::SubscriptionUpdateDeferred, 1, tags);
                    }
                    return Extraction::Settled;
                }
            }
        }
        match self.get_subscription_info(peer, decoded) {
            Some((info, Some(content_id))) => {
                if content_id.is_none() {
                    let in_flight: bool = match self.find(peer.ip, info.id) {
                        Some(s) => s.schema_fetch_pending,
                        None => false,
                    };
                    if in_flight {
                        let _ = self.buffer_packet(info, message);
                        return Extraction::Settled;
                    }
                }
                Extraction::Known(info, message)
            },
            Some((info, None)) => {
                let mut tags = tags;
                extend_peer_tags_with_subscription_info(&info, &mut tags);
                let tags = tags_with(&tags, Tag::LookupBy(CacheLookupBy::SubscriptionInfo));
                self.record(Instrument::CacheLookups, 1, tags);
                self.mark_pending(peer.ip, &info);
                let command = CacheLookupCommand::LookupBySubscriptionInfo {
                    subscription_info: info.clone(),
                    session: message.session.clone(),
                };
                Extraction::Lookup(
                    command,
                    PendingLookup { subscription_info: info, by: CacheLookupBy::SubscriptionInfo, message },
                )
            },
            None => {
                let contents = match &decoded.contents {
                    Some(contents) => contents,
                    None => {
                        let tags = tags_with(&tags, Tag::Dropped(DropReason::NoSubscriptionId));
                        self.record(Instrument::Dropped, 1, tags);
                        return Extraction::Settled;
                    },
                };
                if contents.announcement().is_some() {
                    // It would fail the same way each time, so it is not held.
                    let tags = tags_with(
                        &tags,
                        Tag::Dropped(DropReason::IncompleteSubscriptionStarted),
                    );
                    self.record(Instrument::Dropped, 1, tags);
                    return Extraction::Settled;
                }
                let id: SubscriptionId = contents.subscription_id();
                let tags = tags_with(&tags, Tag::LookupBy(CacheLookupBy::SubscriptionId));
                self.record(Instrument::CacheLookups, 1, tags);
                let info = SubscriptionInfo::new_empty(peer.ip, id);
                self.mark_pending(peer.ip, &info);
                let command = CacheLookupCommand::LookupBySubscriptionId {
                    session: message.session.clone(),
                    subscription_id: id,
                };
                Extraction::Lookup(
                    command,
                    PendingLookup { subscription_info: info, by: CacheLookupBy::SubscriptionId, message },
                )
            },
        }
    }

    /// Takes note of what came of decoding a packet: what was decoded is
    /// handed on, and counted where `count_decoded` says so; a packet that
    /// could not be decoded is dropped.
    fn decode_message<P>(
        &mut self,
        message: &Arc<UdpNotifRequest>,
        outcome: Option<UdpNotifPacketDecoded<P>>,
        count_decoded: bool,
    ) -> (r: Result<UdpNotifPacketDecoded<P>, ()>)
        ensures
            match outcome {
                Some(decoded) => r == Ok::<UdpNotifPacketDecoded<P>, ()>(decoded) && final(self)@
                    == old(self)@.count_decoded(*message, decoded, !count_decoded),
                None => r is Err && final(self)@ == old(self)@.drop_packet(
                    actor_model::packet_tags(*message),
                    DropReason::DecodeError,
                ),
            },
    {
        let tags = peer_tags_from_packet(message.peer_address(), message.packet.publisher_id);
        match outcome {
            Some(decoded) => {
                if count_decoded {
                    let tags = match &decoded.contents {
                        Some(contents) => tags_with(
                            &tags,
                            Tag::SubscriptionId(contents.subscription_id()),
                        ),
                        None => tags,
                    };
                    self.record(Instrument::Decoded, 1, tags);
                }
                Ok(decoded)
            },
            None => {
                let tags = tags_with(&tags, Tag::Dropped(DropReason::DecodeError));
                self.record(Instrument::Dropped, 1, tags);
                Err(())
            },
        }
    }

    /// Processes a packet, come in or let out of a hold buffer, up to the work
    /// that is done elsewhere. `outcome` is what came of decoding it.
    pub fn process_udp_notif_msg<P>(
        &mut self,
        message: Arc<UdpNotifRequest>,
        outcome: Option<UdpNotifPacketDecoded<P>>,
        is_reprocessed: bool,
    ) -> (r: Step<P>)
        requires
            old(self)@.wf(),
        ensures
            final(self)@.wf(),
            r.wf(),
            (final(self)@, r@) == old(self)@.process(message, outcome, is_reprocessed),
            r matches Step::Lookup(_, pending) ==> final(self).awaits(pending),
            r matches Step::Validate(validation) ==> final(self).context_of(validation) is Some,
    {
        let ghost before = self@;
        let decoded = match self.decode_message(&message, outcome, !is_reprocessed) {
            Ok(decoded) => decoded,
            Err(_) => {
                return Step::Done;
            },
        };
        let ghost counted = self@;
        proof {
            assert(counted == before.count_decoded(message, decoded, is_reprocessed));
            actor_invariant::lemma_extract(counted, message, decoded);
        }
        let (info, message) = match self.extract_subscription_info(message, &decoded) {
            Extraction::Settled => {
                return Step::Done;
            },
            Extraction::Lookup(command, pending) => {
                return Step::Lookup(command, pending);
            },
            Extraction::Known(info, message) => (info, message),
        };
        let peer = message.peer_address();
        let mut tags = peer_tags_from_packet(peer, message.packet.publisher_id);
        extend_peer_tags_with_subscription_info(&info, &mut tags);
        let (content_id, has_context) = match self.find(peer.ip, info.id) {
            Some(s) => (copy_opt(&s.cached_content_id), s.yang_ctx.is_some()),
            None => (None, false),
        };
        let is_empty: bool = info.is_empty();
        let skip_reason = if is_empty {
            SkipReason::NoSubscriptionInfo
        } else if content_id.is_some() {
            SkipReason::ContextFailed
        } else {
            SkipReason::NoLibrary
        };
        match content_id {
            Some(content_id) if has_context && !is_empty => {
                let mode = if decoded.legacy {
                    ValidationMode::LegacyNotification
                } else {
                    ValidationMode::Data { anydata_strict: self.anydata_strict }
                };
                Step::Validate(
                    PendingValidation { subscription_info: info, content_id, message, decoded, mode },
                )
            },
            _ => {
                let skip_tags = tags_with(&tags, Tag::Skipped(skip_reason));
                self.record(Instrument::Skipped, 1, skip_tags);
                let notification = ValidatedNotification {
                    cached_content_id: None,
                    subscription_info: info,
                    session: message.session.clone(),
                    packet: decoded,
                };
                Step::Forward(notification, PendingForward { tags })
            },
        }
    }

    /// Whether the fetch that the lookup asks for is in flight.
    pub open spec fn awaits(&self, pending: PendingLookup) -> bool {
        self@.awaits(pending@.message.session.peer.ip.key(), pending@.info.id)
    }

    /// The schema that the packet is to be validated against.
    pub open spec fn context_of<P>(&self, validation: PendingValidation<P>) -> Option<C> {
        match self@.find(validation@.message.session.peer.ip.key(), validation@.info.id) {
            Some(s) => s.context,
            None => None,
        }
    }

    /// The schema that a packet is to be validated against.
    pub fn schema_context<P>(&self, validation: &PendingValidation<P>) -> (r: Option<&C>)
        ensures
            match r {
                Some(c) => self.context_of(*validation) == Some(*c),
                None => self.context_of(*validation) is None,
            },
    {
        let ip = validation.message.session.peer.ip;
        match self.find(ip, validation.subscription_info.id) {
            Some(s) => s.yang_ctx.as_ref(),
            None => None,
        }
    }

    /// Goes on after a lookup was sent, or could not be: once it is under way
    /// its packet is held until the answer is there.
    pub fn lookup_sent(&mut self, pending: PendingLookup, sent: bool) -> (r: Result<
        (),
        ValidationActorError,
    >)
        requires
            old(self)@.wf(),
            old(self).awaits(pending),
        ensures
            final(self)@.wf(),
            final(self)@ == old(self)@.lookup_sent(pending@, sent),
            r == (if sent {
                Ok(())
            } else {
                Err(ValidationActorError::CacheLookupSendError)
            }),
    {
        if sent {
            let _ = self.buffer_packet(pending.subscription_info, pending.message);
            Ok(())
        } else {
            Err(ValidationActorError::CacheLookupSendError)
        }
    }

    /// Goes on after a packet was found valid, or not: a valid one is to be
    /// forwarded, another is dropped.
    pub fn validate_message<P>(&mut self, validation: PendingValidation<P>, valid: bool) -> (r: Step<P>)
        requires
            old(self)@.wf(),
        ensures
            final(self)@.wf(),
            r.wf(),
            (final(self)@, r@) == old(self)@.validated(validation@, valid),
    {
        let message = validation.message;
        let mut tags = peer_tags_from_packet(message.peer_address(), message.packet.publisher_id);
        extend_peer_tags_with_subscription_info(&validation.subscription_info, &mut tags);
        if valid {
            let copied = copy_tags(&tags);
            self.record(Instrument::Validated, 1, copied);
            let notification = ValidatedNotification {
                cached_content_id: Some(validation.content_id),
                subscription_info: validation.subscription_info,
                session: message.session.clone(),
                packet: validation.decoded,
            };
            Step::Forward(notification, PendingForward { tags })
        } else {
            let tags = tags_with(&tags, Tag::Dropped(DropReason::ValidationFailed));
            self.record(Instrument::Dropped, 1, tags);
            Step::Done
        }
    }

    /// Goes on after a packet was forwarded, or could not be.
    pub fn forwarded(&mut self, pending: PendingForward, sent: bool) -> (r: Result<
        (),
        ValidationActorError,
    >)
        requires
            old(self)@.wf(),
        ensures
            final(self)@.wf(),
            final(self)@ == old(self)@.forwarded(pending@, sent),
            r == (if sent {
                Ok(())
            } else {
                Err(ValidationActorError::SendError)
            }),
    {
        if sent {
            self.record(Instrument::Sent, 1, pending.tags);
            Ok(())
        } else {
            let tags = tags_with(&pending.tags, Tag::Dropped(DropReason::SendError));
            self.record(Instrument::Dropped, 1, tags);
            Err(ValidationActorError::SendError)
        }
    }
}

/// Puts the XPath filter of a target into canonical form, where there is such
/// a filter and it has such a form.
pub fn normalize_json_target_xpath(target: &mut Target, canonical_xpath: &Option<String>)
    ensures
        final(target)@ == actor_model::canonical_target(
            old(target)@,
            text::opt_view(*canonical_xpath),
        ),
{
    if target.datastore_xpath_filter.is_some() {
        match canonical_xpath {
            Some(canonical) => {
                target.datastore_xpath_filter = Some(canonical.clone());
            },
            None => {},
        }
    }
}

/// What a notification says of the subscription that it announces, or nothing
/// where it does not tell the modules.
pub fn build_subscription_info(
    peer_ip: PeerIp,
    announced: &SubscriptionStartedModified,
    canonical_xpath: &Option<String>,
) -> (r: Option<SubscriptionInfo>)
    ensures
        match r {
            Some(info) => actor_model::described(
                peer_ip,
                *announced,
                text::opt_view(*canonical_xpath),
            ) == Some(info@),
            None => actor_model::described(
                peer_ip,
                *announced,
                text::opt_view(*canonical_xpath),
            ) is None,
        },
{
    let models = match &announced.module_version {
        Some(modules) => {
            let mut models = copy_modules(modules);
            models.push(
                YangPushModuleVersion::new(
                    "ietf-subscribed-notifications".to_owned(),
                    None,
                    None,
                ),
            );
            assert(subscription::module_views(models@) =~= subscription::module_views(
                modules@,
            ).push(models@.last()@));
            models
        },
        None => {
            return None;
        },
    };
    let mut target = announced.target.clone();
    normalize_json_target_xpath(&mut target, canonical_xpath);
    let content_id = match &announced.yang_library_content_id {
        Some(id) => id.clone(),
        None => String::new(),
    };
    Some(
        SubscriptionInfo {
            peer_ip,
            id: announced.id,
            target,
            stop_time: copy_opt(&announced.stop_time),
            transport: copy_opt(&announced.transport),
            encoding: copy_opt(&announced.encoding),
            purpose: copy_opt(&announced.purpose),
            update_trigger: copy_opt(&announced.update_trigger),
            models,
            content_id,
        },
    )
}

/// A command to the actor.
#[derive(Debug, Clone, Copy, PartialEq, Eq, Structural)]
pub enum ValidationActorCommand {
    Shutdown,
}

/// What happened to a running actor.
#[derive(Debug)]
pub enum RunEvent<C> {
    /// A command came, or the command channel closed.
    Command(Option<ValidationActorCommand>),
    /// A response came, with the schema context that was created from its YANG
    /// library, if one was; or the response channel closed.
    CacheResponse(Option<(CacheResponse, Option<C>)>),
    /// Nothing came, and the queue is looked at.
    Queue,
    /// A packet came, or the packet channel closed.
    Packet(Option<Arc<UdpNotifRequest>>),
    /// A packet could not be processed to its end.
    PacketFailed { is_reprocessed: bool },
}

/// What a running actor is to do next.
#[derive(Debug)]
pub enum RunAction {
    /// Wait for what comes.
    Wait,
    /// Process a packet.
    Process { message: Arc<UdpNotifRequest>, is_reprocessed: bool },
    /// End, with this to say.
    Exit(String),
}

/// The state that a running actor is in after an event.
pub open spec fn after_event<C>(actor: Actor<C>, event: RunEvent<C>) -> Actor<C> {
    match event {
        RunEvent::CacheResponse(Some((response, context))) => actor.respond(
            text::opt_view(response.cached_content_id),
            response.subscription_info@,
            response.yang_lib_ref is Some,
            context,
        ),
        RunEvent::Queue if actor.queue.len() > 0 => actor.dequeue(),
        RunEvent::Packet(Some(message)) => actor.record(
            Instrument::Received,
            1,
            actor_model::packet_tags(message),
        ),
        _ => actor,
    }
}

/// Whether `action` is what a running actor does upon an event.
pub open spec fn acts<C>(actor: Actor<C>, event: RunEvent<C>, action: RunAction) -> bool {
    match event {
        RunEvent::Command(Some(ValidationActorCommand::Shutdown)) => exits(
            action,
            "Enrichment shutdown successfully"@,
        ),
        RunEvent::Command(None) => exits(
            action,
            "YANG-Push validation actor terminated due to command channel closing"@,
        ),
        RunEvent::CacheResponse(Some(_)) => action is Wait,
        RunEvent::CacheResponse(None) => exits(
            action,
            "YANG-Push validation actor cache receiver channel closed unexpectedly, shutting down"@,
        ),
        RunEvent::Queue => if actor.queue.len() > 0 {
            action == (RunAction::Process { message: actor.queue[0], is_reprocessed: true })
        } else {
            action is Wait
        },
        RunEvent::Packet(Some(message)) => action == (RunAction::Process {
            message,
            is_reprocessed: false,
        }),
        RunEvent::Packet(None) => exits(
            action,
            "YANG-Push validation actor UDP Notif receiver channel closed unexpectedly, shutting down"@,
        ),
        RunEvent::PacketFailed { is_reprocessed: true } => exits(
            action,
            "YANG-Push validation actor buffered packet processing unrecoverable error, shutting down"@,
        ),
        RunEvent::PacketFailed { is_reprocessed: false } => exits(
            action,
            "YANG-Push validation actor UDP-Notif processing unrecoverable error, shutting down"@,
        ),
    }
}

/// Whether the action is to end with this to say.
pub open spec fn exits(action: RunAction, text: Seq<char>) -> bool {
    action matches RunAction::Exit(said) && said@ == text
}

impl<C> ValidationActor<C> {
    /// Where the YANG library lies that is to be loaded for a response: none
    /// where the response brings none, or nobody waits for it.
    pub fn schema_to_load<'a>(&self, response: &'a CacheResponse) -> (r: Option<
        &'a YangLibraryReference,
    >)
        ensures
            match r {
                Some(reference) => response.yang_lib_ref == Some(*reference) && self@.find(
                    response.subscription_info@.peer_ip.key(),
                    response.subscription_info@.id,
                ) is Some,
                None => response.yang_lib_ref is None || self@.find(
                    response.subscription_info@.peer_ip.key(),
                    response.subscription_info@.id,
                ) is None,
            },
    {
        let info = &response.subscription_info;
        match self.find(info.peer_ip, info.id) {
            Some(_) => response.yang_lib_ref.as_ref(),
            None => None,
        }
    }

    /// Takes a schema, or the lack of one, into the subscription that it was
    /// looked up for, and lets the packets out that waited for it. `context`
    /// is what was created from the YANG library of the response.
    pub fn process_cache_response(&mut self, response: CacheResponse, context: Option<C>)
        requires
            old(self)@.wf(),
        ensures
            final(self)@.wf(),
            final(self)@ == old(self)@.respond(
                text::opt_view(response.cached_content_id),
                response.subscription_info@,
                response.yang_lib_ref is Some,
                context,
            ),
    {
        let ghost before = self@;
        let info = response.subscription_info;
        let library = response.yang_lib_ref.is_some();
        let ghost content_id = text::opt_view(response.cached_content_id);
        let ghost after = before.respond(content_id, info@, library, context);
        proof {
            actor_invariant::lemma_respond(before, content_id, info@, library, context);
        }
        if self.find(info.peer_ip, info.id).is_none() {
            return;
        }
        let ghost ip = info@.peer_ip.key();
        let ghost held = before.find(ip, info@.id)->0.buffered;
        let mut tags = address_tags(info.peer_ip);
        extend_peer_tags_with_subscription_info(&info, &mut tags);
        let mut publisher = self.take_publisher(info.peer_ip);
        let mut subscription = publisher.take_or_new(info.id, &info);
        let outcome = if !library {
            subscription.cached_content_id = None;
            subscription.yang_ctx = None;
            Instrument::YangContextEmpty
        } else {
            let outcome = if context.is_some() {
                Instrument::YangContextLoaded
            } else {
                Instrument::YangContextFailed
            };
            subscription.cached_content_id = response.cached_content_id;
            subscription.yang_ctx = context;
            outcome
        };
        let copied = copy_tags(&tags);
        self.record(outcome, 1, copied);
        subscription.subscription_info = info.clone();
        subscription.schema_fetch_pending = false;
        let mut drained: Vec<Arc<UdpNotifRequest>> = Vec::new();
        std::mem::swap(&mut drained, &mut subscription.buffered_packets);
        let count: usize = drained.len();
        publisher.put(info.id, subscription);
        publisher.total_buffered = publisher.total_buffered - count;
        let remaining: u64 = publisher.total_buffered as u64;
        let subscriptions: u64 = fx::len(&publisher.subscriptions) as u64;
        assert(publisher@.subscriptions.dom() =~= publisher.subscriptions@.dom());
        assert(publisher@.subscriptions =~= before.peers[ip].subscriptions.insert(
            info@.id,
            subscription@,
        ));
        self.put_publisher(info.peer_ip, publisher);
        assert(self@.peers =~= after.peers);
        let ghost counted = self@;
        for message in drain: drained
            invariant
                drain.seq() == held,
                self@ == (Actor {
                    queue: counted.queue + held.take(drain.index() as int),
                    events: counted.events + Actor::<C>::drain_events(
                        held.take(drain.index() as int),
                        info@,
                    ),
                    ..counted
                }),
        {
            let ghost n = drain.index() as int;
            assert(held.take(n + 1) =~= held.take(n).push(held[n]));
            let mut tags = peer_tags_from_packet(
                message.peer_address(),
                message.packet.publisher_id,
            );
            extend_peer_tags_with_subscription_info(&info, &mut tags);
            self.record(Instrument::BufferDrained, 1, tags);
            self.pending_packets.push_back(message);
            assert(self@.queue =~= counted.queue + held.take(n + 1));
            assert(self@.events =~= counted.events + Actor::<C>::drain_events(
                held.take(n + 1),
                info@,
            ));
        }
        assert(held.take(held.len() as int) =~= held);
        self.record(Instrument::Buffered, remaining, tags);
        let pending: u64 = self.pending_packets.len() as u64;
        self.record(Instrument::Pending, pending, no_tags());
        let peers: u64 = fx::len(&self.peer_cache) as u64;
        assert(self.peer_cache@.dom() =~= before.peers.dom());
        self.record(Instrument::CachedPeers, peers, no_tags());
        let tags = address_tags(info.peer_ip);
        self.record(Instrument::CachedSubscriptions, subscriptions, tags);
        assert(self@ =~= after);
    }

    /// Moves a running actor on by one event, and says what to do next.
    pub fn run_step(&mut self, event: RunEvent<C>) -> (r: RunAction)
        requires
            old(self)@.wf(),
        ensures
            final(self)@.wf(),
            final(self)@ == after_event(old(self)@, event),
            acts(old(self)@, event, r),
    {
        match event {
            RunEvent::Command(Some(ValidationActorCommand::Shutdown)) => RunAction::Exit(
                "Enrichment shutdown successfully".to_owned(),
            ),
            RunEvent::Command(None) => RunAction::Exit(
                "YANG-Push validation actor terminated due to command channel closing".to_owned(),
            ),
            RunEvent::CacheResponse(Some((response, context))) => {
                self.process_cache_response(response, context);
                RunAction::Wait
            },
            RunEvent::CacheResponse(None) => RunAction::Exit(
                "YANG-Push validation actor cache receiver channel closed unexpectedly, shutting down".to_owned(),
            ),
            RunEvent::Queue => match self.pending_packets.pop_front() {
                Some(message) => {
                    let pending: u64 = self.pending_packets.len() as u64;
                    assert(self.pending_packets@ =~= old(self)@.queue.drop_first());
                    self.record(Instrument::Pending, pending, no_tags());
                    assert(self@ =~= old(self)@.dequeue());
                    RunAction::Process { message, is_reprocessed: true }
                },
                None => RunAction::Wait,
            },
            RunEvent::Packet(Some(message)) => {
                let tags = peer_tags_from_packet(
                    message.peer_address(),
                    message.packet.publisher_id,
                );
                self.record(Instrument::Received, 1, tags);
                RunAction::Process { message, is_reprocessed: false }
            },
            RunEvent::Packet(None) => RunAction::Exit(
                "YANG-Push validation actor UDP Notif receiver channel closed unexpectedly, shutting down".to_owned(),
            ),
            RunEvent::PacketFailed { is_reprocessed } => if is_reprocessed {
                RunAction::Exit(
                    "YANG-Push validation actor buffered packet processing unrecoverable error, shutting down".to_owned(),
                )
            } else {
                RunAction::Exit(
                    "YANG-Push validation actor UDP-Notif processing unrecoverable error, shutting down".to_owned(),
                )
            },
        }
    }
}

} // verus!
