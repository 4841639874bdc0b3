//! What the validation actor counts: its instruments, the tags on what they
//! record, and the names of both.

use crate::subscription::{PeerAddress, PeerIp, SubscriptionId, SubscriptionInfo};
use crate::subscription::{InfoView, Target, TargetView};
use crate::{
    OTL_YANG_PUSH_SUBSCRIPTION_ID_KEY, OTL_YANG_PUSH_SUBSCRIPTION_ROUTER_CONTENT_ID_KEY,
    OTL_YANG_PUSH_SUBSCRIPTION_TARGET_KEY,
};
use vstd::prelude::*;

verus! {

/// Attribute key shared by the `dropped` and `skipped` counters.
pub const REASON_KEY: &'static str = "reason";

/// Attribute key for the `cache_lookups` counter.
pub const CACHE_LOOKUP_BY_KEY: &'static str = "by";

/// Attribute key for the address of a publisher.
pub const PEER_ADDRESS_KEY: &'static str = "network.peer.address";

/// Attribute key for the port of a publisher.
pub const PEER_PORT_KEY: &'static str = "network.peer.port";

/// Why a message was dropped.
#[derive(Debug, Clone, Copy, PartialEq, Eq, Structural)]
pub enum DropReason {
    DecodeError,
    BufferFullSubscription,
    BufferFullPeer,
    ValidationFailed,
    IncompleteSubscriptionStarted,
    NoSubscriptionId,
    SendError,
}

impl DropReason {
    /// The value of [`REASON_KEY`] that stands for the reason.
    pub open spec fn name(self) -> Seq<char> {
        match self {
            DropReason::DecodeError => "decode_error"@,
            DropReason::BufferFullSubscription => "buffer_full_subscription"@,
            DropReason::BufferFullPeer => "buffer_full_peer"@,
            DropReason::ValidationFailed => "validation_failed"@,
            DropReason::IncompleteSubscriptionStarted => "incomplete_subscription_started"@,
            DropReason::NoSubscriptionId => "no_subscription_id"@,
            DropReason::SendError => "send_error"@,
        }
    }

    /// Every reason, in the order in which they are declared.
    pub open spec fn all() -> Seq<DropReason> {
        seq![
            DropReason::DecodeError,
            DropReason::BufferFullSubscription,
            DropReason::BufferFullPeer,
            DropReason::ValidationFailed,
            DropReason::IncompleteSubscriptionStarted,
            DropReason::NoSubscriptionId,
            DropReason::SendError,
        ]
    }

    /// The value of [`REASON_KEY`] that stands for the reason.
    pub fn as_str(self) -> (r: &'static str)
        ensures
            r@ == self.name(),
    {
        match self {
            DropReason::DecodeError => "decode_error",
            DropReason::BufferFullSubscription => "buffer_full_subscription",
            DropReason::BufferFullPeer => "buffer_full_peer",
            DropReason::ValidationFailed => "validation_failed",
            DropReason::IncompleteSubscriptionStarted => "incomplete_subscription_started",
            DropReason::NoSubscriptionId => "no_subscription_id",
            DropReason::SendError => "send_error",
        }
    }
}

/// Why a message was forwarded without validation.
#[derive(Debug, Clone, Copy, PartialEq, Eq, Structural)]
pub enum SkipReason {
    NoLibrary,
    ContextFailed,
    NoSubscriptionInfo,
}

impl SkipReason {
    /// The value of [`REASON_KEY`] that stands for the reason.
    pub open spec fn name(self) -> Seq<char> {
        match self {
            SkipReason::NoLibrary => "no_library"@,
            SkipReason::ContextFailed => "context_failed"@,
            SkipReason::NoSubscriptionInfo => "no_subscription_info"@,
        }
    }

    /// Every reason, in the order in which they are declared.
    pub open spec fn all() -> Seq<SkipReason> {
        seq![SkipReason::NoLibrary, SkipReason::ContextFailed, SkipReason::NoSubscriptionInfo]
    }

    /// The value of [`REASON_KEY`] that stands for the reason.
    pub fn as_str(self) -> (r: &'static str)
        ensures
            r@ == self.name(),
    {
        match self {
            SkipReason::NoLibrary => "no_library",
            SkipReason::ContextFailed => "context_failed",
            SkipReason::NoSubscriptionInfo => "no_subscription_info",
        }
    }
}

/// What a schema was looked up by.
#[derive(Debug, Clone, Copy, PartialEq, Eq, Structural)]
pub enum CacheLookupBy {
    SubscriptionInfo,
    SubscriptionId,
}

impl CacheLookupBy {
    /// The value of [`CACHE_LOOKUP_BY_KEY`] that stands for the lookup.
    pub open spec fn name(self) -> Seq<char> {
        match self {
            CacheLookupBy::SubscriptionInfo => "subscription_info"@,
            CacheLookupBy::SubscriptionId => "subscription_id"@,
        }
    }

    /// Every kind of lookup, in the order in which they are declared.
    pub open spec fn all() -> Seq<CacheLookupBy> {
        seq![CacheLookupBy::SubscriptionInfo, CacheLookupBy::SubscriptionId]
    }

    /// The value of [`CACHE_LOOKUP_BY_KEY`] that stands for the lookup.
    pub fn as_str(self) -> (r: &'static str)
        ensures
            r@ == self.name(),
    {
        match self {
            CacheLookupBy::SubscriptionInfo => "subscription_info",
            CacheLookupBy::SubscriptionId => "subscription_id",
        }
    }
}

/// The instruments of the validation actor.
#[derive(Debug, Clone, Copy, PartialEq, Eq, Structural)]
pub enum Instrument {
    Received,
    Decoded,
    Dropped,
    CacheLookups,
    SubscriptionUpdateDeferred,
    Buffered,
    BufferDrained,
    YangContextLoaded,
    YangContextFailed,
    YangContextEmpty,
    Validated,
    Skipped,
    Sent,
    Pending,
    CachedPeers,
    CachedSubscriptions,
}

/// The names, one after the other, with ` | ` between any two.
pub open spec fn alternatives(names: Seq<Seq<char>>) -> Seq<char>
    decreases names.len(),
{
    if names.len() == 0 {
        Seq::empty()
    } else if names.len() == 1 {
        names[0]
    } else {
        alternatives(names.drop_last()) + " | "@ + names.last()
    }
}

impl Instrument {
    /// Whether the instrument holds a value, rather than adding values up.
    pub open spec fn gauge(self) -> bool {
        ||| self == Instrument::Buffered
        ||| self == Instrument::Pending
        ||| self == Instrument::CachedPeers
        ||| self == Instrument::CachedSubscriptions
    }

    /// What the instrument is called.
    pub open spec fn title(self) -> Seq<char> {
        match self {
            Instrument::Received => "netcalyx.yang_push.validation.received"@,
            Instrument::Decoded => "netcalyx.yang_push.validation.decoded"@,
            Instrument::Dropped => "netcalyx.yang_push.validation.dropped"@,
            Instrument::CacheLookups => "netcalyx.yang_push.validation.cache.lookups"@,
            Instrument::SubscriptionUpdateDeferred =>
                "netcalyx.yang_push.validation.subscription_update.deferred"@,
            Instrument::Buffered => "netcalyx.yang_push.validation.buffered"@,
            Instrument::BufferDrained => "netcalyx.yang_push.validation.buffer.drained"@,
            Instrument::YangContextLoaded => "netcalyx.yang_push.validation.yang.context.loaded"@,
            Instrument::YangContextFailed => "netcalyx.yang_push.validation.yang.context.failed"@,
            Instrument::YangContextEmpty => "netcalyx.yang_push.validation.yang.context.empty"@,
            Instrument::Validated => "netcalyx.yang_push.validation.validated"@,
            Instrument::Skipped => "netcalyx.yang_push.validation.skipped"@,
            Instrument::Sent => "netcalyx.yang_push.validation.sent"@,
            Instrument::Pending => "netcalyx.yang_push.validation.pending"@,
            Instrument::CachedPeers => "netcalyx.yang_push.validation.cached_peers"@,
            Instrument::CachedSubscriptions =>
                "netcalyx.yang_push.validation.cached_subscriptions"@,
        }
    }

    /// What the instrument measures, up to the list of tag values that the
    /// description of some instruments ends with.
    pub open spec fn summary(self) -> Seq<char> {
        match self {
            Instrument::Received =>
                "Number of YANG-Push messages received for validation (before decoding)"@,
            Instrument::Decoded => "Number of YANG-Push messages decoded successfully"@,
            Instrument::Dropped =>
                "Number of YANG-Push messages dropped for any reason, tagged with reason"@,
            Instrument::CacheLookups =>
                "Number of YANG schema cache lookups issued, tagged with by"@,
            Instrument::SubscriptionUpdateDeferred =>
                "Number of SubscriptionStarted/SubscriptionModified notifications buffered because a schema fetch was already in-flight for that subscription id, deferring the change until the outstanding fetch resolves"@,
            Instrument::Buffered =>
                "Number of YANG-Push messages currently buffered waiting for schemas"@,
            Instrument::BufferDrained =>
                "Number of YANG-Push messages popped out of the buffer and sent to the validation step"@,
            Instrument::YangContextLoaded =>
                "Number of libyang validation contexts successfully created"@,
            Instrument::YangContextFailed =>
                "Number of libyang validation contexts that failed to be created (e.g., missing schema)"@,
            Instrument::YangContextEmpty =>
                "Number of cache responses with no YANG library (schema loading from the router failed)"@,
            Instrument::Validated =>
                "Number of YANG-Push messages that passed YANG schema validation"@,
            Instrument::Skipped =>
                "Number of YANG-Push messages forwarded without validation, tagged with reason"@,
            Instrument::Sent =>
                "Number of YANG-Push messages successfully forwarded to the next actor"@,
            Instrument::Pending =>
                "Current number of packets in the pending deque, drained from subscription hold-buffers and awaiting reprocessing. Together with 'buffered' it accounts for all packets held in memory by the validation actor."@,
            Instrument::CachedPeers =>
                "Current number of distinct peer IPs tracked in the peer cache"@,
            Instrument::CachedSubscriptions =>
                "Current number of subscriptions tracked per peer in the peer cache, tagged with network.peer.address. Sum gives the global total."@,
        }
    }

    /// The tag values that the description of the instrument lists.
    pub open spec fn listed(self) -> Seq<Seq<char>> {
        match self {
            Instrument::Dropped => DropReason::all().map_values(|r: DropReason| r.name()),
            Instrument::Skipped => SkipReason::all().map_values(|r: SkipReason| r.name()),
            Instrument::CacheLookups => CacheLookupBy::all().map_values(
                |b: CacheLookupBy| b.name(),
            ),
            _ => Seq::empty(),
        }
    }

    /// What the instrument measures.
    pub open spec fn described(self) -> Seq<char> {
        if self.listed().len() == 0 {
            self.summary()
        } else {
            self.summary() + " ("@ + alternatives(self.listed()) + ")"@
        }
    }

    /// Whether the instrument holds a value, rather than adding values up.
    pub fn is_gauge(self) -> (r: bool)
        ensures
            r == self.gauge(),
    {
        self == Instrument::Buffered || self == Instrument::Pending || self
            == Instrument::CachedPeers || self == Instrument::CachedSubscriptions
    }

    /// What the instrument is called.
    pub fn name(self) -> (r: &'static str)
        ensures
            r@ == self.title(),
    {
        match self {
            Instrument::Received => "netcalyx.yang_push.validation.received",
            Instrument::Decoded => "netcalyx.yang_push.validation.decoded",
            Instrument::Dropped => "netcalyx.yang_push.validation.dropped",
            Instrument::CacheLookups => "netcalyx.yang_push.validation.cache.lookups",
            Instrument::SubscriptionUpdateDeferred =>
                "netcalyx.yang_push.validation.subscription_update.deferred",
            Instrument::Buffered => "netcalyx.yang_push.validation.buffered",
            Instrument::BufferDrained => "netcalyx.yang_push.validation.buffer.drained",
            Instrument::YangContextLoaded => "netcalyx.yang_push.validation.yang.context.loaded",
            Instrument::YangContextFailed => "netcalyx.yang_push.validation.yang.context.failed",
            Instrument::YangContextEmpty => "netcalyx.yang_push.validation.yang.context.empty",
            Instrument::Validated => "netcalyx.yang_push.validation.validated",
            Instrument::Skipped => "netcalyx.yang_push.validation.skipped",
            Instrument::Sent => "netcalyx.yang_push.validation.sent",
            Instrument::Pending => "netcalyx.yang_push.validation.pending",
            Instrument::CachedPeers => "netcalyx.yang_push.validation.cached_peers",
            Instrument::CachedSubscriptions => "netcalyx.yang_push.validation.cached_subscriptions",
        }
    }

    fn heading(self) -> (r: &'static str)
        ensures
            r@ == self.summary(),
    {
        match self {
            Instrument::Received =>
                "Number of YANG-Push messages received for validation (before decoding)",
            Instrument::Decoded => "Number of YANG-Push messages decoded successfully",
            Instrument::Dropped =>
                "Number of YANG-Push messages dropped for any reason, tagged with reason",
            Instrument::CacheLookups =>
                "Number of YANG schema cache lookups issued, tagged with by",
            Instrument::SubscriptionUpdateDeferred =>
                "Number of SubscriptionStarted/SubscriptionModified notifications buffered because a schema fetch was already in-flight for that subscription id, deferring the change until the outstanding fetch resolves",
            Instrument::Buffered =>
                "Number of YANG-Push messages currently buffered waiting for schemas",
            Instrument::BufferDrained =>
                "Number of YANG-Push messages popped out of the buffer and sent to the validation step",
            Instrument::YangContextLoaded =>
                "Number of libyang validation contexts successfully created",
            Instrument::YangContextFailed =>
                "Number of libyang validation contexts that failed to be created (e.g., missing schema)",
            Instrument::YangContextEmpty =>
                "Number of cache responses with no YANG library (schema loading from the router failed)",
            Instrument::Validated =>
                "Number of YANG-Push messages that passed YANG schema validation",
            Instrument::Skipped =>
                "Number of YANG-Push messages forwarded without validation, tagged with reason",
            Instrument::Sent =>
                "Number of YANG-Push messages successfully forwarded to the next actor",
            Instrument::Pending =>
                "Current number of packets in the pending deque, drained from subscription hold-buffers and awaiting reprocessing. Together with 'buffered' it accounts for all packets held in memory by the validation actor.",
            Instrument::CachedPeers =>
                "Current number of distinct peer IPs tracked in the peer cache",
            Instrument::CachedSubscriptions =>
                "Current number of subscriptions tracked per peer in the peer cache, tagged with network.peer.address. Sum gives the global total.",
        }
    }

    fn tag_values(self) -> (r: Vec<&'static str>)
        ensures
            r@.map_values(|s: &'static str| s@) == self.listed(),
    {
        let r: Vec<&'static str> = match self {
            Instrument::Dropped => vec![
                DropReason::DecodeError.as_str(),
                DropReason::BufferFullSubscription.as_str(),
                DropReason::BufferFullPeer.as_str(),
                DropReason::ValidationFailed.as_str(),
                DropReason::IncompleteSubscriptionStarted.as_str(),
                DropReason::NoSubscriptionId.as_str(),
                DropReason::SendError.as_str(),
            ],
            Instrument::Skipped => vec![
                SkipReason::NoLibrary.as_str(),
                SkipReason::ContextFailed.as_str(),
                SkipReason::NoSubscriptionInfo.as_str(),
            ],
            Instrument::CacheLookups => vec![
                CacheLookupBy::SubscriptionInfo.as_str(),
                CacheLookupBy::SubscriptionId.as_str(),
            ],
            _ => Vec::new(),
        };
        assert(r@.map_values(|s: &'static str| s@) =~= self.listed());
        r
    }

    /// What the instrument measures.
    pub fn description(self) -> (r: String)
        ensures
            r@ == self.described(),
    {
        let mut r: String = self.heading().to_owned();
        let values: Vec<&'static str> = self.tag_values();
        let ghost names = values@.map_values(|s: &'static str| s@);
        if values.len() > 0 {
            r.append(" (");
            let ghost head = r@;
            r.append(values[0]);
            let mut i: usize = 1;
            assert(names.take(1).len() == 1);
            while i < values.len()
                invariant
                    1 <= i <= values@.len(),
                    names == values@.map_values(|s: &'static str| s@),
                    r@ == head + alternatives(names.take(i as int)),
                decreases values@.len() - i,
            {
                r.append(" | ");
                r.append(values[i]);
                assert(names.take(i + 1).drop_last() =~= names.take(i as int));
                assert(names.take(i + 1).last() == values@[i as int]@);
                assert(r@ =~= head + alternatives(names.take(i + 1)));
                i += 1;
            }
            assert(names.take(names.len() as int) =~= names);
            r.append(")");
            assert(r@ =~= self.described());
        }
        r
    }
}

/// A tag on a recorded value.
#[derive(Debug, PartialEq, Eq)]
pub enum Tag {
    PeerAddress(PeerIp),
    PeerPort(u16),
    PublisherId(u32),
    SubscriptionId(SubscriptionId),
    SubscriptionTarget(Target),
    RouterContentId(String),
    Dropped(DropReason),
    Skipped(SkipReason),
    LookupBy(CacheLookupBy),
}

/// What a [`Tag`] holds.
pub enum TagView {
    PeerAddress(PeerIp),
    PeerPort(u16),
    PublisherId(u32),
    SubscriptionId(SubscriptionId),
    SubscriptionTarget(TargetView),
    RouterContentId(Seq<char>),
    Dropped(DropReason),
    Skipped(SkipReason),
    LookupBy(CacheLookupBy),
}

impl View for Tag {
    type V = TagView;

    open spec fn view(&self) -> TagView {
        match self {
            Tag::PeerAddress(ip) => TagView::PeerAddress(*ip),
            Tag::PeerPort(port) => TagView::PeerPort(*port),
            Tag::PublisherId(id) => TagView::PublisherId(*id),
            Tag::SubscriptionId(id) => TagView::SubscriptionId(*id),
            Tag::SubscriptionTarget(target) => TagView::SubscriptionTarget(target@),
            Tag::RouterContentId(id) => TagView::RouterContentId(id@),
            Tag::Dropped(reason) => TagView::Dropped(*reason),
            Tag::Skipped(reason) => TagView::Skipped(*reason),
            Tag::LookupBy(by) => TagView::LookupBy(*by),
        }
    }
}

impl Clone for Tag {
    fn clone(&self) -> (r: Self)
        ensures
            r@ == self@,
    {
        match self {
            Tag::PeerAddress(ip) => Tag::PeerAddress(*ip),
            Tag::PeerPort(port) => Tag::PeerPort(*port),
            Tag::PublisherId(id) => Tag::PublisherId(*id),
            Tag::SubscriptionId(id) => Tag::SubscriptionId(*id),
            Tag::SubscriptionTarget(target) => Tag::SubscriptionTarget(target.clone()),
            Tag::RouterContentId(id) => Tag::RouterContentId(id.clone()),
            Tag::Dropped(reason) => Tag::Dropped(*reason),
            Tag::Skipped(reason) => Tag::Skipped(*reason),
            Tag::LookupBy(by) => Tag::LookupBy(*by),
        }
    }
}

/// Attribute key for the id of a publisher.
pub const OTL_UDP_NOTIF_PUBLISHER_ID_KEY: &'static str = "netcalyx.udp.notif.publisher.id";

impl TagView {
    /// The attribute key that the tag goes under.
    pub open spec fn attribute(self) -> Seq<char> {
        match self {
            TagView::PeerAddress(_) => PEER_ADDRESS_KEY@,
            TagView::PeerPort(_) => PEER_PORT_KEY@,
            TagView::PublisherId(_) => OTL_UDP_NOTIF_PUBLISHER_ID_KEY@,
            TagView::SubscriptionId(_) => OTL_YANG_PUSH_SUBSCRIPTION_ID_KEY@,
            TagView::SubscriptionTarget(_) => OTL_YANG_PUSH_SUBSCRIPTION_TARGET_KEY@,
            TagView::RouterContentId(_) => OTL_YANG_PUSH_SUBSCRIPTION_ROUTER_CONTENT_ID_KEY@,
            TagView::Dropped(_) => REASON_KEY@,
            TagView::Skipped(_) => REASON_KEY@,
            TagView::LookupBy(_) => CACHE_LOOKUP_BY_KEY@,
        }
    }
}

impl Tag {
    /// The attribute key that the tag goes under.
    pub fn key(&self) -> (r: &'static str)
        ensures
            r@ == self@.attribute(),
    {
        match self {
            Tag::PeerAddress(_) => PEER_ADDRESS_KEY,
            Tag::PeerPort(_) => PEER_PORT_KEY,
            Tag::PublisherId(_) => OTL_UDP_NOTIF_PUBLISHER_ID_KEY,
            Tag::SubscriptionId(_) => OTL_YANG_PUSH_SUBSCRIPTION_ID_KEY,
            Tag::SubscriptionTarget(_) => OTL_YANG_PUSH_SUBSCRIPTION_TARGET_KEY,
            Tag::RouterContentId(_) => OTL_YANG_PUSH_SUBSCRIPTION_ROUTER_CONTENT_ID_KEY,
            Tag::Dropped(_) => REASON_KEY,
            Tag::Skipped(_) => REASON_KEY,
            Tag::LookupBy(_) => CACHE_LOOKUP_BY_KEY,
        }
    }
}

/// What a list of tags holds.
pub open spec fn tag_views(tags: Seq<Tag>) -> Seq<TagView> {
    tags.map_values(|t: Tag| t@)
}

/// A copy of a list of tags.
pub fn copy_tags(tags: &Vec<Tag>) -> (r: Vec<Tag>)
    ensures
        tag_views(r@) == tag_views(tags@),
{
    let mut r: Vec<Tag> = Vec::new();
    let mut i: usize = 0;
    while i < tags.len()
        invariant
            i <= tags@.len(),
            tag_views(r@) == tag_views(tags@).take(i as int),
        decreases tags@.len() - i,
    {
        let ghost before = r@;
        r.push(tags[i].clone());
        assert(tag_views(r@) =~= tag_views(before).push(tags@[i as int]@));
        assert(tag_views(r@) =~= tag_views(tags@).take(i + 1));
        i += 1;
    }
    assert(tag_views(r@) =~= tag_views(tags@));
    r
}

/// A copy of a list of tags with one more behind it.
pub fn tags_with(tags: &Vec<Tag>, last: Tag) -> (r: Vec<Tag>)
    ensures
        tag_views(r@) == tag_views(tags@).push(last@),
{
    let mut r = copy_tags(tags);
    let ghost before = r@;
    r.push(last);
    assert(tag_views(r@) =~= tag_views(before).push(last@));
    r
}

/// No tags.
pub fn no_tags() -> (r: Vec<Tag>)
    ensures
        tag_views(r@) == Seq::<TagView>::empty(),
{
    let r: Vec<Tag> = Vec::new();
    assert(tag_views(r@) =~= Seq::<TagView>::empty());
    r
}

/// The tag that says which publisher a value belongs to.
pub fn address_tags(ip: PeerIp) -> (r: Vec<Tag>)
    ensures
        tag_views(r@) == seq![TagView::PeerAddress(ip)],
{
    let r: Vec<Tag> = vec![Tag::PeerAddress(ip)];
    assert(tag_views(r@) =~= seq![TagView::PeerAddress(ip)]);
    r
}

/// The tags that say where a packet came from.
pub open spec fn peer_tags(peer: PeerAddress, publisher_id: u32) -> Seq<TagView> {
    seq![
        TagView::PeerAddress(peer.ip),
        TagView::PeerPort(peer.port),
        TagView::PublisherId(publisher_id),
    ]
}

/// The tags that say which subscription a value belongs to.
pub open spec fn subscription_tags(info: InfoView) -> Seq<TagView> {
    seq![
        TagView::SubscriptionId(info.id),
        TagView::SubscriptionTarget(info.target),
        TagView::RouterContentId(info.content_id),
    ]
}

/// The tags that say where a packet came from.
pub fn peer_tags_from_packet(peer: PeerAddress, publisher_id: u32) -> (r: Vec<Tag>)
    ensures
        tag_views(r@) == peer_tags(peer, publisher_id),
{
    let r: Vec<Tag> = vec![
        Tag::PeerAddress(peer.ip),
        Tag::PeerPort(peer.port),
        Tag::PublisherId(publisher_id),
    ];
    assert(tag_views(r@) =~= peer_tags(peer, publisher_id));
    r
}

/// Appends the tags that say which subscription a value belongs to.
pub fn extend_peer_tags_with_subscription_info(info: &SubscriptionInfo, tags: &mut Vec<Tag>)
    ensures
        tag_views(final(tags)@) == tag_views(old(tags)@) + subscription_tags(info@),
{
    tags.push(Tag::SubscriptionId(info.id));
    tags.push(Tag::SubscriptionTarget(info.target.clone()));
    tags.push(Tag::RouterContentId(info.content_id.clone()));
    assert(tag_views(tags@) =~= tag_views(old(tags)@) + subscription_tags(info@));
}

/// A value that an instrument recorded.
#[derive(Debug, PartialEq, Eq)]
pub struct MetricEvent {
    pub instrument: Instrument,
    pub value: u64,
    pub tags: Vec<Tag>,
}

/// What a [`MetricEvent`] holds.
pub struct EventView {
    pub instrument: Instrument,
    pub value: nat,
    pub tags: Seq<TagView>,
}

impl View for MetricEvent {
    type V = EventView;

    open spec fn view(&self) -> EventView {
        EventView {
            instrument: self.instrument,
            value: self.value as nat,
            tags: tag_views(self.tags@),
        }
    }
}

/// What a list of recorded values holds.
pub open spec fn event_views(events: Seq<MetricEvent>) -> Seq<EventView> {
    events.map_values(|e: MetricEvent| e@)
}

} // verus!
