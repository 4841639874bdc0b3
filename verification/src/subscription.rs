//! Subscription identity: who publishes, what is published, and the YANG
//! modules that describe it.

use crate::text;
use crate::text::{copy_opt, same_opt};
use vstd::prelude::*;

verus! {

/// Identifier of a YANG-Push subscription, unique per publisher.
pub type SubscriptionId = u32;

/// An IP address: its family and its bits.
#[derive(Debug, Clone, Copy, PartialEq, Eq, Structural)]
pub struct PeerIp {
    pub v6: bool,
    pub bits: u128,
}

impl PeerIp {
    /// The integers that tell one address from every other.
    pub open spec fn key(self) -> (bool, u128) {
        (self.v6, self.bits)
    }

    /// The integers that tell one address from every other.
    pub fn as_key(self) -> (r: (bool, u128))
        ensures
            r == self.key(),
    {
        (self.v6, self.bits)
    }

    /// The IPv4 address with these bits, the first octet being the highest.
    pub fn v4(bits: u32) -> (r: PeerIp)
        ensures
            r == (PeerIp { v6: false, bits: bits as u128 }),
    {
        PeerIp { v6: false, bits: bits as u128 }
    }

    /// The IPv6 address with these bits, the first segment being the highest.
    pub fn v6(bits: u128) -> (r: PeerIp)
        ensures
            r == (PeerIp { v6: true, bits }),
    {
        PeerIp { v6: true, bits }
    }
}

/// An IP address and a port.
#[derive(Debug, Clone, Copy, PartialEq, Eq, Structural)]
pub struct PeerAddress {
    pub ip: PeerIp,
    pub port: u16,
}

/// A YANG module that a subscription refers to.
#[derive(Debug, PartialEq, Eq)]
pub struct YangPushModuleVersion {
    pub name: String,
    pub revision: Option<String>,
    pub version: Option<String>,
}

/// What a [`YangPushModuleVersion`] holds.
pub struct ModuleVersionView {
    pub name: Seq<char>,
    pub revision: Option<Seq<char>>,
    pub version: Option<Seq<char>>,
}

impl View for YangPushModuleVersion {
    type V = ModuleVersionView;

    open spec fn view(&self) -> ModuleVersionView {
        ModuleVersionView {
            name: self.name@,
            revision: text::opt_view(self.revision),
            version: text::opt_view(self.version),
        }
    }
}

impl YangPushModuleVersion {
    pub fn new(name: String, revision: Option<String>, version: Option<String>) -> (r: Self)
        ensures
            r.name == name,
            r.revision == revision,
            r.version == version,
    {
        YangPushModuleVersion { name, revision, version }
    }

    /// Whether both hold the same.
    pub fn same(&self, other: &Self) -> (r: bool)
        ensures
            r == (self@ == other@),
    {
        self.name == other.name && same_opt(&self.revision, &other.revision) && same_opt(
            &self.version,
            &other.version,
        )
    }
}

impl Clone for YangPushModuleVersion {
    fn clone(&self) -> (r: Self)
        ensures
            r == *self,
    {
        YangPushModuleVersion {
            name: self.name.clone(),
            revision: copy_opt(&self.revision),
            version: copy_opt(&self.version),
        }
    }
}

/// What a list of module versions holds.
pub open spec fn module_views(v: Seq<YangPushModuleVersion>) -> Seq<ModuleVersionView> {
    v.map_values(|m: YangPushModuleVersion| m@)
}

/// A copy of a list of module versions.
pub fn copy_modules(v: &Vec<YangPushModuleVersion>) -> (r: Vec<YangPushModuleVersion>)
    ensures
        r@ == v@,
{
    let mut r: Vec<YangPushModuleVersion> = Vec::new();
    let mut i: usize = 0;
    while i < v.len()
        invariant
            i <= v@.len(),
            r@ == v@.take(i as int),
        decreases v@.len() - i,
    {
        r.push(v[i].clone());
        assert(v@.take(i + 1) =~= v@.take(i as int).push(v@[i as int]));
        i += 1;
    }
    assert(v@.take(v@.len() as int) =~= v@);
    r
}

/// Whether two lists of module versions hold the same.
pub fn same_modules(a: &Vec<YangPushModuleVersion>, b: &Vec<YangPushModuleVersion>) -> (r: bool)
    ensures
        r == (module_views(a@) == module_views(b@)),
{
    if a.len() != b.len() {
        assert(module_views(a@).len() != module_views(b@).len());
        return false;
    }
    let mut i: usize = 0;
    while i < a.len()
        invariant
            i <= a@.len() == b@.len(),
            forall|k: int| 0 <= k < i ==> module_views(a@)[k] == module_views(b@)[k],
        decreases a@.len() - i,
    {
        if !a[i].same(&b[i]) {
            assert(module_views(a@)[i as int] != module_views(b@)[i as int]);
            return false;
        }
        i += 1;
    }
    assert(module_views(a@) =~= module_views(b@));
    true
}

/// What a subscription selects: an event stream, or a datastore, and a filter
/// on it. Subtree filters, stream filters and times are held as text.
#[derive(Debug, PartialEq, Eq)]
pub struct Target {
    pub stream: Option<String>,
    pub stream_filter: Option<String>,
    pub replay_start_time: Option<String>,
    pub datastore: Option<String>,
    pub datastore_subtree_filter: Option<String>,
    pub datastore_xpath_filter: Option<String>,
}

/// What a [`Target`] holds.
pub struct TargetView {
    pub stream: Option<Seq<char>>,
    pub stream_filter: Option<Seq<char>>,
    pub replay_start_time: Option<Seq<char>>,
    pub datastore: Option<Seq<char>>,
    pub datastore_subtree_filter: Option<Seq<char>>,
    pub datastore_xpath_filter: Option<Seq<char>>,
}

impl View for Target {
    type V = TargetView;

    open spec fn view(&self) -> TargetView {
        TargetView {
            stream: text::opt_view(self.stream),
            stream_filter: text::opt_view(self.stream_filter),
            replay_start_time: text::opt_view(self.replay_start_time),
            datastore: text::opt_view(self.datastore),
            datastore_subtree_filter: text::opt_view(self.datastore_subtree_filter),
            datastore_xpath_filter: text::opt_view(self.datastore_xpath_filter),
        }
    }
}

/// The target that selects nothing.
pub open spec fn no_target() -> TargetView {
    TargetView {
        stream: None,
        stream_filter: None,
        replay_start_time: None,
        datastore: None,
        datastore_subtree_filter: None,
        datastore_xpath_filter: None,
    }
}

impl Target {
    /// The target that selects nothing.
    pub fn empty() -> (r: Self)
        ensures
            r@ == no_target(),
    {
        Target {
            stream: None,
            stream_filter: None,
            replay_start_time: None,
            datastore: None,
            datastore_subtree_filter: None,
            datastore_xpath_filter: None,
        }
    }

    /// The nodes of `datastore` that `xpath` selects.
    pub fn new_datastore(datastore: String, xpath: String) -> (r: Self)
        ensures
            r@ == (TargetView {
                datastore: Some(datastore@),
                datastore_xpath_filter: Some(xpath@),
                ..no_target()
            }),
    {
        Target {
            stream: None,
            stream_filter: None,
            replay_start_time: None,
            datastore: Some(datastore),
            datastore_subtree_filter: None,
            datastore_xpath_filter: Some(xpath),
        }
    }

    /// The events of `stream` that `filter` selects.
    pub fn new_stream(
        stream: String,
        replay_start_time: Option<String>,
        filter: Option<String>,
    ) -> (r: Self)
        ensures
            r@ == (TargetView {
                stream: Some(stream@),
                stream_filter: text::opt_view(filter),
                replay_start_time: text::opt_view(replay_start_time),
                ..no_target()
            }),
    {
        Target {
            stream: Some(stream),
            stream_filter: filter,
            replay_start_time,
            datastore: None,
            datastore_subtree_filter: None,
            datastore_xpath_filter: None,
        }
    }

    /// Whether both hold the same.
    pub fn same(&self, other: &Self) -> (r: bool)
        ensures
            r == (self@ == other@),
    {
        same_opt(&self.stream, &other.stream) && same_opt(&self.stream_filter, &other.stream_filter)
            && same_opt(&self.replay_start_time, &other.replay_start_time) && same_opt(
            &self.datastore,
            &other.datastore,
        ) && same_opt(&self.datastore_subtree_filter, &other.datastore_subtree_filter) && same_opt(
            &self.datastore_xpath_filter,
            &other.datastore_xpath_filter,
        )
    }
}

impl Clone for Target {
    fn clone(&self) -> (r: Self)
        ensures
            r == *self,
    {
        Target {
            stream: copy_opt(&self.stream),
            stream_filter: copy_opt(&self.stream_filter),
            replay_start_time: copy_opt(&self.replay_start_time),
            datastore: copy_opt(&self.datastore),
            datastore_subtree_filter: copy_opt(&self.datastore_subtree_filter),
            datastore_xpath_filter: copy_opt(&self.datastore_xpath_filter),
        }
    }
}

/// Everything that identifies one generation of a subscription. Times,
/// transport, encoding and update trigger are held as text.
#[derive(Debug, PartialEq, Eq)]
pub struct SubscriptionInfo {
    pub peer_ip: PeerIp,
    pub id: SubscriptionId,
    pub target: Target,
    pub stop_time: Option<String>,
    pub transport: Option<String>,
    pub encoding: Option<String>,
    pub purpose: Option<String>,
    pub update_trigger: Option<String>,
    pub models: Vec<YangPushModuleVersion>,
    pub content_id: String,
}

/// What a [`SubscriptionInfo`] holds.
pub struct InfoView {
    pub peer_ip: PeerIp,
    pub id: SubscriptionId,
    pub target: TargetView,
    pub stop_time: Option<Seq<char>>,
    pub transport: Option<Seq<char>>,
    pub encoding: Option<Seq<char>>,
    pub purpose: Option<Seq<char>>,
    pub update_trigger: Option<Seq<char>>,
    pub models: Seq<ModuleVersionView>,
    pub content_id: Seq<char>,
}

impl View for SubscriptionInfo {
    type V = InfoView;

    open spec fn view(&self) -> InfoView {
        InfoView {
            peer_ip: self.peer_ip,
            id: self.id,
            target: self.target@,
            stop_time: text::opt_view(self.stop_time),
            transport: text::opt_view(self.transport),
            encoding: text::opt_view(self.encoding),
            purpose: text::opt_view(self.purpose),
            update_trigger: text::opt_view(self.update_trigger),
            models: module_views(self.models@),
            content_id: self.content_id@,
        }
    }
}

/// A subscription of which only the publisher and the id are known.
pub open spec fn empty_info(peer_ip: PeerIp, id: SubscriptionId) -> InfoView {
    InfoView {
        peer_ip,
        id,
        target: no_target(),
        stop_time: None,
        transport: None,
        encoding: None,
        purpose: None,
        update_trigger: None,
        models: Seq::empty(),
        content_id: Seq::empty(),
    }
}

impl InfoView {
    /// Whether only the publisher and the id are known.
    pub open spec fn is_empty(self) -> bool {
        self == empty_info(self.peer_ip, self.id)
    }
}

impl SubscriptionInfo {
    /// A subscription of which only the publisher and the id are known.
    pub fn new_empty(peer_ip: PeerIp, id: SubscriptionId) -> (r: Self)
        ensures
            r@ == empty_info(peer_ip, id),
    {
        let r = SubscriptionInfo {
            peer_ip,
            id,
            target: Target::empty(),
            stop_time: None,
            transport: None,
            encoding: None,
            purpose: None,
            update_trigger: None,
            models: Vec::new(),
            content_id: String::new(),
        };
        assert(r@.models =~= Seq::empty());
        r
    }

    /// Whether only the publisher and the id are known.
    pub fn is_empty(&self) -> (r: bool)
        ensures
            r == self@.is_empty(),
    {
        self.same(&SubscriptionInfo::new_empty(self.peer_ip, self.id))
    }

    /// Whether both hold the same.
    pub fn same(&self, other: &Self) -> (r: bool)
        ensures
            r == (self@ == other@),
    {
        self.peer_ip == other.peer_ip && self.id == other.id && self.target.same(&other.target)
            && same_opt(&self.stop_time, &other.stop_time) && same_opt(
            &self.transport,
            &other.transport,
        ) && same_opt(&self.encoding, &other.encoding) && same_opt(&self.purpose, &other.purpose)
            && same_opt(&self.update_trigger, &other.update_trigger) && same_modules(
            &self.models,
            &other.models,
        ) && self.content_id == other.content_id
    }
}

impl Clone for SubscriptionInfo {
    fn clone(&self) -> (r: Self)
        ensures
            r@ == self@,
    {
        SubscriptionInfo {
            peer_ip: self.peer_ip,
            id: self.id,
            target: self.target.clone(),
            stop_time: copy_opt(&self.stop_time),
            transport: copy_opt(&self.transport),
            encoding: copy_opt(&self.encoding),
            purpose: copy_opt(&self.purpose),
            update_trigger: copy_opt(&self.update_trigger),
            models: copy_modules(&self.models),
            content_id: self.content_id.clone(),
        }
    }
}

} // verus!
