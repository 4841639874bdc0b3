//! Every transition of the validation actor keeps its invariant.

use crate::actor_model;
use crate::actor_model::{Actor, Message, Publisher, Subscription};
use crate::metrics::{CacheLookupBy, Instrument, TagView};
use crate::notification::UdpNotifPacketDecoded;
use crate::subscription;
use crate::subscription::{InfoView, PeerAddress, SubscriptionId};
use crate::text;
use vstd::prelude::*;

verus! {

/// The subscriptions hold together what any one of them and the rest hold.
pub proof fn lemma_held_split<C>(
    m: Map<SubscriptionId, Subscription<C>>,
    ids: Set<SubscriptionId>,
    id: SubscriptionId,
)
    requires
        ids.finite(),
        ids.contains(id),
    ensures
        actor_model::held(m, ids) == m[id].buffered.len() + actor_model::held(m, ids.remove(id)),
    decreases ids.len(),
{
    let first = ids.choose();
    assert(ids.contains(first));
    if first != id {
        lemma_held_split(m, ids.remove(first), id);
        lemma_held_split(m, ids.remove(id), first);
        assert(ids.remove(first).remove(id) =~= ids.remove(id).remove(first));
    }
}

/// What subscriptions hold depends on those subscriptions alone.
proof fn lemma_held_same<C>(
    a: Map<SubscriptionId, Subscription<C>>,
    b: Map<SubscriptionId, Subscription<C>>,
    ids: Set<SubscriptionId>,
)
    requires
        ids.finite(),
        forall|id: SubscriptionId| #[trigger] ids.contains(id) ==> a[id].buffered == b[id].buffered,
    ensures
        actor_model::held(a, ids) == actor_model::held(b, ids),
    decreases ids.len(),
{
    if ids.len() != 0 {
        let first = ids.choose();
        assert(ids.contains(first));
        lemma_held_same(a, b, ids.remove(first));
    }
}

/// Filing a subscription changes what all hold by what it holds.
proof fn lemma_held_insert<C>(
    m: Map<SubscriptionId, Subscription<C>>,
    id: SubscriptionId,
    s: Subscription<C>,
)
    requires
        m.dom().finite(),
    ensures
        m.insert(id, s).dom().finite(),
        m.contains_key(id) ==> actor_model::held(m.insert(id, s), m.insert(id, s).dom())
            + m[id].buffered.len() == actor_model::held(m, m.dom()) + s.buffered.len(),
        m.contains_key(id) ==> m[id].buffered.len() <= actor_model::held(m, m.dom()),
        !m.contains_key(id) ==> actor_model::held(m.insert(id, s), m.insert(id, s).dom())
            == actor_model::held(m, m.dom()) + s.buffered.len(),
{
    let after = m.insert(id, s);
    lemma_held_split(after, after.dom(), id);
    assert(after.dom().remove(id) =~= m.dom().remove(id));
    lemma_held_same(after, m, m.dom().remove(id));
    if m.contains_key(id) {
        lemma_held_split(m, m.dom(), id);
    } else {
        assert(m.dom().remove(id) =~= m.dom());
    }
}

/// Striking a subscription off takes away what it holds.
proof fn lemma_held_remove<C>(m: Map<SubscriptionId, Subscription<C>>, id: SubscriptionId)
    requires
        m.dom().finite(),
        m.contains_key(id),
    ensures
        m.remove(id).dom().finite(),
        actor_model::held(m.remove(id), m.remove(id).dom()) + m[id].buffered.len()
            == actor_model::held(m, m.dom()),
{
    lemma_held_split(m, m.dom(), id);
    assert(m.remove(id).dom() =~= m.dom().remove(id));
    lemma_held_same(m.remove(id), m, m.dom().remove(id));
}

/// Filing a publisher that is in order keeps the invariant.
proof fn lemma_with_publisher<C>(a: Actor<C>, ip: (bool, u128), p: Publisher<C>)
    requires
        a.wf(),
        p.wf(ip, a.max_per_peer, a.max_per_subscription),
    ensures
        a.with_publisher(ip, p).wf(),
{
    let after = a.with_publisher(ip, p);
    assert forall|k: (bool, u128)| #[trigger] after.peers.contains_key(k) implies after.peers[k].wf(
        k,
        after.max_per_peer,
        after.max_per_subscription,
    ) by {
        if k != ip {
            assert(a.peers.contains_key(k));
        }
    }
}

/// To supersede a subscription keeps the invariant.
pub proof fn lemma_supersede<C>(a: Actor<C>, ip: (bool, u128), info: InfoView)
    requires
        a.wf(),
    ensures
        a.supersede(ip, info).wf(),
        a.find(ip, info.id) matches Some(s) ==> s.buffered.len() <= a.peers[ip].total,
{
    if a.peers.contains_key(ip) {
        let p = a.peers[ip];
        if p.subscriptions.contains_key(info.id) {
            let s = p.subscriptions[info.id];
            lemma_held_remove(p.subscriptions, info.id);
            let kept = Publisher {
                subscriptions: p.subscriptions.remove(info.id),
                total: (p.total - s.buffered.len()) as nat,
            };
            if s.info != info {
                if kept.subscriptions.dom() == Set::<SubscriptionId>::empty() {
                    let after = Actor { peers: a.peers.remove(ip), ..a };
                    assert forall|k: (bool, u128)| #[trigger]
                        after.peers.contains_key(k) implies after.peers[k].wf(
                        k,
                        after.max_per_peer,
                        after.max_per_subscription,
                    ) by {
                        assert(a.peers.contains_key(k));
                    }
                } else {
                    let left = kept.subscriptions.dom().choose();
                    assert(exists|id: SubscriptionId| kept.subscriptions.dom().contains(id)) by {
                        if forall|id: SubscriptionId| !kept.subscriptions.dom().contains(id) {
                            assert(kept.subscriptions.dom() =~= Set::empty());
                        }
                    }
                    assert(kept.subscriptions.contains_key(left));
                    assert forall|id: SubscriptionId| #[trigger]
                        kept.subscriptions.contains_key(id) implies kept.subscriptions[id].wf(
                        ip,
                        id,
                        a.max_per_subscription,
                    ) by {
                        assert(p.subscriptions.contains_key(id));
                    }
                    lemma_with_publisher(a, ip, kept);
                }
            } else {
                assert(p.subscriptions.dom().contains(info.id));
                lemma_with_publisher(a, ip, p);
            }
        } else {
            let id = choose|id: SubscriptionId| p.subscriptions.contains_key(id);
            assert(p.subscriptions.dom().contains(id));
            lemma_with_publisher(a, ip, p);
        }
    }
}

/// To hold a packet of a subscription that waits for a fetch keeps the
/// invariant.
pub proof fn lemma_buffer<C>(a: Actor<C>, info: InfoView, message: Message)
    requires
        a.wf(),
        a.awaits(message.session.peer.ip.key(), info.id),
    ensures
        a.buffer(info, message).0.wf(),
{
    let ip = message.session.peer.ip.key();
    let p = a.peers[ip];
    let s = p.subscriptions[info.id];
    assert(a.peers.contains_key(ip) && p.subscriptions.contains_key(info.id));
    lemma_with_publisher(a, ip, p);
    let filled = Subscription { buffered: s.buffered.push(message), ..s };
    let counted = Publisher {
        subscriptions: p.subscriptions.insert(info.id, filled),
        total: p.total + 1,
    };
    lemma_held_insert(p.subscriptions, info.id, filled);
    if s.buffered.len() < a.max_per_subscription && p.total < a.max_per_peer {
        assert forall|id: SubscriptionId| #[trigger]
            counted.subscriptions.contains_key(id) implies counted.subscriptions[id].wf(
            ip,
            id,
            a.max_per_subscription,
        ) by {
            if id != info.id {
                assert(p.subscriptions.contains_key(id));
            }
        }
        assert(counted.subscriptions.contains_key(info.id));
        lemma_with_publisher(a, ip, counted);
    }
}

/// To start a fetch for a subscription that is not on file keeps the invariant.
pub proof fn lemma_mark_pending<C>(a: Actor<C>, ip: (bool, u128), info: InfoView)
    requires
        a.wf(),
        a.find(ip, info.id) is None,
        info.peer_ip.key() == ip,
    ensures
        a.mark_pending(ip, info).wf(),
        a.mark_pending(ip, info).awaits(ip, info.id),
{
    let p = a.publisher(ip);
    let s = Subscription { pending: true, ..actor_model::fresh::<C>(info) };
    lemma_held_insert(p.subscriptions, info.id, s);
    let marked = Publisher { subscriptions: p.subscriptions.insert(info.id, s), ..p };
    assert forall|id: SubscriptionId| #[trigger]
        marked.subscriptions.contains_key(id) implies marked.subscriptions[id].wf(
        ip,
        id,
        a.max_per_subscription,
    ) by {
        if id != info.id {
            assert(p.subscriptions.contains_key(id));
        }
    }
    assert(marked.subscriptions.contains_key(info.id));
    lemma_with_publisher(a, ip, marked);
}

/// Looking a subscription up keeps the invariant. What is found belongs to the
/// publisher, and is on file if and only if its content id is handed out.
pub proof fn lemma_consult<C, P>(a: Actor<C>, peer: PeerAddress, decoded: UdpNotifPacketDecoded<P>)
    requires
        a.wf(),
    ensures
        a.consult(peer, decoded).0.wf(),
        a.consult(peer, decoded).1 matches Some((info, on_file)) ==> {
            &&& info.peer_ip.key() == peer.ip.key()
            &&& decoded.contents is Some && info.id == decoded.contents->0.id()
            &&& match a.consult(peer, decoded).0.find(peer.ip.key(), info.id) {
                Some(s) => on_file == Some(s.content_id) && s.info == info,
                None => on_file is None,
            }
        },
        a.consult(peer, decoded).1 is None ==> a.consult(peer, decoded).0 == a && (
        decoded.contents is None || actor_model::announces(decoded) || a.find(
            peer.ip.key(),
            decoded.contents->0.id(),
        ) is None),
{
    let ip = peer.ip.key();
    if let Some(contents) = decoded.contents {
        if let Some(announced) = contents.announced() {
            let described = actor_model::described(
                peer.ip,
                announced,
                text::opt_view(decoded.canonical_xpath),
            );
            if let Some(info) = described {
                lemma_supersede(a, ip, info);
                if a.peers.contains_key(ip) && a.peers[ip].subscriptions.contains_key(info.id) {
                    assert(a.find(ip, info.id) is Some);
                }
            }
        } else if a.find(ip, contents.id()) is Some {
            assert(a.peers.contains_key(ip));
            assert(a.peers[ip].subscriptions.contains_key(contents.id()));
        }
    }
}

/// Finding out which subscription a packet belongs to keeps the invariant. A
/// subscription that is known is on file and waits for no fetch; one that is
/// to be looked up waits for the fetch.
pub proof fn lemma_extract<C, P>(a: Actor<C>, message: Message, decoded: UdpNotifPacketDecoded<P>)
    requires
        a.wf(),
    ensures
        a.extract(message, decoded).0.wf(),
        match a.extract(message, decoded).1 {
            actor_model::ExtractionView::Settled => true,
            actor_model::ExtractionView::Known(info) => {
                &&& info.peer_ip.key() == message.session.peer.ip.key()
                &&& a.extract(message, decoded).0.find(message.session.peer.ip.key(), info.id)
                    matches Some(s) && s.info == info && !s.pending
            },
            actor_model::ExtractionView::Lookup(info, by) => {
                &&& info.peer_ip.key() == message.session.peer.ip.key()
                &&& a.extract(message, decoded).0.awaits(message.session.peer.ip.key(), info.id)
            },
        },
{
    let peer = message.session.peer;
    let ip = peer.ip.key();
    if actor_model::announces(decoded) && a.awaits(ip, decoded.contents->0.id()) {
        let id = decoded.contents->0.id();
        assert(a.peers.contains_key(ip) && a.peers[ip].subscriptions.contains_key(id));
        lemma_buffer(a, a.find(ip, id)->0.info, message);
    } else {
        lemma_consult(a, peer, decoded);
        let (after, found) = a.consult(peer, decoded);
        match found {
            Some((info, Some(content_id))) => {
                if after.awaits(ip, info.id) {
                    assert(after.peers.contains_key(ip));
                    assert(after.peers[ip].subscriptions.contains_key(info.id));
                    lemma_buffer(after, info, message);
                }
            },
            Some((info, None)) => {
                let tags = actor_model::stream_tags(message, info).push(
                    TagView::LookupBy(CacheLookupBy::SubscriptionInfo),
                );
                let counted = after.record(Instrument::CacheLookups, 1, tags);
                assert(counted.find(ip, info.id) == after.find(ip, info.id));
                lemma_mark_pending(counted, ip, info);
            },
            None => {
                if !actor_model::announces(decoded) {
                    if let Some(contents) = decoded.contents {
                        let info = subscription::empty_info(peer.ip, contents.id());
                        let tags = actor_model::packet_tags(message).push(
                            TagView::LookupBy(CacheLookupBy::SubscriptionId),
                        );
                        let counted = after.record(Instrument::CacheLookups, 1, tags);
                        assert(counted.find(ip, info.id) == after.find(ip, info.id));
                        lemma_mark_pending(counted, ip, info);
                    }
                }
            },
        }
    }
}

/// A response keeps the invariant.
pub proof fn lemma_respond<C>(
    a: Actor<C>,
    content_id: Option<Seq<char>>,
    info: InfoView,
    library: bool,
    context: Option<C>,
)
    requires
        a.wf(),
    ensures
        a.respond(content_id, info, library, context).wf(),
        a.find(info.peer_ip.key(), info.id) matches Some(s) ==> s.buffered.len()
            <= a.peers[info.peer_ip.key()].total,
{
    let ip = info.peer_ip.key();
    if let Some(s) = a.find(ip, info.id) {
        let p = a.peers[ip];
        let settled = Subscription {
            content_id: if library {
                content_id
            } else {
                None
            },
            info,
            context: if library {
                context
            } else {
                None
            },
            buffered: Seq::empty(),
            pending: false,
        };
        lemma_held_insert(p.subscriptions, info.id, settled);
        let publisher = Publisher {
            subscriptions: p.subscriptions.insert(info.id, settled),
            total: (p.total - s.buffered.len()) as nat,
        };
        assert forall|id: SubscriptionId| #[trigger]
            publisher.subscriptions.contains_key(id) implies publisher.subscriptions[id].wf(
            ip,
            id,
            a.max_per_subscription,
        ) by {
            if id != info.id {
                assert(p.subscriptions.contains_key(id));
            }
        }
        assert(publisher.subscriptions.contains_key(info.id));
        lemma_with_publisher(a, ip, publisher);
        let after = a.respond(content_id, info, library, context);
        assert(after.peers == a.with_publisher(ip, publisher).peers);
    }
}

} // verus!
