//! What holds of the instruments, of their names, and of the keys of tags.

use crate::metrics;
use crate::metrics::{CacheLookupBy, DropReason, Instrument, SkipReason, TagView};
use vstd::prelude::*;

verus! {

/// An instrument holds a value if and only if it tells how many there are at the
/// moment: packets held, packets queued, publishers or subscriptions. All others
/// add up.
pub proof fn law_gauges_tell_how_many(instrument: Instrument)
    ensures
        instrument.gauge() <==> match instrument {
            Instrument::Buffered => true,
            Instrument::Pending => true,
            Instrument::CachedPeers => true,
            Instrument::CachedSubscriptions => true,
            _ => false,
        },
{
}

/// The last part of an instrument's name.
pub open spec fn own_name(instrument: Instrument) -> Seq<char> {
    match instrument {
        Instrument::Received => "received"@,
        Instrument::Decoded => "decoded"@,
        Instrument::Dropped => "dropped"@,
        Instrument::CacheLookups => "cache.lookups"@,
        Instrument::SubscriptionUpdateDeferred => "subscription_update.deferred"@,
        Instrument::Buffered => "buffered"@,
        Instrument::BufferDrained => "buffer.drained"@,
        Instrument::YangContextLoaded => "yang.context.loaded"@,
        Instrument::YangContextFailed => "yang.context.failed"@,
        Instrument::YangContextEmpty => "yang.context.empty"@,
        Instrument::Validated => "validated"@,
        Instrument::Skipped => "skipped"@,
        Instrument::Sent => "sent"@,
        Instrument::Pending => "pending"@,
        Instrument::CachedPeers => "cached_peers"@,
        Instrument::CachedSubscriptions => "cached_subscriptions"@,
    }
}

/// Every instrument has the name of the validation stage, and behind it its own.
pub proof fn law_instrument_names(instrument: Instrument)
    ensures
        instrument.title() == "netcalyx.yang_push.validation."@ + own_name(instrument),
{
    reveal_strlit("netcalyx.yang_push.validation.");
    match instrument {
        Instrument::Received => {
            reveal_strlit("received");
            reveal_strlit("netcalyx.yang_push.validation.received");
        },
        Instrument::Decoded => {
            reveal_strlit("decoded");
            reveal_strlit("netcalyx.yang_push.validation.decoded");
        },
        Instrument::Dropped => {
            reveal_strlit("dropped");
            reveal_strlit("netcalyx.yang_push.validation.dropped");
        },
        Instrument::CacheLookups => {
            reveal_strlit("cache.lookups");
            reveal_strlit("netcalyx.yang_push.validation.cache.lookups");
        },
        Instrument::SubscriptionUpdateDeferred => {
            reveal_strlit("subscription_update.deferred");
            reveal_strlit("netcalyx.yang_push.validation.subscription_update.deferred");
        },
        Instrument::Buffered => {
            reveal_strlit("buffered");
            reveal_strlit("netcalyx.yang_push.validation.buffered");
        },
        Instrument::BufferDrained => {
            reveal_strlit("buffer.drained");
            reveal_strlit("netcalyx.yang_push.validation.buffer.drained");
        },
        Instrument::YangContextLoaded => {
            reveal_strlit("yang.context.loaded");
            reveal_strlit("netcalyx.yang_push.validation.yang.context.loaded");
        },
        Instrument::YangContextFailed => {
            reveal_strlit("yang.context.failed");
            reveal_strlit("netcalyx.yang_push.validation.yang.context.failed");
        },
        Instrument::YangContextEmpty => {
            reveal_strlit("yang.context.empty");
            reveal_strlit("netcalyx.yang_push.validation.yang.context.empty");
        },
        Instrument::Validated => {
            reveal_strlit("validated");
            reveal_strlit("netcalyx.yang_push.validation.validated");
        },
        Instrument::Skipped => {
            reveal_strlit("skipped");
            reveal_strlit("netcalyx.yang_push.validation.skipped");
        },
        Instrument::Sent => {
            reveal_strlit("sent");
            reveal_strlit("netcalyx.yang_push.validation.sent");
        },
        Instrument::Pending => {
            reveal_strlit("pending");
            reveal_strlit("netcalyx.yang_push.validation.pending");
        },
        Instrument::CachedPeers => {
            reveal_strlit("cached_peers");
            reveal_strlit("netcalyx.yang_push.validation.cached_peers");
        },
        Instrument::CachedSubscriptions => {
            reveal_strlit("cached_subscriptions");
            reveal_strlit("netcalyx.yang_push.validation.cached_subscriptions");
        },
    }
    assert(instrument.title() =~= "netcalyx.yang_push.validation."@ + own_name(instrument));
}

/// A tag goes under the key of what it tells. Only reasons share a key.
pub proof fn law_tag_keys(tag: TagView)
    ensures
        tag.attribute() == match tag {
            TagView::PeerAddress(_) => "network.peer.address"@,
            TagView::PeerPort(_) => "network.peer.port"@,
            TagView::PublisherId(_) => "netcalyx.udp.notif.publisher.id"@,
            TagView::SubscriptionId(_) => "netcalyx.udp.notif.yang.push.subscription.id"@,
            TagView::SubscriptionTarget(_) => "netcalyx.udp.notif.yang.push.subscription.target"@,
            TagView::RouterContentId(_) =>
                "netcalyx.udp.notif.yang.push.subscription.router_content_id"@,
            TagView::Dropped(_) => "reason"@,
            TagView::Skipped(_) => "reason"@,
            TagView::LookupBy(_) => "by"@,
        },
{
}

/// Every reason and every kind of lookup is listed, and each once.
pub proof fn law_reasons_are_listed(dropped: DropReason, skipped: SkipReason, by: CacheLookupBy)
    ensures
        DropReason::all().contains(dropped),
        DropReason::all().no_duplicates(),
        SkipReason::all().contains(skipped),
        SkipReason::all().no_duplicates(),
        CacheLookupBy::all().contains(by),
        CacheLookupBy::all().no_duplicates(),
{
    let drops = DropReason::all();
    assert(drops[0] == DropReason::DecodeError);
    assert(drops[1] == DropReason::BufferFullSubscription);
    assert(drops[2] == DropReason::BufferFullPeer);
    assert(drops[3] == DropReason::ValidationFailed);
    assert(drops[4] == DropReason::IncompleteSubscriptionStarted);
    assert(drops[5] == DropReason::NoSubscriptionId);
    assert(drops[6] == DropReason::SendError);
    let skips = SkipReason::all();
    assert(skips[0] == SkipReason::NoLibrary);
    assert(skips[1] == SkipReason::ContextFailed);
    assert(skips[2] == SkipReason::NoSubscriptionInfo);
    let lookups = CacheLookupBy::all();
    assert(lookups[0] == CacheLookupBy::SubscriptionInfo);
    assert(lookups[1] == CacheLookupBy::SubscriptionId);
}

/// A list of alternatives grows by a bar and the next; one alone stands by
/// itself.
pub proof fn law_alternatives(names: Seq<Seq<char>>, name: Seq<char>)
    ensures
        metrics::alternatives(seq![name]) == name,
        names.len() > 0 ==> metrics::alternatives(names.push(name)) == metrics::alternatives(names)
            + " | "@ + name,
{
    assert(names.push(name).drop_last() =~= names);
}

/// The description of an instrument that has reasons, or kinds of lookups, for
/// tags ends with all of them in brackets, in the order in which they are
/// declared; that of another lists nothing.
pub proof fn law_descriptions_list_the_tags(instrument: Instrument)
    ensures
        ({
            let listed = instrument.listed();
            &&& match instrument {
                Instrument::Dropped => listed.len() == DropReason::all().len() && forall|i: int|
                    0 <= i < listed.len() ==> #[trigger] listed[i] == DropReason::all()[i].name(),
                Instrument::Skipped => listed.len() == SkipReason::all().len() && forall|i: int|
                    0 <= i < listed.len() ==> #[trigger] listed[i] == SkipReason::all()[i].name(),
                Instrument::CacheLookups => listed.len() == CacheLookupBy::all().len() && forall|
                    i: int,
                |
                    0 <= i < listed.len() ==> #[trigger] listed[i]
                        == CacheLookupBy::all()[i].name(),
                _ => listed.len() == 0,
            }
            &&& listed.len() == 0 ==> instrument.described() == instrument.summary()
            &&& listed.len() > 0 ==> instrument.described() == instrument.summary() + " ("@
                + metrics::alternatives(listed) + ")"@
        }),
{
}

} // verus!
