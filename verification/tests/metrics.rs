use yang_push::metrics::{CacheLookupBy, DropReason, Instrument, SkipReason, Tag};
use yang_push::subscription::PeerIp;

#[test]
fn reasons_have_their_names() {
    assert_eq!(DropReason::DecodeError.as_str(), "decode_error");
    assert_eq!(
        DropReason::BufferFullSubscription.as_str(),
        "buffer_full_subscription"
    );
    assert_eq!(DropReason::BufferFullPeer.as_str(), "buffer_full_peer");
    assert_eq!(DropReason::ValidationFailed.as_str(), "validation_failed");
    assert_eq!(
        DropReason::IncompleteSubscriptionStarted.as_str(),
        "incomplete_subscription_started"
    );
    assert_eq!(DropReason::NoSubscriptionId.as_str(), "no_subscription_id");
    assert_eq!(DropReason::SendError.as_str(), "send_error");
    assert_eq!(SkipReason::NoLibrary.as_str(), "no_library");
    assert_eq!(SkipReason::ContextFailed.as_str(), "context_failed");
    assert_eq!(
        SkipReason::NoSubscriptionInfo.as_str(),
        "no_subscription_info"
    );
    assert_eq!(CacheLookupBy::SubscriptionInfo.as_str(), "subscription_info");
    assert_eq!(CacheLookupBy::SubscriptionId.as_str(), "subscription_id");
}

#[test]
fn descriptions_list_the_tag_values() {
    assert_eq!(
        Instrument::Dropped.description(),
        "Number of YANG-Push messages dropped for any reason, tagged with reason \
         (decode_error | buffer_full_subscription | buffer_full_peer | validation_failed | \
         incomplete_subscription_started | no_subscription_id | send_error)"
    );
    assert_eq!(
        Instrument::CacheLookups.description(),
        "Number of YANG schema cache lookups issued, tagged with by \
         (subscription_info | subscription_id)"
    );
    assert_eq!(
        Instrument::Skipped.description(),
        "Number of YANG-Push messages forwarded without validation, tagged with reason \
         (no_library | context_failed | no_subscription_info)"
    );
    assert_eq!(
        Instrument::Decoded.description(),
        "Number of YANG-Push messages decoded successfully"
    );
}

#[test]
fn instruments_have_names_and_kinds() {
    assert_eq!(
        Instrument::Received.name(),
        "netcalyx.yang_push.validation.received"
    );
    assert_eq!(
        Instrument::YangContextEmpty.name(),
        "netcalyx.yang_push.validation.yang.context.empty"
    );
    assert!(Instrument::Buffered.is_gauge());
    assert!(Instrument::Pending.is_gauge());
    assert!(Instrument::CachedPeers.is_gauge());
    assert!(Instrument::CachedSubscriptions.is_gauge());
    assert!(!Instrument::Sent.is_gauge());
    assert!(!Instrument::Dropped.is_gauge());
}

#[test]
fn tags_have_their_keys() {
    assert_eq!(
        Tag::PeerAddress(PeerIp::v4(1)).key(),
        "network.peer.address"
    );
    assert_eq!(Tag::PeerPort(1).key(), "network.peer.port");
    assert_eq!(
        Tag::SubscriptionId(1).key(),
        "netcalyx.udp.notif.yang.push.subscription.id"
    );
    assert_eq!(
        Tag::RouterContentId("x".to_string()).key(),
        "netcalyx.udp.notif.yang.push.subscription.router_content_id"
    );
    assert_eq!(Tag::Dropped(DropReason::SendError).key(), "reason");
    assert_eq!(Tag::Skipped(SkipReason::NoLibrary).key(), "reason");
    assert_eq!(Tag::LookupBy(CacheLookupBy::SubscriptionId).key(), "by");
}
