//! UDP-Notif packets, and the notifications that they carry.

use crate::subscription::{PeerAddress, SubscriptionId, Target, YangPushModuleVersion};
use crate::text::copy_opt;
use vstd::prelude::*;

verus! {

/// A transport session: the collector's end, its interface or VRF, and the
/// publisher's end.
#[derive(Debug, PartialEq, Eq)]
pub struct SessionInfo {
    pub collector: PeerAddress,
    pub interface: Option<String>,
    pub peer: PeerAddress,
}

impl Clone for SessionInfo {
    fn clone(&self) -> (r: Self)
        ensures
            r == *self,
    {
        SessionInfo {
            collector: self.collector,
            interface: copy_opt(&self.interface),
            peer: self.peer,
        }
    }
}

/// A UDP-Notif packet as it came off the wire.
#[derive(Debug, PartialEq, Eq)]
pub struct UdpNotifPacket {
    pub media_type: u8,
    pub publisher_id: u32,
    pub message_id: u32,
    pub payload: Vec<u8>,
}

/// A packet, and the session that it came through.
#[derive(Debug, PartialEq, Eq)]
pub struct UdpNotifRequest {
    pub session: SessionInfo,
    pub packet: UdpNotifPacket,
}

impl UdpNotifRequest {
    pub fn new(session: SessionInfo, packet: UdpNotifPacket) -> (r: Self)
        ensures
            r.session == session,
            r.packet == packet,
    {
        UdpNotifRequest { session, packet }
    }

    /// Where the packet came from.
    pub fn peer_address(&self) -> (r: PeerAddress)
        ensures
            r == self.session.peer,
    {
        self.session.peer
    }
}

/// The body of a `subscription-started` or `subscription-modified`
/// notification. Times, transport, encoding and update trigger are held as
/// text.
#[derive(Debug, PartialEq, Eq)]
pub struct SubscriptionStartedModified {
    pub id: SubscriptionId,
    pub target: Target,
    pub stop_time: Option<String>,
    pub transport: Option<String>,
    pub encoding: Option<String>,
    pub purpose: Option<String>,
    pub update_trigger: Option<String>,
    pub module_version: Option<Vec<YangPushModuleVersion>>,
    pub yang_library_content_id: Option<String>,
}

/// What a notification is about.
#[derive(Debug, PartialEq, Eq)]
pub enum NotificationVariant {
    SubscriptionStarted(SubscriptionStartedModified),
    SubscriptionModified(SubscriptionStartedModified),
    /// Any other notification of this subscription.
    Other(SubscriptionId),
}

impl NotificationVariant {
    /// The subscription that the notification belongs to.
    pub open spec fn id(self) -> SubscriptionId {
        match self {
            NotificationVariant::SubscriptionStarted(s) => s.id,
            NotificationVariant::SubscriptionModified(s) => s.id,
            NotificationVariant::Other(id) => id,
        }
    }

    /// What a `subscription-started` or `subscription-modified` holds.
    pub open spec fn announced(self) -> Option<SubscriptionStartedModified> {
        match self {
            NotificationVariant::SubscriptionStarted(s) => Some(s),
            NotificationVariant::SubscriptionModified(s) => Some(s),
            NotificationVariant::Other(_) => None,
        }
    }

    /// The subscription that the notification belongs to.
    pub fn subscription_id(&self) -> (r: SubscriptionId)
        ensures
            r == self.id(),
    {
        match self {
            NotificationVariant::SubscriptionStarted(s) => s.id,
            NotificationVariant::SubscriptionModified(s) => s.id,
            NotificationVariant::Other(id) => *id,
        }
    }

    /// The body of a `subscription-started` or `subscription-modified`.
    pub fn announcement(&self) -> (r: Option<&SubscriptionStartedModified>)
        ensures
            match r {
                Some(s) => self.announced() == Some(*s),
                None => self.announced() is None,
            },
    {
        match self {
            NotificationVariant::SubscriptionStarted(s) => Some(s),
            NotificationVariant::SubscriptionModified(s) => Some(s),
            NotificationVariant::Other(_) => None,
        }
    }
}

/// A UDP-Notif packet after decoding. What the decoder made of the payload is
/// sent on as it is.
#[derive(Debug, PartialEq, Eq)]
pub struct UdpNotifPacketDecoded<P> {
    pub message_id: u32,
    pub publisher_id: u32,
    /// Whether the payload is in the form without a notification envelope.
    pub legacy: bool,
    /// What the notification says, where the payload holds one.
    pub contents: Option<NotificationVariant>,
    /// The canonical form of the announced target's XPath filter, where the
    /// target has such a filter and the filter has such a form.
    pub canonical_xpath: Option<String>,
    /// The decoded payload.
    pub payload: P,
}

} // verus!
