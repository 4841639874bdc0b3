//! YANG-Push notifications, validated.
//!
//! UDP-Notif packets carry notifications of YANG-Push subscriptions. This crate
//! decides what becomes of each packet: [`validation`] holds it until the YANG
//! schema of its subscription is there, has it validated, and says what goes on
//! and what is dropped. [`fetcher`] and [`device_fetch`] say which modules make
//! up that schema and how to ask a device for them, [`retry`] when to ask again,
//! and [`yang_module_cache`] which modules need not be asked for. [`xpath`]
//! reads the filters of subscriptions.
//!
//! Nothing here does I/O. What holds of each part as a whole is stated in
//! [`validation_laws`] and [`packet_laws`] of the actor, in [`fetcher_laws`] and
//! [`library_laws`] of fetching, in [`yang_module_cache_laws`] of the cache, in
//! [`xpath_laws`], [`name_laws`], [`prefix_laws`] and [`path_laws`] of filters,
//! in [`identity_laws`] of what tells one thing from another, and in
//! [`metrics_laws`] of the instruments.

pub mod actor_invariant;
pub mod actor_model;
pub mod device_fetch;
pub mod fetcher;
pub mod fetcher_laws;
pub mod filters;
mod fx;
pub mod identity_laws;
pub mod library_laws;
pub mod metrics;
pub mod metrics_laws;
pub mod name_laws;
pub mod notification;
pub mod packet_laws;
pub mod path_laws;
pub mod prefix_laws;
pub mod retry;
pub mod subscription;
pub mod text;
pub mod text_channel;
pub mod validation;
pub mod validation_laws;
pub mod xpath;
pub mod xpath_laws;
pub mod yang_module_cache;
pub mod yang_module_cache_laws;
pub mod yanglib;

use vstd::prelude::*;

verus! {

/// A content id of a YANG library (RFC 8525).
pub type ContentId = String;

/// Attribute key for the id of a subscription.
pub const OTL_YANG_PUSH_SUBSCRIPTION_ID_KEY: &'static str =
    "netcalyx.udp.notif.yang.push.subscription.id";

/// Attribute key for the target of a subscription.
pub const OTL_YANG_PUSH_SUBSCRIPTION_TARGET_KEY: &'static str =
    "netcalyx.udp.notif.yang.push.subscription.target";

/// Attribute key for the content id that a publisher tells of its library.
pub const OTL_YANG_PUSH_SUBSCRIPTION_ROUTER_CONTENT_ID_KEY: &'static str =
    "netcalyx.udp.notif.yang.push.subscription.router_content_id";

/// Attribute key for the content id of the library that is validated against.
pub const OTL_YANG_PUSH_CACHED_CONTENT_ID_KEY: &'static str =
    "netcalyx.udp.notif.yang.push.subscription.cached_content_id";

} // verus!
