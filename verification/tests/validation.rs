use std::sync::Arc;
use yang_push::actor_model::ValidationMode;
use yang_push::metrics::{DropReason, Instrument, MetricEvent, SkipReason, Tag};
use yang_push::notification::{
    NotificationVariant, SessionInfo, SubscriptionStartedModified, UdpNotifPacket,
    UdpNotifPacketDecoded, UdpNotifRequest,
};
use yang_push::subscription::{
    PeerAddress, PeerIp, SubscriptionInfo, Target, YangPushModuleVersion,
};
use yang_push::validation::{
    build_subscription_info, normalize_json_target_xpath, CacheLookupCommand, CacheResponse,
    RunAction, RunEvent, Step, ValidatedNotification, ValidationActor, ValidationActorCommand,
    ValidationActorError, ValidationActorHandleError, YangLibraryReference,
};

type Actor = ValidationActor<&'static str>;
type Decoded = UdpNotifPacketDecoded<String>;

const FIRST: &str = "test-content-id-1";
const SECOND: &str = "updated-content-id-2";

fn ip(last: u32) -> PeerIp {
    PeerIp::v4(0x7f00_0000 + last)
}

fn packet(media_type: u8, message_id: u32, payload: Vec<u8>) -> UdpNotifPacket {
    UdpNotifPacket {
        media_type,
        publisher_id: 10,
        message_id,
        payload,
    }
}

fn request(peer: PeerAddress, message_id: u32, payload: Vec<u8>) -> Arc<UdpNotifRequest> {
    Arc::new(UdpNotifRequest::new(
        SessionInfo {
            collector: PeerAddress {
                ip: ip(1),
                port: 10000,
            },
            interface: None,
            peer,
        },
        packet(1, message_id, payload),
    ))
}

fn publisher() -> PeerAddress {
    PeerAddress {
        ip: ip(1),
        port: 0,
    }
}

fn message_from(peer: PeerAddress, message_id: u32) -> Arc<UdpNotifRequest> {
    request(peer, message_id, vec![])
}

fn message(message_id: u32) -> Arc<UdpNotifRequest> {
    message_from(publisher(), message_id)
}

/// A payload that says what a notification is about.
fn encode(contents: &Option<NotificationVariant>) -> Vec<u8> {
    let announced = |kind: &str, s: &SubscriptionStartedModified| {
        format!(
            "{kind}|{}|{}|{}|{}|{}",
            s.id,
            s.target.datastore_xpath_filter.as_deref().unwrap_or_default(),
            s.purpose.as_deref().unwrap_or_default(),
            s.module_version.is_some(),
            s.yang_library_content_id.as_deref().unwrap_or_default(),
        )
    };
    match contents {
        None => "nothing".to_string(),
        Some(NotificationVariant::SubscriptionStarted(s)) => announced("started", s),
        Some(NotificationVariant::SubscriptionModified(s)) => announced("modified", s),
        Some(NotificationVariant::Other(id)) => format!("update|{id}"),
    }
    .into_bytes()
}

/// Stands in for the decoder.
fn decode(packet: &UdpNotifPacket) -> Option<Decoded> {
    if packet.media_type != 1 {
        return None;
    }
    let text = String::from_utf8(packet.payload.clone()).unwrap();
    let words: Vec<&str> = text.split('|').collect();
    let present = |word: &str| Some(word.to_string()).filter(|w| !w.is_empty());
    let announced = || {
        let mut s = started(words[1].parse().unwrap(), words[5]);
        s.target.datastore_xpath_filter = present(words[2]);
        s.purpose = present(words[3]);
        if words[4] == "false" {
            s.module_version = None;
        }
        s.yang_library_content_id = present(words[5]);
        s
    };
    let contents = match words[0] {
        "started" => Some(NotificationVariant::SubscriptionStarted(announced())),
        "modified" => Some(NotificationVariant::SubscriptionModified(announced())),
        "update" => update(words[1].parse().unwrap()),
        "nothing" => None,
        _ => return None,
    };
    Some(decoded(packet.message_id, contents))
}

/// Stands in for libyang: the misspelt node is one that only a strict look at
/// the data finds.
fn accepts(payload: &[u8], mode: ValidationMode) -> bool {
    let strict = mode
        == ValidationMode::Data {
            anydata_strict: true,
        };
    !(strict && String::from_utf8_lossy(payload).contains("enabelled"))
}

/// A decoded packet, whose payload tells its message id.
fn decoded(message_id: u32, contents: Option<NotificationVariant>) -> Decoded {
    UdpNotifPacketDecoded {
        message_id,
        publisher_id: 10,
        legacy: false,
        contents,
        canonical_xpath: None,
        payload: format!("payload {message_id}"),
    }
}

fn started(id: u32, content_id: &str) -> SubscriptionStartedModified {
    SubscriptionStartedModified {
        id,
        target: Target::new_datastore(
            "ietf-datastores:operational".to_string(),
            "/ietf-interfaces:interfaces".to_string(),
        ),
        stop_time: None,
        transport: Some("ietf-udp-notif-transport:udp-notif".to_string()),
        encoding: Some("encode-json".to_string()),
        purpose: Some("test subscription".to_string()),
        update_trigger: Some("periodic 6000".to_string()),
        module_version: Some(vec![YangPushModuleVersion::new(
            "ietf-interfaces".to_string(),
            Some("2018-02-20".to_string()),
            None,
        )]),
        yang_library_content_id: Some(content_id.to_string()),
    }
}

fn announce(id: u32, content_id: &str) -> Option<NotificationVariant> {
    Some(NotificationVariant::SubscriptionStarted(started(
        id, content_id,
    )))
}

fn modify(id: u32, content_id: &str) -> Option<NotificationVariant> {
    Some(NotificationVariant::SubscriptionModified(started(
        id, content_id,
    )))
}

fn update(id: u32) -> Option<NotificationVariant> {
    Some(NotificationVariant::Other(id))
}

/// What became of a packet: what was looked up and what was forwarded.
#[derive(Default)]
struct Outcome {
    lookups: Vec<CacheLookupCommand>,
    forwarded: Vec<ValidatedNotification<String>>,
    modes: Vec<ValidationMode>,
}

/// Processes a packet to its end.
fn process(
    actor: &mut Actor,
    message: Arc<UdpNotifRequest>,
    contents: Option<Decoded>,
    is_reprocessed: bool,
    outcome: &mut Outcome,
) {
    let mut step = actor.process_udp_notif_msg(message, contents, is_reprocessed);
    loop {
        step = match step {
            Step::Done => return,
            Step::Lookup(command, pending) => {
                outcome.lookups.push(command);
                actor.lookup_sent(pending, true).unwrap();
                return;
            }
            Step::Validate(validation) => {
                assert_eq!(actor.schema_context(&validation), Some(&"schema"));
                let mode = validation.mode();
                let valid = accepts(&validation.message().packet.payload, mode);
                outcome.modes.push(mode);
                actor.validate_message(validation, valid)
            }
            Step::Forward(notification, pending) => {
                outcome.forwarded.push(notification);
                actor.forwarded(pending, true).unwrap();
                return;
            }
        };
    }
}

fn receive_message(actor: &mut Actor, message: Arc<UdpNotifRequest>) -> Outcome {
    let mut outcome = Outcome::default();
    let decoded = decode(&message.packet);
    process(actor, message, decoded, false, &mut outcome);
    outcome
}

fn receive(actor: &mut Actor, id: u32, contents: Option<NotificationVariant>) -> Outcome {
    receive_message(actor, request(publisher(), id, encode(&contents)))
}

/// Processes what was let out of a hold buffer.
fn drain(actor: &mut Actor) -> Outcome {
    let mut outcome = Outcome::default();
    loop {
        match actor.run_step(RunEvent::Queue) {
            RunAction::Process {
                message,
                is_reprocessed,
            } => {
                assert!(is_reprocessed);
                let decoded = decode(&message.packet);
                process(actor, message, decoded, true, &mut outcome);
            }
            RunAction::Wait => return outcome,
            RunAction::Exit(_) => panic!("the actor should go on"),
        }
    }
}

fn info_of(content_id: &str, id: u32) -> SubscriptionInfo {
    build_subscription_info(ip(1), &started(id, content_id), &None).unwrap()
}

/// Announces a subscription, and has its schema fetched and loaded.
fn load_schema(actor: &mut Actor, peer: PeerAddress) {
    let message = request(peer, 1, encode(&announce(1, FIRST)));
    assert_eq!(receive_message(actor, message).lookups.len(), 1);
    actor.process_cache_response(found(info_of(FIRST, 1)), Some("schema"));
    let outcome = drain(actor);
    assert_eq!(ids(&outcome), vec![1]);
    assert!(outcome.lookups.is_empty());
    assert!(outcome.forwarded[0].cached_content_id.is_some());
}

fn library() -> Option<YangLibraryReference> {
    Some(YangLibraryReference {
        yang_library_path: "lib.xml".to_string(),
        search_dir: "modules".to_string(),
    })
}

fn found(info: SubscriptionInfo) -> CacheResponse {
    CacheResponse {
        cached_content_id: Some("cached".to_string()),
        subscription_info: info,
        yang_lib_ref: library(),
    }
}

fn not_found(info: SubscriptionInfo) -> CacheResponse {
    CacheResponse {
        cached_content_id: None,
        subscription_info: info,
        yang_lib_ref: None,
    }
}

fn ids(outcome: &Outcome) -> Vec<u32> {
    outcome
        .forwarded
        .iter()
        .map(|n| n.packet.message_id)
        .collect()
}

fn has(events: &[MetricEvent], instrument: Instrument) -> bool {
    events.iter().any(|e| e.instrument == instrument)
}

fn dropped_for(events: &[MetricEvent], reason: DropReason) -> bool {
    events
        .iter()
        .any(|e| e.instrument == Instrument::Dropped && e.tags.last() == Some(&Tag::Dropped(reason)))
}

fn skipped_for(events: &[MetricEvent], reason: SkipReason) -> bool {
    events
        .iter()
        .any(|e| e.instrument == Instrument::Skipped && e.tags.last() == Some(&Tag::Skipped(reason)))
}

#[test]
fn test_validation_actor_schema_fetched() {
    let mut actor = Actor::new(1000, 100, true);
    let outcome = receive(&mut actor, 1, announce(1, FIRST));
    assert_eq!(
        outcome.lookups,
        vec![CacheLookupCommand::LookupBySubscriptionInfo {
            subscription_info: info_of(FIRST, 1),
            session: message(1).session.clone(),
        }]
    );
    assert!(outcome.forwarded.is_empty());
    let response = found(info_of(FIRST, 1));
    assert_eq!(actor.schema_to_load(&response), library().as_ref());
    actor.process_cache_response(response, Some("schema"));
    let outcome = drain(&mut actor);
    assert_eq!(ids(&outcome), vec![1]);
    assert_eq!(
        outcome.forwarded[0].cached_content_id.as_deref(),
        Some("cached")
    );
    assert!(!outcome.forwarded[0].subscription_info.is_empty());
    assert_eq!(
        outcome.forwarded[0].packet,
        decoded(1, announce(1, FIRST))
    );
    assert_eq!(
        outcome.modes,
        vec![ValidationMode::Data {
            anydata_strict: true
        }]
    );
}

#[test]
fn test_validation_actor_schema_not_found() {
    let mut actor = Actor::new(1000, 100, true);
    let mut unknown = started(9, "1903509911");
    unknown.target.datastore_xpath_filter =
        Some("/ietf-interfaces:interfaces/interface".to_string());
    unknown.purpose = None;
    let info = build_subscription_info(ip(1), &unknown, &None).unwrap();
    let outcome = receive(
        &mut actor,
        1,
        Some(NotificationVariant::SubscriptionStarted(unknown)),
    );
    assert_eq!(outcome.lookups.len(), 1);
    actor.process_cache_response(not_found(info), None);
    let outcome = drain(&mut actor);
    assert_eq!(ids(&outcome), vec![1]);
    assert!(outcome.lookups.is_empty());
    assert!(outcome.forwarded[0].cached_content_id.is_none());
    assert!(!outcome.forwarded[0].subscription_info.is_empty());
    assert_eq!(outcome.forwarded[0].packet.payload, "payload 1");
    let events = actor.take_events();
    assert!(has(&events, Instrument::YangContextEmpty));
    assert!(skipped_for(&events, SkipReason::NoLibrary));
}

#[test]
fn schema_that_cannot_be_loaded_disables_validation() {
    let mut actor = Actor::new(1000, 100, true);
    receive(&mut actor, 1, announce(1, FIRST));
    actor.process_cache_response(found(info_of(FIRST, 1)), None);
    let outcome = drain(&mut actor);
    assert!(outcome.forwarded[0].cached_content_id.is_none());
    let events = actor.take_events();
    assert!(has(&events, Instrument::YangContextFailed));
    assert!(skipped_for(&events, SkipReason::ContextFailed));
}

#[test]
fn test_validation_actor_malformed_subscription_started_dropped() {
    let mut actor = Actor::new(1000, 100, true);
    let mut incomplete = started(103, "");
    incomplete.target.datastore_xpath_filter = Some("/ietf-hardware:hardware".to_string());
    incomplete.purpose = None;
    incomplete.module_version = None;
    incomplete.yang_library_content_id = None;
    let outcome = receive(
        &mut actor,
        1,
        Some(NotificationVariant::SubscriptionStarted(incomplete)),
    );
    assert!(outcome.lookups.is_empty() && outcome.forwarded.is_empty());
    assert!(dropped_for(
        &actor.take_events(),
        DropReason::IncompleteSubscriptionStarted
    ));
}

#[test]
fn test_validation_actor_malformed_json_payload_dropped() {
    let mut actor = Actor::new(1000, 100, true);
    let message = request(publisher(), 1, b"this is not json {{{".to_vec());
    let outcome = receive_message(&mut actor, message);
    assert!(outcome.lookups.is_empty() && outcome.forwarded.is_empty());
    let events = actor.take_events();
    assert_eq!(
        events,
        vec![MetricEvent {
            instrument: Instrument::Dropped,
            value: 1,
            tags: vec![
                Tag::PeerAddress(ip(1)),
                Tag::PeerPort(0),
                Tag::PublisherId(10),
                Tag::Dropped(DropReason::DecodeError),
            ],
        }]
    );
}

#[test]
fn test_validation_actor_unsupported_media_type_dropped() {
    let mut actor = Actor::new(1000, 100, true);
    let message = Arc::new(UdpNotifRequest::new(
        message(1).session.clone(),
        packet(2, 1, b"<irrelevant/>".to_vec()),
    ));
    let outcome = receive_message(&mut actor, message);
    assert!(outcome.lookups.is_empty() && outcome.forwarded.is_empty());
    assert!(dropped_for(&actor.take_events(), DropReason::DecodeError));
}

#[test]
fn test_validation_actor_valid_push_update_passes() {
    let mut actor = Actor::new(1000, 100, true);
    load_schema(&mut actor, publisher());
    let outcome = receive(&mut actor, 2, update(1));
    assert_eq!(ids(&outcome), vec![2]);
    assert!(outcome.forwarded[0].cached_content_id.is_some());
    assert!(!outcome.forwarded[0].subscription_info.is_empty());
}

#[test]
fn test_validation_actor_invalid_push_update_dropped() {
    let mut actor = Actor::new(1000, 100, true);
    load_schema(&mut actor, publisher());
    actor.take_events();
    let message = request(publisher(), 2, b"update|1|enabelled".to_vec());
    let outcome = receive_message(&mut actor, message);
    assert!(outcome.lookups.is_empty() && outcome.forwarded.is_empty());
    let events = actor.take_events();
    assert!(dropped_for(&events, DropReason::ValidationFailed));
    assert!(!has(&events, Instrument::Validated) && !has(&events, Instrument::Sent));
    // The next one passes.
    assert_eq!(ids(&receive(&mut actor, 3, update(1))), vec![3]);
    let events = actor.take_events();
    assert!(has(&events, Instrument::Validated) && has(&events, Instrument::Sent));
}

#[test]
fn test_validation_actor_invalid_push_update_passes_when_anydata_not_strict() {
    let mut actor = Actor::new(1000, 100, false);
    load_schema(&mut actor, publisher());
    let message = request(publisher(), 2, b"update|1|enabelled".to_vec());
    let outcome = receive_message(&mut actor, message);
    assert_eq!(ids(&outcome), vec![2]);
    assert!(outcome.forwarded[0].cached_content_id.is_some());
    assert!(!outcome.forwarded[0].subscription_info.is_empty());
}

#[test]
fn validation_mode_follows_the_payload_and_the_setting() {
    let mut actor = Actor::new(1000, 100, false);
    receive(&mut actor, 2, announce(1, FIRST));
    actor.process_cache_response(found(info_of(FIRST, 1)), Some("schema"));
    assert_eq!(
        drain(&mut actor).modes,
        vec![ValidationMode::Data {
            anydata_strict: false
        }]
    );
    let mut legacy = decoded(4, update(1));
    legacy.legacy = true;
    let mut outcome = Outcome::default();
    process(&mut actor, message(4), Some(legacy), false, &mut outcome);
    assert_eq!(outcome.modes, vec![ValidationMode::LegacyNotification]);
}

#[test]
fn test_validation_actor_duplicate_subscription_started_in_flight() {
    let mut actor = Actor::new(1000, 100, true);
    assert_eq!(receive(&mut actor, 1, modify(1, FIRST)).lookups.len(), 1);
    actor.take_events();
    let outcome = receive(&mut actor, 2, modify(1, FIRST));
    assert!(outcome.lookups.is_empty() && outcome.forwarded.is_empty());
    assert!(has(
        &actor.take_events(),
        Instrument::SubscriptionUpdateDeferred
    ));
    actor.process_cache_response(found(info_of(FIRST, 1)), Some("schema"));
    let outcome = drain(&mut actor);
    assert!(outcome.lookups.is_empty());
    assert_eq!(ids(&outcome), vec![1, 2]);
    for notification in &outcome.forwarded {
        assert!(notification.cached_content_id.is_some());
        assert!(!notification.subscription_info.is_empty());
    }
}

#[test]
fn test_validation_actor_duplicate_subscription_started_after_schema_loaded() {
    let mut actor = Actor::new(1000, 100, true);
    load_schema(&mut actor, publisher());
    let outcome = receive(&mut actor, 2, announce(1, FIRST));
    assert!(outcome.lookups.is_empty());
    assert_eq!(ids(&outcome), vec![2]);
    assert!(outcome.forwarded[0].cached_content_id.is_some());
    assert!(!outcome.forwarded[0].subscription_info.is_empty());
}

#[test]
fn test_validation_actor_reconnect_new_source_port_reuses_schema() {
    let mut actor = Actor::new(1000, 100, true);
    let at = |port: u16| PeerAddress { ip: ip(1), port };
    load_schema(&mut actor, at(12345));
    let message = request(at(12346), 2, encode(&update(1)));
    let outcome = receive_message(&mut actor, message);
    assert!(outcome.lookups.is_empty());
    assert_eq!(ids(&outcome), vec![2]);
    assert!(outcome.forwarded[0].cached_content_id.is_some());
    assert!(!outcome.forwarded[0].subscription_info.is_empty());
    assert_eq!(outcome.forwarded[0].session.peer, at(12346));
}

#[test]
fn test_validation_actor_changed_subscription_started_triggers_refetch() {
    let mut actor = Actor::new(1000, 100, true);
    load_schema(&mut actor, publisher());
    let outcome = receive(&mut actor, 2, announce(1, SECOND));
    assert_eq!(
        outcome.lookups,
        vec![CacheLookupCommand::LookupBySubscriptionInfo {
            subscription_info: info_of(SECOND, 1),
            session: message(2).session.clone(),
        }]
    );
    assert!(outcome.forwarded.is_empty());
    // The second fetch fails.
    actor.process_cache_response(not_found(info_of(SECOND, 1)), None);
    let outcome = drain(&mut actor);
    assert!(outcome.lookups.is_empty());
    assert_eq!(ids(&outcome), vec![2]);
    assert!(outcome.forwarded[0].cached_content_id.is_none());
    assert!(!outcome.forwarded[0].subscription_info.is_empty());
}

#[test]
fn test_validation_actor_subscription_modified_while_fetch_in_flight() {
    let mut actor = Actor::new(1000, 100, true);
    assert_eq!(receive(&mut actor, 1, announce(1, FIRST)).lookups.len(), 1);
    for (id, contents) in [(2, update(1)), (3, modify(1, SECOND)), (4, update(1))] {
        let outcome = receive(&mut actor, id, contents);
        assert!(outcome.lookups.is_empty() && outcome.forwarded.is_empty());
    }
    // The response for the first generation settles it, not the second.
    actor.process_cache_response(found(info_of(FIRST, 1)), Some("schema"));
    let outcome = drain(&mut actor);
    assert_eq!(ids(&outcome), vec![1, 2]);
    for notification in &outcome.forwarded {
        assert!(notification.cached_content_id.is_some());
        assert_eq!(notification.subscription_info, info_of(FIRST, 1));
    }
    assert_eq!(
        outcome.lookups,
        vec![CacheLookupCommand::LookupBySubscriptionInfo {
            subscription_info: info_of(SECOND, 1),
            session: message(3).session.clone(),
        }]
    );
    // The second fetch fails.
    actor.process_cache_response(not_found(info_of(SECOND, 1)), None);
    let outcome = drain(&mut actor);
    assert!(outcome.lookups.is_empty());
    assert_eq!(ids(&outcome), vec![3, 4]);
    for notification in &outcome.forwarded {
        assert!(notification.cached_content_id.is_none());
        assert_eq!(notification.subscription_info, info_of(SECOND, 1));
    }
}

#[test]
fn modified_subscription_is_validated_against_its_own_schema() {
    let mut actor = Actor::new(1000, 100, true);
    receive(&mut actor, 1, announce(1, FIRST));
    receive(&mut actor, 2, modify(1, SECOND));
    actor.process_cache_response(found(info_of(FIRST, 1)), Some("schema"));
    assert_eq!(ids(&drain(&mut actor)), vec![1]);
    actor.process_cache_response(found(info_of(SECOND, 1)), Some("schema"));
    let outcome = drain(&mut actor);
    assert_eq!(ids(&outcome), vec![2]);
    assert!(outcome.forwarded[0].cached_content_id.is_some());
    assert_eq!(outcome.forwarded[0].subscription_info, info_of(SECOND, 1));
}

#[test]
fn update_of_an_unknown_subscription_is_looked_up_by_id() {
    let mut actor = Actor::new(1000, 100, true);
    let outcome = receive(&mut actor, 2, update(5));
    assert_eq!(
        outcome.lookups,
        vec![CacheLookupCommand::LookupBySubscriptionId {
            session: message(2).session.clone(),
            subscription_id: 5,
        }]
    );
    // The lookup tells nothing.
    actor.process_cache_response(not_found(SubscriptionInfo::new_empty(ip(1), 5)), None);
    let outcome = drain(&mut actor);
    assert_eq!(ids(&outcome), vec![2]);
    assert!(outcome.forwarded[0].subscription_info.is_empty());
    assert!(skipped_for(
        &actor.take_events(),
        SkipReason::NoSubscriptionInfo
    ));
}

#[test]
fn packet_that_names_no_subscription_is_dropped() {
    let mut actor = Actor::new(1000, 100, true);
    let outcome = receive(&mut actor, 1, None);
    assert!(outcome.lookups.is_empty() && outcome.forwarded.is_empty());
    assert!(dropped_for(
        &actor.take_events(),
        DropReason::NoSubscriptionId
    ));
}

#[test]
fn hold_buffers_are_bounded() {
    let mut actor = Actor::new(3, 2, true);
    receive(&mut actor, 2, update(1));
    receive(&mut actor, 4, update(1));
    actor.take_events();
    receive(&mut actor, 6, update(1));
    assert!(dropped_for(
        &actor.take_events(),
        DropReason::BufferFullSubscription
    ));
    receive(&mut actor, 8, update(2));
    actor.take_events();
    receive(&mut actor, 10, update(2));
    assert!(dropped_for(&actor.take_events(), DropReason::BufferFullPeer));
    // What was held comes out in order, and makes room.
    actor.process_cache_response(found(SubscriptionInfo::new_empty(ip(1), 1)), Some("schema"));
    let events = actor.take_events();
    assert!(events
        .iter()
        .any(|e| e.instrument == Instrument::Buffered && e.value == 1));
    assert!(events
        .iter()
        .any(|e| e.instrument == Instrument::Pending && e.value == 2));
    assert!(events
        .iter()
        .any(|e| e.instrument == Instrument::CachedPeers && e.value == 1));
    assert!(events
        .iter()
        .any(|e| e.instrument == Instrument::CachedSubscriptions && e.value == 2));
    assert_eq!(ids(&drain(&mut actor)), vec![2, 4]);
    actor.take_events();
    receive(&mut actor, 12, update(2));
    assert!(has(&actor.take_events(), Instrument::Buffered));
}

#[test]
fn publishers_are_told_apart_by_address() {
    let mut actor = Actor::new(1000, 100, true);
    receive(&mut actor, 2, update(1));
    let mut outcome = Outcome::default();
    let other = PeerAddress {
        ip: PeerIp::v6(0x7f00_0001),
        port: 0,
    };
    process(
        &mut actor,
        message_from(other, 4),
        Some(decoded(4, update(1))),
        false,
        &mut outcome,
    );
    assert_eq!(outcome.lookups.len(), 1);
    // A response for one leaves the other waiting.
    actor.process_cache_response(not_found(SubscriptionInfo::new_empty(ip(1), 1)), None);
    assert_eq!(ids(&drain(&mut actor)), vec![2]);
}

#[test]
fn response_that_nobody_waits_for_is_ignored() {
    let mut actor = Actor::new(1000, 100, true);
    let response = found(info_of(FIRST, 1));
    assert_eq!(actor.schema_to_load(&response), None);
    actor.process_cache_response(response, Some("schema"));
    receive(&mut actor, 2, update(2));
    actor.take_events();
    actor.process_cache_response(found(info_of(FIRST, 1)), Some("schema"));
    assert!(actor.take_events().is_empty());
    assert!(drain(&mut actor).forwarded.is_empty());
}

#[test]
fn decoded_packets_are_counted_once() {
    let mut actor = Actor::new(1000, 100, true);
    receive(&mut actor, 2, update(1));
    assert!(has(&actor.take_events(), Instrument::Decoded));
    actor.process_cache_response(not_found(SubscriptionInfo::new_empty(ip(1), 1)), None);
    assert!(has(&actor.take_events(), Instrument::BufferDrained));
    drain(&mut actor);
    assert!(!has(&actor.take_events(), Instrument::Decoded));
}

#[test]
fn failures_to_send_end_the_actor() {
    let mut actor = Actor::new(1000, 100, true);
    match actor.process_udp_notif_msg(message(2), Some(decoded(2, update(1))), false) {
        Step::Lookup(_, pending) => assert_eq!(
            actor.lookup_sent(pending, false),
            Err(ValidationActorError::CacheLookupSendError)
        ),
        _ => panic!("a lookup should be due"),
    }
    actor.process_cache_response(not_found(SubscriptionInfo::new_empty(ip(1), 1)), None);
    actor.take_events();
    match actor.process_udp_notif_msg(message(4), Some(decoded(4, update(1))), false) {
        Step::Forward(_, pending) => assert_eq!(
            actor.forwarded(pending, false),
            Err(ValidationActorError::SendError)
        ),
        _ => panic!("the packet should be forwarded"),
    }
    assert!(dropped_for(&actor.take_events(), DropReason::SendError));
}

fn exit_text(event: RunEvent<&'static str>) -> String {
    match Actor::new(1, 1, true).run_step(event) {
        RunAction::Exit(text) => text,
        _ => panic!("the actor should end"),
    }
}

#[test]
fn actor_says_why_it_ends() {
    assert_eq!(
        exit_text(RunEvent::Command(Some(ValidationActorCommand::Shutdown))),
        "Enrichment shutdown successfully"
    );
    assert_eq!(
        exit_text(RunEvent::Command(None)),
        "YANG-Push validation actor terminated due to command channel closing"
    );
    assert_eq!(
        exit_text(RunEvent::CacheResponse(None)),
        "YANG-Push validation actor cache receiver channel closed unexpectedly, shutting down"
    );
    assert_eq!(
        exit_text(RunEvent::Packet(None)),
        "YANG-Push validation actor UDP Notif receiver channel closed unexpectedly, shutting down"
    );
    assert_eq!(
        exit_text(RunEvent::PacketFailed {
            is_reprocessed: true
        }),
        "YANG-Push validation actor buffered packet processing unrecoverable error, shutting down"
    );
    assert_eq!(
        exit_text(RunEvent::PacketFailed {
            is_reprocessed: false
        }),
        "YANG-Push validation actor UDP-Notif processing unrecoverable error, shutting down"
    );
}

#[test]
fn received_packets_are_counted_and_processed() {
    let mut actor = Actor::new(1, 1, true);
    match actor.run_step(RunEvent::Packet(Some(message(3)))) {
        RunAction::Process {
            message,
            is_reprocessed,
        } => {
            assert_eq!(message.packet.message_id, 3);
            assert!(!is_reprocessed);
        }
        _ => panic!("the packet should be processed"),
    }
    let events = actor.take_events();
    assert_eq!(events.len(), 1);
    assert_eq!(events[0].instrument, Instrument::Received);
    assert!(matches!(actor.run_step(RunEvent::Queue), RunAction::Wait));
    assert!(matches!(
        actor.run_step(RunEvent::CacheResponse(Some((
            not_found(SubscriptionInfo::new_empty(ip(1), 1)),
            None
        )))),
        RunAction::Wait
    ));
}

#[test]
fn errors_have_their_messages() {
    assert_eq!(
        ValidationActorError::CacheLookupSendError.message(),
        "Failed to send cache lookup command"
    );
    assert_eq!(
        ValidationActorError::CacheResponseReceiveError.message(),
        "Failed to receive cache response"
    );
    assert_eq!(
        ValidationActorError::SendError.message(),
        "Failed to send the decoded UDP-Notif packet"
    );
    assert_eq!(
        ValidationActorHandleError::SendErr.message(),
        "Failed to send command to actor"
    );
}

#[test]
fn announced_subscription_is_described() {
    let info = info_of(FIRST, 1);
    assert_eq!(info.peer_ip, ip(1));
    assert_eq!(info.id, 1);
    assert_eq!(info.content_id, "test-content-id-1");
    let names: Vec<&str> = info.models.iter().map(|m| m.name.as_str()).collect();
    assert_eq!(
        names,
        vec!["ietf-interfaces", "ietf-subscribed-notifications"]
    );
    let mut bare = started(1, FIRST);
    bare.yang_library_content_id = None;
    let info = build_subscription_info(ip(1), &bare, &Some("/x:y".to_string())).unwrap();
    assert_eq!(info.content_id, "");
    assert_eq!(info.target.datastore_xpath_filter.as_deref(), Some("/x:y"));
    bare.module_version = None;
    assert!(build_subscription_info(ip(1), &bare, &None).is_none());
}

#[test]
fn test_normalize_json_target_xpath_noop_without_xpath_filter() {
    let mut target =
        Target::new_stream("NETCONF".to_string(), None, Some("null".to_string()));
    let before = target.clone();
    normalize_json_target_xpath(&mut target, &Some("/x:y".to_string()));
    assert_eq!(target, before);
}

#[test]
fn filter_takes_its_canonical_form() {
    let mut target = Target::new_datastore(
        "ietf-datastores:operational".to_string(),
        "/ietf-interfaces:interfaces/ietf-interfaces:interface".to_string(),
    );
    let canonical = Some("/ietf-interfaces:interfaces/interface".to_string());
    normalize_json_target_xpath(&mut target, &canonical);
    assert_eq!(target.datastore_xpath_filter, canonical);
    assert_eq!(
        target.datastore.as_deref(),
        Some("ietf-datastores:operational")
    );
    let once = target.clone();
    normalize_json_target_xpath(&mut target, &canonical);
    assert_eq!(target, once);
}

#[test]
fn filter_without_canonical_form_is_kept() {
    let mut target = Target::new_datastore("ds".to_string(), "count(/a)".to_string());
    normalize_json_target_xpath(&mut target, &None);
    assert_eq!(target.datastore_xpath_filter.as_deref(), Some("count(/a)"));
}
