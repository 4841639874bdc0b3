use yang_push::device_fetch::{DeviceFetch, FetchAction, FetchError, FetchEvent};
use yang_push::fetcher::{
    requested_module_names, resolve_by_namespaces, resolve_by_xpath, select_target_modules,
    YangLibraryCacheError,
};
use yang_push::filters::{
    DatastoreFilterSpec, DatastoreSelectionFilterObjects, DatastoreXPathFilter, Selection,
    StreamSelectionFilterObjects, YangPushSubscription,
};
use yang_push::notification::SessionInfo;
use yang_push::subscription::{
    PeerAddress, PeerIp, SubscriptionInfo, Target, YangPushModuleVersion,
};
use yang_push::yanglib::{Datastore, DatastoreName, Module, ModuleSet, Schema, YangLibrary};

fn localhost() -> PeerIp {
    PeerIp::v4(0x7f00_0001)
}

fn empty_info() -> SubscriptionInfo {
    SubscriptionInfo::new_empty(localhost(), 1)
}

fn module(name: &str, revision: Option<&str>, namespace: &str) -> Module {
    Module {
        name: name.to_string(),
        revision: revision.map(|r| r.to_string()),
        namespace: namespace.to_string(),
    }
}

fn bindings(items: &[(&str, &str)]) -> Vec<(String, String)> {
    items
        .iter()
        .map(|(p, ns)| (p.to_string(), ns.to_string()))
        .collect()
}

/// A single-datastore, single-module-set YANG Library fixture.
/// `modules` are `(name, namespace)` pairs.
fn make_yang_library(ds_name: DatastoreName, modules: &[(&str, &str)]) -> YangLibrary {
    YangLibrary {
        content_id: "test-content-id".to_string(),
        module_sets: vec![ModuleSet {
            name: "modules".to_string(),
            modules: modules
                .iter()
                .map(|(name, ns)| module(name, None, ns))
                .collect(),
        }],
        schemas: vec![Schema {
            name: "schema".to_string(),
            module_sets: vec!["modules".to_string()],
        }],
        datastores: vec![Datastore {
            name: ds_name,
            schema: "schema".to_string(),
        }],
    }
}

fn xpath_filter(namespaces: &[(&str, &str)], path: &str) -> DatastoreXPathFilter {
    DatastoreXPathFilter {
        namespaces: bindings(namespaces),
        path: path.to_string(),
    }
}

/// Two datastores, each with its own schema/module-set pinning a
/// different revision of the same module name.
fn make_multi_datastore_yang_library() -> YangLibrary {
    let set = |name: &str, revision: &str| ModuleSet {
        name: name.to_string(),
        modules: vec![module("foo-mod", Some(revision), "urn:example:foo")],
    };
    let schema = |name: &str, set: &str| Schema {
        name: name.to_string(),
        module_sets: vec![set.to_string()],
    };
    YangLibrary {
        content_id: "test-content-id".to_string(),
        module_sets: vec![
            set("operational-set", "2020-01-01"),
            set("running-set", "2023-01-01"),
        ],
        schemas: vec![
            schema("op-schema", "operational-set"),
            schema("run-schema", "running-set"),
        ],
        datastores: vec![
            Datastore {
                name: DatastoreName::Operational,
                schema: "op-schema".to_string(),
            },
            Datastore {
                name: DatastoreName::Running,
                schema: "run-schema".to_string(),
            },
        ],
    }
}

#[test]
fn test_resolve_by_namespaces_resolves_each_namespace_to_a_module() {
    let yang_lib = make_yang_library(
        DatastoreName::Running,
        &[("if-mod", "urn:example:interfaces")],
    );
    let namespaces = bindings(&[("if", "urn:example:interfaces")]);

    let result = resolve_by_namespaces(
        &yang_lib,
        &DatastoreName::Running,
        &namespaces,
        &empty_info(),
    )
    .expect("namespace should resolve to a module");

    assert_eq!(result.len(), 1);
    assert_eq!(result[0].name, "if-mod");
}

#[test]
fn test_resolve_by_namespaces_dedups_same_module_seen_twice() {
    let yang_lib = make_yang_library(
        DatastoreName::Running,
        &[("if-mod", "urn:example:interfaces")],
    );
    let namespaces = bindings(&[
        ("a", "urn:example:interfaces"),
        ("b", "urn:example:interfaces"),
    ]);

    let result = resolve_by_namespaces(
        &yang_lib,
        &DatastoreName::Running,
        &namespaces,
        &empty_info(),
    )
    .expect("namespaces should resolve");

    assert_eq!(result.len(), 1);
    assert_eq!(result[0].name, "if-mod");
}

#[test]
fn test_resolve_by_namespaces_unknown_namespace_is_a_hard_error() {
    let yang_lib = make_yang_library(DatastoreName::Running, &[]);
    let namespaces = bindings(&[("if", "urn:example:unknown")]);

    let err = resolve_by_namespaces(
        &yang_lib,
        &DatastoreName::Running,
        &namespaces,
        &empty_info(),
    )
    .expect_err("unknown namespace must not resolve");

    assert!(matches!(
        err.1,
        YangLibraryCacheError::ModuleNamespaceNotFound { .. }
    ));
}

/// Cisco IOS-XR style: no `xmlns` binding declared, prefix equals the
/// YANG module name directly (RFC 8641 base XPath context).
#[test]
fn test_resolve_by_xpath_falls_back_to_module_name_when_undeclared() {
    let yang_lib = make_yang_library(
        DatastoreName::Running,
        &[(
            "Cisco-IOS-XR-procmem-oper",
            "urn:cisco:params:xml:ns:yang:procmem-oper",
        )],
    );
    let filter = xpath_filter(
        &[],
        "/Cisco-IOS-XR-procmem-oper:processes-memory/nodes/node",
    );

    let result = resolve_by_xpath(&yang_lib, &DatastoreName::Running, &filter, &empty_info())
        .expect("undeclared prefix should resolve as a module name");

    assert_eq!(result.len(), 1);
    assert_eq!(result[0].name, "Cisco-IOS-XR-procmem-oper");
}

/// The module-name fallback must scope its lookup to the target datastore.
#[test]
fn test_resolve_by_xpath_module_name_fallback_is_scoped_by_datastore() {
    let yang_lib = make_multi_datastore_yang_library();
    let filter = xpath_filter(&[], "/foo-mod:thing");

    let result = resolve_by_xpath(&yang_lib, &DatastoreName::Running, &filter, &empty_info())
        .expect("module name should resolve within the running datastore");

    assert_eq!(result.len(), 1);
    assert_eq!(result[0].name, "foo-mod");
    assert_eq!(result[0].revision.as_deref(), Some("2023-01-01"));
}

/// Huawei style: `xmlns` binding declared on the filter takes precedence
/// over treating the prefix as a module name.
#[test]
fn test_resolve_by_xpath_prefers_declared_namespace_binding() {
    let yang_lib = make_yang_library(
        DatastoreName::Running,
        &[("huawei-devm", "urn:huawei:yang:huawei-devm")],
    );
    let filter = xpath_filter(
        &[("devm", "urn:huawei:yang:huawei-devm")],
        "/devm:devm/devm:chassis",
    );

    let result = resolve_by_xpath(&yang_lib, &DatastoreName::Running, &filter, &empty_info())
        .expect("declared xmlns binding should resolve the module");

    assert_eq!(result.len(), 1);
    assert_eq!(result[0].name, "huawei-devm");
}

#[test]
fn test_resolve_by_xpath_multiple_distinct_prefixes_resolve_independently() {
    let yang_lib = make_yang_library(
        DatastoreName::Running,
        &[
            ("if-mod", "urn:example:interfaces"),
            ("rt-mod", "urn:example:routing"),
        ],
    );
    let filter = xpath_filter(
        &[
            ("if", "urn:example:interfaces"),
            ("rt", "urn:example:routing"),
        ],
        "/if:interfaces/if:interface | /rt:routing/rt:ribs",
    );

    let mut result = resolve_by_xpath(&yang_lib, &DatastoreName::Running, &filter, &empty_info())
        .expect("both prefixes should resolve")
        .into_iter()
        .map(|m| m.name.to_string())
        .collect::<Vec<_>>();
    result.sort_unstable();

    assert_eq!(result, vec!["if-mod", "rt-mod"]);
}

#[test]
fn test_resolve_by_xpath_declared_namespace_not_in_library_is_a_hard_error() {
    let yang_lib = make_yang_library(DatastoreName::Running, &[]);
    let filter = xpath_filter(&[("devm", "urn:huawei:yang:huawei-devm")], "/devm:devm");

    let err = resolve_by_xpath(&yang_lib, &DatastoreName::Running, &filter, &empty_info())
        .expect_err("declared namespace missing from library must fail");

    assert!(matches!(
        err.1,
        YangLibraryCacheError::ModuleNamespaceNotFound { .. }
    ));
}

#[test]
fn test_resolve_by_xpath_undeclared_prefix_not_a_module_name_is_a_hard_error() {
    let yang_lib = make_yang_library(DatastoreName::Running, &[]);
    let filter = xpath_filter(&[], "/bogus:interfaces");

    let err = resolve_by_xpath(&yang_lib, &DatastoreName::Running, &filter, &empty_info())
        .expect_err("prefix with no binding and no matching module must fail");

    assert!(matches!(
        err.1,
        YangLibraryCacheError::ModulePrefixNotFound(ref p) if p == "bogus"
    ));
}

#[test]
fn literal_prefix_counts_only_where_it_is_bound() {
    let path = "/if:interfaces/if:interface[if:type='ianaift:gpon']";
    let unbound = xpath_filter(&[("if", "urn:if")], path);
    assert_eq!(unbound.path_prefixes(), vec!["if"]);
    let bound = xpath_filter(&[("if", "urn:if"), ("ianaift", "urn:ift")], path);
    assert_eq!(bound.path_prefixes(), vec!["if", "ianaift"]);
}

#[test]
fn last_binding_of_a_prefix_counts() {
    let yang_lib = make_yang_library(
        DatastoreName::Running,
        &[("first", "urn:first"), ("second", "urn:second")],
    );
    let filter = xpath_filter(&[("p", "urn:first"), ("p", "urn:second")], "/p:x");
    let result =
        resolve_by_xpath(&yang_lib, &DatastoreName::Running, &filter, &empty_info()).unwrap();
    assert_eq!(result[0].name, "second");
}

#[test]
fn datastore_that_the_library_lacks_has_no_modules() {
    let yang_lib = make_yang_library(DatastoreName::Running, &[("m", "urn:m")]);
    let err = resolve_by_namespaces(
        &yang_lib,
        &DatastoreName::Other("factory-default".to_string()),
        &bindings(&[("m", "urn:m")]),
        &empty_info(),
    )
    .unwrap_err();
    assert_eq!(
        err.1,
        YangLibraryCacheError::ModuleNamespaceNotFound {
            namespace: "urn:m".to_string(),
            datastore: DatastoreName::Other("factory-default".to_string()),
        }
    );
    assert_eq!(err.0, empty_info());
}

fn told(module_version: Option<Vec<YangPushModuleVersion>>, selection: Selection) -> YangPushSubscription {
    YangPushSubscription {
        module_version,
        selection,
        target: Ok(Target::new_datastore(
            "ietf-datastores:running".to_string(),
            "/m:x".to_string(),
        )),
        stop_time: None,
        transport: Some("udp-notif".to_string()),
        encoding: Some("encode-json".to_string()),
        purpose: None,
        update_trigger: None,
    }
}

fn version(name: &str) -> YangPushModuleVersion {
    YangPushModuleVersion::new(name.to_string(), None, None)
}

fn xpath_selection(path: &str) -> Selection {
    Selection::Datastore {
        datastore: DatastoreName::Running,
        filter: DatastoreSelectionFilterObjects::WithInSubscription(DatastoreFilterSpec::Xpath(
            xpath_filter(&[], path),
        )),
    }
}

#[test]
fn told_modules_are_taken_as_they_are() {
    let lib = make_yang_library(DatastoreName::Running, &[]);
    let modules = vec![version("a"), version("a")];
    let got = select_target_modules(
        &lib,
        1,
        &told(Some(modules), xpath_selection("/bogus:x")),
        &empty_info(),
    )
    .unwrap();
    assert_eq!(got, vec![version("a"), version("a")]);
}

#[test]
fn each_selection_finds_its_modules() {
    let lib = make_yang_library(DatastoreName::Running, &[("m", "urn:m")]);
    let selections = [
        xpath_selection("/m:x"),
        Selection::Datastore {
            datastore: DatastoreName::Running,
            filter: DatastoreSelectionFilterObjects::WithInSubscription(
                DatastoreFilterSpec::Subtree(bindings(&[("", "urn:m")])),
            ),
        },
        Selection::Stream(StreamSelectionFilterObjects::WithInSubscription(bindings(
            &[("q", "urn:m")],
        ))),
    ];
    for selection in selections {
        let got = select_target_modules(&lib, 1, &told(None, selection), &empty_info()).unwrap();
        assert_eq!(got, vec![version("m")]);
    }
}

#[test]
fn filter_by_reference_is_an_error() {
    let lib = make_yang_library(DatastoreName::Running, &[]);
    for selection in [
        Selection::Stream(StreamSelectionFilterObjects::ByReference("f".to_string())),
        Selection::Datastore {
            datastore: DatastoreName::Running,
            filter: DatastoreSelectionFilterObjects::ByReference("f".to_string()),
        },
    ] {
        let err =
            select_target_modules(&lib, 1, &told(None, selection), &empty_info()).unwrap_err();
        assert_eq!(
            err.1,
            YangLibraryCacheError::UnresolvedFilterReference("f".to_string())
        );
    }
}

#[test]
fn filter_without_modules_is_an_error() {
    let lib = make_yang_library(DatastoreName::Running, &[("m", "urn:m")]);
    let err = select_target_modules(&lib, 7, &told(None, xpath_selection("/x/y")), &empty_info())
        .unwrap_err();
    assert_eq!(
        err.1,
        YangLibraryCacheError::NoTargetModulesResolved {
            subscription_id: 7,
            datastore: DatastoreName::Running,
        }
    );
}

#[test]
fn notifications_module_is_asked_for_once() {
    assert_eq!(
        requested_module_names(&vec![version("a")]),
        vec!["a", "ietf-subscribed-notifications"]
    );
    assert_eq!(
        requested_module_names(&vec![version("ietf-subscribed-notifications"), version("a")]),
        vec!["ietf-subscribed-notifications", "a"]
    );
}

fn session() -> SessionInfo {
    SessionInfo {
        collector: PeerAddress {
            ip: localhost(),
            port: 10000,
        },
        interface: Some("mgmt".to_string()),
        peer: PeerAddress {
            ip: localhost(),
            port: 5000,
        },
    }
}

type Event = FetchEvent<&'static str>;

#[test]
fn fetch_by_id_asks_one_thing_after_the_other() {
    let (fetch, address) = DeviceFetch::fetch_from_device_by_id(&session(), 7, 830);
    assert_eq!(
        address.host,
        PeerAddress {
            ip: localhost(),
            port: 830
        }
    );
    assert_eq!(address.interface.as_deref(), Some("mgmt"));
    let (fetch, action) = fetch.step(Event::Connected(Ok(())));
    assert!(matches!(action, FetchAction::GetSubscription(7)));
    let (fetch, action) = fetch.step(Event::Subscription(Ok(told(None, xpath_selection("/m:x")))));
    assert!(matches!(action, FetchAction::GetLibrary));
    let lib = make_yang_library(DatastoreName::Running, &[("m", "urn:m")]);
    let (fetch, action) = fetch.step(Event::Library(Ok(lib)));
    match action {
        FetchAction::Load(names) => {
            assert_eq!(names, vec!["m", "ietf-subscribed-notifications"])
        }
        _ => panic!("modules should be loaded"),
    }
    let (fetch, action) = fetch.step(Event::Loaded(Ok(())));
    assert!(matches!(action, FetchAction::Close));
    let (_, action) = fetch.step(Event::Closed);
    match action {
        FetchAction::Done(Ok(info)) => {
            assert_eq!(info.id, 7);
            assert_eq!(info.peer_ip, localhost());
            assert_eq!(info.models, vec![version("m")]);
            assert_eq!(info.content_id, "test-content-id");
            assert_eq!(info.encoding.as_deref(), Some("encode-json"));
        }
        _ => panic!("the fetch should succeed"),
    }
}

#[test]
fn fetch_by_id_reports_a_target_that_makes_no_sense() {
    let (fetch, _) = DeviceFetch::fetch_from_device_by_id(&session(), 7, 830);
    let (fetch, _) = fetch.step(Event::Connected(Ok(())));
    let mut subscription = told(Some(vec![version("m")]), xpath_selection("/m:x"));
    subscription.target = Err("no target".to_string());
    let (fetch, _) = fetch.step(Event::Subscription(Ok(subscription)));
    let lib = make_yang_library(DatastoreName::Running, &[]);
    let (fetch, _) = fetch.step(Event::Library(Ok(lib)));
    let (fetch, _) = fetch.step(Event::Loaded(Ok(())));
    let (_, action) = fetch.step(Event::Closed);
    match action {
        FetchAction::Done(Err(failure)) => {
            assert_eq!(failure.0, SubscriptionInfo::new_empty(localhost(), 7));
            assert_eq!(
                failure.1,
                FetchError::Library(YangLibraryCacheError::InvalidSubscriptionTarget(
                    "no target".to_string()
                ))
            );
        }
        _ => panic!("the fetch should fail"),
    }
}

#[test]
fn fetch_fails_where_the_device_does() {
    let (fetch, _) = DeviceFetch::fetch_from_device_by_id(&session(), 7, 830);
    let (_, action) = fetch.step(Event::Connected(Err("unreachable")));
    match action {
        FetchAction::Done(Err(failure)) => {
            assert_eq!(failure.0, SubscriptionInfo::new_empty(localhost(), 7));
            assert_eq!(failure.1, FetchError::Device("unreachable"));
        }
        _ => panic!("the fetch should fail"),
    }
}

#[test]
fn fetch_by_info_loads_the_named_modules() {
    let mut info = empty_info();
    info.models = vec![version("a"), version("b")];
    let (fetch, address) = DeviceFetch::fetch_from_device(info.clone(), &session(), 830);
    assert_eq!(address.host.port, 830);
    let (fetch, action) = fetch.step(Event::Connected(Ok(())));
    match action {
        FetchAction::Load(names) => assert_eq!(names, vec!["a", "b"]),
        _ => panic!("modules should be loaded"),
    }
    let (fetch, action) = fetch.step(Event::Loaded(Ok(())));
    assert!(matches!(action, FetchAction::Close));
    let (_, action) = fetch.step(Event::Closed);
    match action {
        FetchAction::Done(Ok(done)) => assert_eq!(done, info),
        _ => panic!("the fetch should succeed"),
    }
}
