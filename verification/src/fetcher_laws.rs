//! What holds of fetching as a whole.

use crate::device_fetch;
use crate::device_fetch::{ActionView, FetchEvent, FetchView, PhaseView};
use crate::fetcher;
use crate::fetcher::ErrorView;
use crate::filters;
use crate::filters::{
    Binding, DatastoreFilterSpec, DatastoreSelectionFilterObjects, Selection,
    StreamSelectionFilterObjects, YangPushSubscription,
};
use crate::identity_laws;
use crate::library_laws;
use crate::subscription::{InfoView, ModuleVersionView, SubscriptionId};
use crate::text;
use crate::xpath;
use crate::yanglib;
use crate::yanglib::{DatastoreView, LibraryView, ModuleView, ReferenceView, YangLibrary};
use vstd::prelude::*;

verus! {

/// Whether no two modules of the list have one name.
pub open spec fn distinct_names(modules: Seq<ModuleVersionView>) -> bool {
    forall|i: int, j: int|
        0 <= i < j < modules.len() ==> (#[trigger] modules[i]).name != (#[trigger] modules[j]).name
}

/// No module is resolved twice, however often it is referred to.
pub proof fn law_resolved_modules_are_distinct(
    library: LibraryView,
    datastore: DatastoreView,
    references: Seq<ReferenceView>,
)
    ensures
        fetcher::resolved(library, datastore, references) matches Ok(modules) ==> distinct_names(
            modules,
        ),
    decreases references.len(),
{
    if references.len() > 0 {
        law_resolved_modules_are_distinct(library, datastore, references.drop_last());
    }
}

/// References resolve if and only if each of them is to a module of the
/// datastore. Then each of those is in the list by its name, and nothing else
/// is in the list. Otherwise it is the first reference to no module that is
/// reported.
pub proof fn law_resolution_is_complete(
    library: LibraryView,
    datastore: DatastoreView,
    references: Seq<ReferenceView>,
)
    ensures
        match fetcher::resolved(library, datastore, references) {
            Ok(modules) => {
                &&& forall|i: int|
                    0 <= i < references.len() ==> (library.lookup(
                        datastore,
                        #[trigger] references[i],
                    ) matches Some(m) && fetcher::named(modules, m.name))
                &&& forall|k: int|
                    0 <= k < modules.len() ==> exists|i: int|
                        0 <= i < references.len() && (library.lookup(
                            datastore,
                            #[trigger] references[i],
                        ) matches Some(m) && #[trigger] modules[k] == (ModuleVersionView {
                            name: m.name,
                            revision: m.revision,
                            version: None,
                        }))
            },
            Err(reference) => exists|i: int|
                {
                    &&& 0 <= i < references.len()
                    &&& #[trigger] references[i] == reference
                    &&& library.lookup(datastore, reference) is None
                    &&& forall|j: int|
                        0 <= j < i ==> library.lookup(
                            datastore,
                            #[trigger] references[j],
                        ) is Some
                },
        },
    decreases references.len(),
{
    if references.len() > 0 {
        let front = references.drop_last();
        law_resolution_is_complete(library, datastore, front);
        let n = front.len() as int;
        match fetcher::resolved(library, datastore, front) {
            Err(reference) => {
                let i = choose|i: int|
                    {
                        &&& 0 <= i < front.len()
                        &&& #[trigger] front[i] == reference
                        &&& library.lookup(datastore, reference) is None
                        &&& forall|j: int|
                            0 <= j < i ==> library.lookup(datastore, #[trigger] front[j]) is Some
                    };
                assert(references[i] == reference);
                assert forall|j: int| 0 <= j < i implies library.lookup(
                    datastore,
                    #[trigger] references[j],
                ) is Some by {
                    assert(front[j] == references[j]);
                }
            },
            Ok(before) => {
                match library.lookup(datastore, references.last()) {
                    None => {
                        assert(references[n] == references.last());
                        assert forall|j: int| 0 <= j < n implies library.lookup(
                            datastore,
                            #[trigger] references[j],
                        ) is Some by {
                            assert(front[j] == references[j]);
                        }
                    },
                    Some(module) => {
                        let after = fetcher::add_module(before, module);
                        assert forall|i: int| 0 <= i < references.len() implies (library.lookup(
                            datastore,
                            #[trigger] references[i],
                        ) matches Some(m) && fetcher::named(after, m.name)) by {
                            if i < n {
                                assert(front[i] == references[i]);
                                let m = library.lookup(datastore, front[i])->0;
                                let k = choose|k: int|
                                    0 <= k < before.len() && (#[trigger] before[k]).name == m.name;
                                assert(after[k] == before[k]);
                            } else if !fetcher::named(before, module.name) {
                                assert(after[before.len() as int].name == module.name);
                            }
                        }
                        assert forall|k: int| 0 <= k < after.len() implies exists|i: int|
                            0 <= i < references.len() && (library.lookup(
                                datastore,
                                #[trigger] references[i],
                            ) matches Some(m) && #[trigger] after[k] == (ModuleVersionView {
                                name: m.name,
                                revision: m.revision,
                                version: None,
                            })) by {
                            if k < before.len() {
                                assert(after[k] == before[k]);
                                let i = choose|i: int|
                                    0 <= i < front.len() && (library.lookup(
                                        datastore,
                                        #[trigger] front[i],
                                    ) matches Some(m) && #[trigger] before[k] == (
                                    ModuleVersionView {
                                        name: m.name,
                                        revision: m.revision,
                                        version: None,
                                    }));
                                assert(front[i] == references[i]);
                            } else {
                                assert(references[n] == references.last());
                            }
                        }
                    },
                }
            },
        }
    }
}

proof fn lemma_first_module(modules: Seq<ModuleView>, reference: ReferenceView, i: int)
    requires
        0 <= i <= modules.len(),
    ensures
        match yanglib::first_module(modules, reference, i) {
            Some(m) => reference.refers_to(m) && modules.contains(m),
            None => forall|k: int| i <= k < modules.len() ==> !reference.refers_to(
                #[trigger] modules[k],
            ),
        },
    decreases modules.len() - i,
{
    if i < modules.len() {
        if reference.refers_to(modules[i]) {
            assert(modules.contains(modules[i]));
        } else {
            lemma_first_module(modules, reference, i + 1);
        }
    }
}

/// A reference is looked up among the modules of its datastore, and in no
/// other: what is found is one of those, and nothing is found only where the
/// reference is to none of those.
pub proof fn law_lookup_is_scoped(
    library: LibraryView,
    datastore: DatastoreView,
    reference: ReferenceView,
)
    ensures
        match library.lookup(datastore, reference) {
            Some(m) => reference.refers_to(m) && library.modules_of(datastore).contains(m),
            None => forall|k: int|
                0 <= k < library.modules_of(datastore).len() ==> !reference.refers_to(
                    #[trigger] library.modules_of(datastore)[k],
                ),
        },
{
    lemma_first_module(library.modules_of(datastore), reference, 0);
}

/// A prefix that is bound stands for its namespace, even where it is also the
/// name of a module; one that is not bound stands for the module of that name.
/// Of several bindings the last counts.
pub proof fn law_binding_takes_precedence(
    bindings: Seq<(Seq<char>, Seq<char>)>,
    prefix: Seq<char>,
)
    ensures
        forall|i: int|
            0 <= i < bindings.len() && (#[trigger] bindings[i]).0 == prefix && (forall|j: int|
                i < j < bindings.len() ==> (#[trigger] bindings[j]).0 != prefix)
                ==> fetcher::prefix_reference(bindings, prefix) == ReferenceView::Namespace(
                bindings[i].1,
            ),
        (forall|i: int| 0 <= i < bindings.len() ==> (#[trigger] bindings[i]).0 != prefix)
            ==> fetcher::prefix_reference(bindings, prefix) == ReferenceView::Name(prefix),
    decreases bindings.len(),
{
    if bindings.len() > 0 {
        let front = bindings.drop_last();
        law_binding_takes_precedence(front, prefix);
        assert(bindings.last() == bindings[bindings.len() - 1]);
        if bindings.last().0 != prefix {
            assert(fetcher::prefix_reference(bindings, prefix) == fetcher::prefix_reference(
                front,
                prefix,
            ));
            assert forall|i: int|
                0 <= i < bindings.len() && (#[trigger] bindings[i]).0 == prefix && (forall|j: int|
                    i < j < bindings.len() ==> (#[trigger] bindings[j]).0
                        != prefix) implies fetcher::prefix_reference(bindings, prefix)
                == ReferenceView::Namespace(bindings[i].1) by {
                assert(front[i] == bindings[i]);
                assert forall|j: int| i < j < front.len() implies (#[trigger] front[j]).0
                    != prefix by {
                    assert(front[j] == bindings[j]);
                }
            }
            if forall|i: int| 0 <= i < bindings.len() ==> (#[trigger] bindings[i]).0 != prefix {
                assert forall|i: int| 0 <= i < front.len() implies (#[trigger] front[i]).0
                    != prefix by {
                    assert(front[i] == bindings[i]);
                }
            }
        }
    }
}

/// The names of modules are told module by module.
pub proof fn law_names_of_modules(modules: Seq<ModuleVersionView>)
    ensures
        fetcher::module_names(modules).len() == modules.len(),
        forall|i: int|
            0 <= i < modules.len() ==> #[trigger] fetcher::module_names(modules)[i]
                == modules[i].name,
{
}

/// A device is asked for every module that the subscription is about, and for
/// the module that notifications are made of, and for nothing else.
pub proof fn law_requested_names(modules: Seq<ModuleVersionView>, own: Seq<char>)
    ensures
        text::add_unique(fetcher::module_names(modules), own).contains(own),
        forall|i: int|
            0 <= i < modules.len() ==> text::add_unique(
                fetcher::module_names(modules),
                own,
            ).contains((#[trigger] modules[i]).name),
        forall|k: int|
            0 <= k < text::add_unique(fetcher::module_names(modules), own).len() ==> (
            #[trigger] text::add_unique(fetcher::module_names(modules), own)[k] == own
                || fetcher::named(
                modules,
                text::add_unique(fetcher::module_names(modules), own)[k],
            )),
{
    let names = fetcher::module_names(modules);
    let asked = text::add_unique(names, own);
    if !names.contains(own) {
        assert(asked[names.len() as int] == own);
    }
    assert forall|i: int| 0 <= i < modules.len() implies asked.contains(
        (#[trigger] modules[i]).name,
    ) by {
        assert(asked[i] == modules[i].name);
    }
    assert forall|k: int| 0 <= k < asked.len() implies (#[trigger] asked[k] == own
        || fetcher::named(modules, asked[k])) by {
        if k < names.len() {
            assert(modules[k].name == asked[k]);
        }
    }
}

/// A fetch that fails, at whatever step, reports the subscription that it was
/// for.
pub proof fn law_failure_is_about_the_subscription<E>(fetch: FetchView, event: FetchEvent<E>)
    ensures
        device_fetch::advance(fetch, event).0.about == fetch.about,
        device_fetch::advance(fetch, event).1 matches ActionView::Done(Err((info, _))) ==> info
            == fetch.about,
{
}

/// How many steps a fetch has left at most.
pub open spec fn steps_left(fetch: FetchView) -> nat {
    match fetch.phase {
        PhaseView::Connecting { .. } => 5,
        PhaseView::AwaitingSubscription => 4,
        PhaseView::AwaitingLibrary(_) => 3,
        PhaseView::Loading(_) => 2,
        PhaseView::Closing(_) => 1,
        PhaseView::Over => 0,
    }
}

/// A fetch comes to its end: each step brings it closer, and it is over if and
/// only if it has said what came of it.
pub proof fn law_fetch_ends<E>(fetch: FetchView, event: FetchEvent<E>)
    requires
        device_fetch::expects(fetch, event),
    ensures
        steps_left(device_fetch::advance(fetch, event).0) < steps_left(fetch),
        (device_fetch::advance(fetch, event).1 is Done) == (device_fetch::advance(
            fetch,
            event,
        ).0.phase is Over),
{
}

/// Whether the subscription is what the device told of it: when it stops, how it
/// is carried and encoded, what it is for, and when it updates.
pub open spec fn told_of(told: YangPushSubscription, info: InfoView) -> bool {
    &&& identity_laws::same_text(told.stop_time, info.stop_time)
    &&& identity_laws::same_text(told.transport, info.transport)
    &&& identity_laws::same_text(told.encoding, info.encoding)
    &&& identity_laws::same_text(told.purpose, info.purpose)
    &&& identity_laws::same_text(told.update_trigger, info.update_trigger)
}

/// A fetch by id, all of whose questions are answered, ends with what the
/// device told of the subscription, the modules that it is about, and the
/// content id of the device's library; or with the reason why that makes no
/// subscription.
pub proof fn law_fetch_by_id<E>(
    about: InfoView,
    told: YangPushSubscription,
    library: YangLibrary,
)
    ensures
        ({
            let start = FetchView { about, phase: PhaseView::Connecting { by_id: true } };
            let (a, first) = device_fetch::advance(start, FetchEvent::<E>::Connected(Ok(())));
            let (b, second) = device_fetch::advance(a, FetchEvent::<E>::Subscription(Ok(told)));
            let (c, third) = device_fetch::advance(b, FetchEvent::<E>::Library(Ok(library)));
            let (d, fourth) = device_fetch::advance(c, FetchEvent::<E>::Loaded(Ok(())));
            let (e, last) = device_fetch::advance(d, FetchEvent::<E>::Closed);
            &&& first == ActionView::<E>::GetSubscription(about.id)
            &&& second == ActionView::<E>::GetLibrary
            &&& match fetcher::target_modules(library@, about.id, told) {
                Err(error) => third == device_fetch::fails::<E>(
                    start,
                    device_fetch::FetchErrorView::Library(error),
                ).1,
                Ok(modules) => {
                    &&& third == ActionView::<E>::Load(
                        text::add_unique(
                            fetcher::module_names(modules),
                            "ietf-subscribed-notifications"@,
                        ),
                    )
                    &&& fourth == ActionView::<E>::Close
                    &&& match told.target {
                        Err(why) => last == device_fetch::fails::<E>(
                            start,
                            device_fetch::FetchErrorView::Library(
                                ErrorView::InvalidSubscriptionTarget(why@),
                            ),
                        ).1,
                        Ok(target) => last matches ActionView::Done(Ok(info)) && info.peer_ip
                            == about.peer_ip && info.id == about.id && info.target == target@
                            && info.models == modules && info.content_id
                            == library@.content_id && told_of(told, info),
                    }
                },
            }
        }),
{
}

/// What the device cannot do ends the fetch, whenever it comes, and is reported
/// as it came, with the subscription that the fetch was for.
pub proof fn law_device_failures_are_reported<E>(fetch: FetchView, event: FetchEvent<E>, error: E)
    requires
        device_fetch::expects(fetch, event),
        event == FetchEvent::<E>::Connected(Err(error)) || event == FetchEvent::<E>::Subscription(
            Err(error),
        ) || event == FetchEvent::<E>::Library(Err(error)) || event == FetchEvent::<E>::Loaded(
            Err(error),
        ),
    ensures
        device_fetch::advance(fetch, event).0.phase is Over,
        device_fetch::advance(fetch, event).1 == ActionView::<E>::Done(
            Err((fetch.about, device_fetch::FetchErrorView::Device(error))),
        ),
{
}

/// A fetch waits for the answer to what it asked: for a session first, and for
/// nothing once it is over.
pub proof fn law_answers_are_awaited_in_turn<E>(
    fetch: FetchView,
    event: FetchEvent<E>,
    answer: FetchEvent<E>,
)
    requires
        device_fetch::expects(fetch, event),
    ensures
        ({
            let (after, action) = device_fetch::advance(fetch, event);
            &&& action is GetSubscription ==> device_fetch::expects(after, answer)
                == answer is Subscription
            &&& action is GetLibrary ==> device_fetch::expects(after, answer) == answer is Library
            &&& action is Load ==> device_fetch::expects(after, answer) == answer is Loaded
            &&& action is Close ==> device_fetch::expects(after, answer) == answer is Closed
            &&& action is Done ==> !device_fetch::expects(after, answer)
        }),
        forall|by_id: bool|
            device_fetch::expects(
                FetchView { about: fetch.about, phase: #[trigger] connecting(by_id) },
                answer,
            ) == answer is Connected,
{
}

/// A fetch that opens its session.
pub open spec fn connecting(by_id: bool) -> PhaseView {
    PhaseView::Connecting { by_id }
}

/// A fetch for a subscription of which all is known loads the modules that it
/// names, and ends with the subscription as it was.
pub proof fn law_fetch_by_info<E>(about: InfoView)
    ensures
        ({
            let start = FetchView { about, phase: PhaseView::Connecting { by_id: false } };
            let (a, first) = device_fetch::advance(start, FetchEvent::<E>::Connected(Ok(())));
            let (b, second) = device_fetch::advance(a, FetchEvent::<E>::Loaded(Ok(())));
            let (c, last) = device_fetch::advance(b, FetchEvent::<E>::Closed);
            &&& first == ActionView::<E>::Load(fetcher::module_names(about.models))
            &&& second == ActionView::<E>::Close
            &&& last == ActionView::<E>::Done(Ok(about))
        }),
{
}

/// A module as subscriptions tell it.
pub open spec fn version_of(module: ModuleView) -> ModuleVersionView {
    ModuleVersionView { name: module.name, revision: module.revision, version: None }
}

/// Whether the module is found by the reference, and by none before it that
/// finds one of its name.
pub open spec fn first_to_find(
    library: LibraryView,
    datastore: DatastoreView,
    references: Seq<ReferenceView>,
    i: int,
    module: ModuleVersionView,
) -> bool {
    &&& 0 <= i < references.len()
    &&& library.lookup(datastore, references[i]) matches Some(m)
    &&& version_of(m) == module
    &&& !finds_before(library, datastore, references, i, module.name)
}

/// Whether the module is found by one of the references.
pub open spec fn is_found(
    library: LibraryView,
    datastore: DatastoreView,
    references: Seq<ReferenceView>,
    module: ModuleVersionView,
) -> bool {
    exists|i: int| #[trigger] first_to_find(library, datastore, references, i, module)
}

/// Whether a reference before `n` finds a module of the name.
pub open spec fn finds_before(
    library: LibraryView,
    datastore: DatastoreView,
    references: Seq<ReferenceView>,
    n: int,
    name: Seq<char>,
) -> bool {
    exists|j: int|
        0 <= j < n && j < references.len() && finds(
            library,
            datastore,
            #[trigger] references[j],
            name,
        )
}

/// Whether the reference finds a module of the name.
pub open spec fn finds(
    library: LibraryView,
    datastore: DatastoreView,
    reference: ReferenceView,
    name: Seq<char>,
) -> bool {
    library.lookup(datastore, reference) matches Some(m) && m.name == name
}

/// The modules come in the order in which the references first find them, and
/// each as it is first found.
pub proof fn law_resolution_keeps_the_order(
    library: LibraryView,
    datastore: DatastoreView,
    references: Seq<ReferenceView>,
)
    ensures
        fetcher::resolved(library, datastore, references) matches Ok(modules) ==> {
            &&& forall|k: int|
                0 <= k < modules.len() ==> is_found(
                    library,
                    datastore,
                    references,
                    #[trigger] modules[k],
                )
            &&& forall|a: int, b: int, j: int|
                0 <= a < b < modules.len() && 0 <= j < references.len() && finds(
                    library,
                    datastore,
                    #[trigger] references[j],
                    (#[trigger] modules[b]).name,
                ) ==> finds_before(library, datastore, references, j, (#[trigger] modules[a]).name)
        },
    decreases references.len(),
{
    if references.len() > 0 {
        let front = references.drop_last();
        let n = front.len() as int;
        law_resolution_keeps_the_order(library, datastore, front);
        law_resolution_is_complete(library, datastore, front);
        if let Ok(modules) = fetcher::resolved(library, datastore, references) {
            let before = fetcher::resolved(library, datastore, front)->Ok_0;
            let last = library.lookup(datastore, references.last())->0;
            assert(references[n] == references.last());
            assert forall|m: int, name: Seq<char>| m <= n implies finds_before(
                library,
                datastore,
                front,
                m,
                name,
            ) == #[trigger] finds_before(library, datastore, references, m, name) by {
                if finds_before(library, datastore, front, m, name) {
                    let j = choose|j: int|
                        0 <= j < m && j < front.len() && finds(
                            library,
                            datastore,
                            #[trigger] front[j],
                            name,
                        );
                    assert(finds(library, datastore, references[j], name));
                }
                if finds_before(library, datastore, references, m, name) {
                    let j = choose|j: int|
                        0 <= j < m && j < references.len() && finds(
                            library,
                            datastore,
                            #[trigger] references[j],
                            name,
                        );
                    assert(finds(library, datastore, front[j], name));
                }
            }
            assert forall|k: int| 0 <= k < before.len() implies is_found(
                library,
                datastore,
                references,
                #[trigger] before[k],
            ) by {
                assert(is_found(library, datastore, front, before[k]));
                let i = choose|i: int| #[trigger]
                    first_to_find(library, datastore, front, i, before[k]);
                assert(front[i] == references[i]);
                assert(finds_before(library, datastore, front, i, before[k].name) == finds_before(
                    library,
                    datastore,
                    references,
                    i,
                    before[k].name,
                ));
                assert(first_to_find(library, datastore, references, i, before[k]));
            }
            if !fetcher::named(before, last.name) {
                assert(!finds_before(library, datastore, references, n, last.name)) by {
                    if finds_before(library, datastore, front, n, last.name) {
                        let j = choose|j: int|
                            0 <= j < n && j < front.len() && finds(
                                library,
                                datastore,
                                #[trigger] front[j],
                                last.name,
                            );
                        assert(library.lookup(datastore, front[j]) is Some);
                    }
                    assert(finds_before(library, datastore, front, n, last.name) == finds_before(
                        library,
                        datastore,
                        references,
                        n,
                        last.name,
                    ));
                }
                assert(first_to_find(library, datastore, references, n, version_of(last)));
            }
            assert forall|k: int| 0 <= k < modules.len() implies is_found(
                library,
                datastore,
                references,
                #[trigger] modules[k],
            ) by {
                if k < before.len() {
                    assert(modules[k] == before[k]);
                } else {
                    assert(first_to_find(library, datastore, references, n, modules[k]));
                }
            }
            assert forall|a: int, b: int, j: int|
                0 <= a < b < modules.len() && 0 <= j < references.len() && finds(
                    library,
                    datastore,
                    #[trigger] references[j],
                    (#[trigger] modules[b]).name,
                ) implies finds_before(
                library,
                datastore,
                references,
                j,
                (#[trigger] modules[a]).name,
            ) by {
                assert(modules[a] == before[a]);
                assert(is_found(library, datastore, front, before[a]));
                let f = choose|i: int| #[trigger]
                    first_to_find(library, datastore, front, i, before[a]);
                assert(front[f] == references[f]);
                assert(finds(library, datastore, references[f], before[a].name));
                if j < n {
                    assert(front[j] == references[j]);
                    if b < before.len() {
                        assert(modules[b] == before[b]);
                        assert(finds_before(library, datastore, front, j, before[a].name));
                        assert(finds_before(library, datastore, front, j, before[a].name)
                            == finds_before(library, datastore, references, j, before[a].name));
                    } else {
                        assert(library.lookup(datastore, front[j]) is Some);
                        assert(fetcher::named(before, modules[b].name));
                    }
                }
            }
        }
    }
}

/// The references that a filter makes: a filter by namespaces one to each
/// namespace, and an XPath filter one for each prefix.
pub proof fn law_references_of_filters(
    bindings: Seq<(Seq<char>, Seq<char>)>,
    path: Seq<char>,
)
    ensures
        fetcher::namespace_references(bindings).len() == bindings.len(),
        forall|i: int|
            0 <= i < bindings.len() ==> #[trigger] fetcher::namespace_references(bindings)[i]
                == ReferenceView::Namespace(bindings[i].1),
        fetcher::xpath_references(bindings, path).len() == filters::path_prefixes(
            bindings,
            path,
        ).len(),
        forall|i: int|
            0 <= i < filters::path_prefixes(bindings, path).len()
                ==> #[trigger] fetcher::xpath_references(bindings, path)[i]
                == fetcher::prefix_reference(bindings, filters::path_prefixes(bindings, path)[i]),
{
}

/// Bindings are seen one by one, each with its prefix and its namespace.
pub proof fn law_bindings_are_seen_one_by_one(bindings: Seq<Binding>)
    ensures
        filters::binding_views(bindings).len() == bindings.len(),
        forall|i: int|
            0 <= i < bindings.len() ==> #[trigger] filters::binding_views(bindings)[i] == (
                bindings[i].0@,
                bindings[i].1@,
            ),
{
}

/// Whether the prefix is bound to a namespace.
pub open spec fn is_bound(bindings: Seq<(Seq<char>, Seq<char>)>, prefix: Seq<char>) -> bool {
    exists|i: int| 0 <= i < bindings.len() && (#[trigger] bindings[i]).0 == prefix
}

proof fn lemma_is_bound(bindings: Seq<(Seq<char>, Seq<char>)>, prefix: Seq<char>)
    ensures
        filters::bound(bindings, prefix) is Some <==> is_bound(bindings, prefix),
    decreases bindings.len(),
{
    if bindings.len() > 0 {
        let front = bindings.drop_last();
        lemma_is_bound(front, prefix);
        if bindings.last().0 == prefix {
            assert(bindings[bindings.len() - 1].0 == prefix);
        } else {
            if is_bound(bindings, prefix) {
                let i = choose|i: int|
                    0 <= i < bindings.len() && (#[trigger] bindings[i]).0 == prefix;
                assert(front[i].0 == prefix);
            }
            if is_bound(front, prefix) {
                let i = choose|i: int| 0 <= i < front.len() && (#[trigger] front[i]).0 == prefix;
                assert(bindings[i].0 == prefix);
            }
        }
    }
}

proof fn lemma_with_bound(
    prefixes: Seq<Seq<char>>,
    bindings: Seq<(Seq<char>, Seq<char>)>,
    more: Seq<Seq<char>>,
)
    ensures
        ({
            let all = filters::with_bound(prefixes, bindings, more);
            &&& all.len() >= prefixes.len()
            &&& all.take(prefixes.len() as int) == prefixes
            &&& prefixes.no_duplicates() ==> all.no_duplicates()
            &&& forall|p: Seq<char>| #[trigger]
                all.contains(p) <==> prefixes.contains(p) || (more.contains(p) && is_bound(
                    bindings,
                    p,
                ))
        }),
    decreases more.len(),
{
    let all = filters::with_bound(prefixes, bindings, more);
    if more.len() == 0 {
        assert(all.take(prefixes.len() as int) =~= prefixes);
    } else {
        let less = more.drop_last();
        let last = more.last();
        lemma_with_bound(prefixes, bindings, less);
        lemma_is_bound(bindings, last);
        let front = filters::with_bound(prefixes, bindings, less);
        assert(more[more.len() - 1] == last);
        library_laws::law_members_are_added_once(front, last);
        assert(all.take(prefixes.len() as int) =~= front.take(prefixes.len() as int)) by {
            if all != front {
                assert(all.take(front.len() as int) == front);
            }
        }
        assert forall|p: Seq<char>| #[trigger]
            all.contains(p) <==> prefixes.contains(p) || (more.contains(p) && is_bound(
                bindings,
                p,
            )) by {
            if all.contains(p) {
                let k = choose|k: int| 0 <= k < all.len() && all[k] == p;
                if k < front.len() {
                    assert(front[k] == p);
                    assert(front.contains(p));
                    if less.contains(p) {
                        let m = choose|m: int| 0 <= m < less.len() && less[m] == p;
                        assert(more[m] == p);
                    }
                }
            }
            if prefixes.contains(p) || (more.contains(p) && is_bound(bindings, p)) {
                if p != last && more.contains(p) {
                    let m = choose|m: int| 0 <= m < more.len() && more[m] == p;
                    assert(less[m] == p);
                }
                if prefixes.contains(p) || p != last {
                    assert(front.contains(p));
                    let k = choose|k: int| 0 <= k < front.len() && front[k] == p;
                    assert(all[k] == p);
                }
            }
        }
    }
}

/// A filter refers to modules by the prefixes that qualify names in its path,
/// in their order, and behind them by those in literals that are bound: by these
/// and no others, and by each once.
pub proof fn law_prefixes_of_a_filter(bindings: Seq<(Seq<char>, Seq<char>)>, path: Seq<char>)
    ensures
        ({
            let all = filters::path_prefixes(bindings, path);
            let found = xpath::prefixes_of(path);
            &&& all.len() >= found.structural.len()
            &&& all.take(found.structural.len() as int) == found.structural
            &&& all.no_duplicates()
            &&& forall|p: Seq<char>| #[trigger]
                all.contains(p) <==> found.structural.contains(p) || (found.literal_only.contains(p)
                    && is_bound(bindings, p))
        }),
{
    crate::xpath_laws::law_prefixes_are_sound(path);
    let found = xpath::prefixes_of(path);
    lemma_with_bound(found.structural, bindings, found.literal_only);
}

/// Whether this is the right answer to references that are to be found among
/// these modules of the datastore: all modules that they are to, which are some;
/// or the reason why there are none.
pub open spec fn answers(
    among: Seq<ModuleView>,
    datastore: DatastoreView,
    id: SubscriptionId,
    references: Seq<ReferenceView>,
    answer: Result<Seq<ModuleVersionView>, ErrorView>,
) -> bool {
    match answer {
        Ok(modules) => {
            &&& modules.len() > 0
            &&& forall|i: int|
                0 <= i < references.len() ==> referred(among, #[trigger] references[i], modules)
            &&& forall|k: int|
                0 <= k < modules.len() ==> taken(among, references, #[trigger] modules[k])
        },
        Err(ErrorView::ModuleNamespaceNotFound { namespace, datastore: searched }) => {
            &&& searched == datastore
            &&& references.contains(ReferenceView::Namespace(namespace))
            &&& forall|i: int| 0 <= i < among.len() ==> (#[trigger] among[i]).namespace != namespace
        },
        Err(ErrorView::ModulePrefixNotFound(name)) => {
            &&& references.contains(ReferenceView::Name(name))
            &&& forall|i: int| 0 <= i < among.len() ==> (#[trigger] among[i]).name != name
        },
        Err(ErrorView::NoTargetModulesResolved { subscription_id, datastore: searched }) => {
            &&& subscription_id == id
            &&& searched == datastore
            &&& references.len() == 0
        },
        _ => false,
    }
}

/// Whether the reference is to one of these modules, and a module of its name is
/// in the list.
pub open spec fn referred(
    among: Seq<ModuleView>,
    reference: ReferenceView,
    modules: Seq<ModuleVersionView>,
) -> bool {
    exists|i: int|
        0 <= i < among.len() && library_laws::names(reference, #[trigger] among[i])
            && fetcher::named(modules, among[i].name)
}

/// Whether the module is one of these, and a reference is to it.
pub open spec fn taken(
    among: Seq<ModuleView>,
    references: Seq<ReferenceView>,
    module: ModuleVersionView,
) -> bool {
    exists|i: int, j: int|
        0 <= i < among.len() && 0 <= j < references.len() && library_laws::names(
            #[trigger] references[j],
            #[trigger] among[i],
        ) && module == version_of(among[i])
}

proof fn lemma_answers(
    library: LibraryView,
    datastore: DatastoreView,
    id: SubscriptionId,
    references: Seq<ReferenceView>,
)
    ensures
        answers(
            library.modules_of(datastore),
            datastore,
            id,
            references,
            fetcher::some_modules(library, id, datastore, references),
        ),
{
    let among = library.modules_of(datastore);
    law_resolution_is_complete(library, datastore, references);
    match fetcher::resolved(library, datastore, references) {
        Ok(modules) => {
            assert forall|i: int| 0 <= i < references.len() implies referred(
                among,
                #[trigger] references[i],
                modules,
            ) by {
                library_laws::law_lookup_finds_the_first(library, datastore, references[i]);
                let m = library.lookup(datastore, references[i])->0;
                let k = choose|k: int|
                    0 <= k < among.len() && #[trigger] among[k] == m && library_laws::names(
                        references[i],
                        m,
                    );
                assert(library_laws::names(references[i], among[k]));
            }
            assert forall|k: int| 0 <= k < modules.len() implies taken(
                among,
                references,
                #[trigger] modules[k],
            ) by {
                let i = choose|i: int|
                    0 <= i < references.len() && (library.lookup(
                        datastore,
                        #[trigger] references[i],
                    ) matches Some(m) && modules[k] == (ModuleVersionView {
                        name: m.name,
                        revision: m.revision,
                        version: None,
                    }));
                library_laws::law_lookup_finds_the_first(library, datastore, references[i]);
                let m = library.lookup(datastore, references[i])->0;
                let n = choose|n: int|
                    0 <= n < among.len() && #[trigger] among[n] == m && library_laws::names(
                        references[i],
                        m,
                    );
                assert(library_laws::names(references[i], among[n]));
            }
            if modules.len() == 0 && references.len() > 0 {
                assert(referred(among, references[0], modules));
            }
        },
        Err(reference) => {
            library_laws::law_lookup_finds_the_first(library, datastore, reference);
            assert(references.contains(reference));
            assert forall|i: int| 0 <= i < among.len() implies !library_laws::names(
                reference,
                #[trigger] among[i],
            ) by {}
        },
    }
}

/// The modules that a subscription is about are those that the device tells, as
/// it tells them. Where it tells none they are those that the filter refers to
/// in the datastore that the subscription selects, or, for an event stream, in
/// the running datastore. A filter that is only named cannot be resolved.
pub proof fn law_filters_are_resolved_in_their_datastore(
    library: LibraryView,
    id: SubscriptionId,
    told: YangPushSubscription,
)
    ensures
        ({
            let answer = fetcher::target_modules(library, id, told);
            match told.module_version {
                Some(modules) => answer matches Ok(found) && found.len() == modules@.len() && forall|
                    i: int,
                |
                    0 <= i < modules@.len() ==> #[trigger] found[i] == modules@[i]@,
                None => match told.selection {
                    Selection::Stream(StreamSelectionFilterObjects::ByReference(name)) => answer
                        == Err::<Seq<ModuleVersionView>, _>(
                        ErrorView::UnresolvedFilterReference(name@),
                    ),
                    Selection::Stream(StreamSelectionFilterObjects::WithInSubscription(b)) =>
                        answers(
                        library.modules_of(DatastoreView::Running),
                        DatastoreView::Running,
                        id,
                        fetcher::namespace_references(filters::binding_views(b@)),
                        answer,
                    ),
                    Selection::Datastore {
                        datastore: _,
                        filter: DatastoreSelectionFilterObjects::ByReference(name),
                    } => answer == Err::<Seq<ModuleVersionView>, _>(
                        ErrorView::UnresolvedFilterReference(name@),
                    ),
                    Selection::Datastore {
                        datastore,
                        filter: DatastoreSelectionFilterObjects::WithInSubscription(
                            DatastoreFilterSpec::Xpath(xpath),
                        ),
                    } => answers(
                        library.modules_of(datastore@),
                        datastore@,
                        id,
                        fetcher::xpath_references(
                            filters::binding_views(xpath.namespaces@),
                            xpath.path@,
                        ),
                        answer,
                    ),
                    Selection::Datastore {
                        datastore,
                        filter: DatastoreSelectionFilterObjects::WithInSubscription(
                            DatastoreFilterSpec::Subtree(b),
                        ),
                    } => answers(
                        library.modules_of(datastore@),
                        datastore@,
                        id,
                        fetcher::namespace_references(filters::binding_views(b@)),
                        answer,
                    ),
                },
            }
        }),
{
    if told.module_version is None {
        match told.selection {
            Selection::Stream(StreamSelectionFilterObjects::WithInSubscription(b)) => {
                lemma_answers(
                    library,
                    DatastoreView::Running,
                    id,
                    fetcher::namespace_references(filters::binding_views(b@)),
                );
            },
            Selection::Datastore {
                datastore,
                filter: DatastoreSelectionFilterObjects::WithInSubscription(
                    DatastoreFilterSpec::Xpath(xpath),
                ),
            } => {
                lemma_answers(
                    library,
                    datastore@,
                    id,
                    fetcher::xpath_references(
                        filters::binding_views(xpath.namespaces@),
                        xpath.path@,
                    ),
                );
            },
            Selection::Datastore {
                datastore,
                filter: DatastoreSelectionFilterObjects::WithInSubscription(
                    DatastoreFilterSpec::Subtree(b),
                ),
            } => {
                lemma_answers(
                    library,
                    datastore@,
                    id,
                    fetcher::namespace_references(filters::binding_views(b@)),
                );
            },
            _ => {},
        }
    }
}

/// A module is in a list by its name if and only if one of that name stands
/// somewhere in the list.
pub proof fn law_modules_are_listed_by_name(modules: Seq<ModuleVersionView>, name: Seq<char>)
    ensures
        fetcher::named(modules, name) <==> fetcher::module_names(modules).contains(name),
{
    let names = fetcher::module_names(modules);
    if fetcher::named(modules, name) {
        let i = choose|i: int| 0 <= i < modules.len() && (#[trigger] modules[i]).name == name;
        assert(names[i] == name);
    }
    if names.contains(name) {
        let i = choose|i: int| 0 <= i < names.len() && names[i] == name;
        assert(modules[i].name == name);
    }
}

/// A list takes a module that it has none of the name of at its end, with its
/// name and its revision, and stays as it is where it has one.
pub proof fn law_modules_are_added_once(modules: Seq<ModuleVersionView>, module: ModuleView)
    ensures
        fetcher::module_names(modules).contains(module.name) ==> fetcher::add_module(
            modules,
            module,
        ) == modules,
        !fetcher::module_names(modules).contains(module.name) ==> fetcher::add_module(
            modules,
            module,
        ) == modules.push(version_of(module)),
{
    law_modules_are_listed_by_name(modules, module.name);
}

/// A fetch that fails is over, and ends with the error and the subscription that
/// it was for.
pub proof fn law_failures_end_the_fetch<E>(
    fetch: FetchView,
    error: device_fetch::FetchErrorView<E>,
)
    ensures
        device_fetch::fails(fetch, error).0.phase is Over,
        device_fetch::fails(fetch, error).0.about == fetch.about,
        device_fetch::fails(fetch, error).1 == ActionView::Done(Err((fetch.about, error))),
{
}

/// What is known of a subscription once its device has told it: what the device
/// told, the modules, and the content id of the library; or that its target is
/// none that notifications can have.
pub proof fn law_what_is_fetched(
    about: InfoView,
    told: YangPushSubscription,
    modules: Seq<ModuleVersionView>,
    library: LibraryView,
)
    ensures
        match (told.target, device_fetch::fetched(about, told, modules, library)) {
            (Ok(target), Ok(info)) => {
                &&& info.peer_ip == about.peer_ip
                &&& info.id == about.id
                &&& identity_laws::sees_target(target, info.target)
                &&& told_of(told, info)
                &&& info.models == modules
                &&& info.content_id == library.content_id
            },
            (Err(why), Err(error)) => error == ErrorView::InvalidSubscriptionTarget(why@),
            _ => false,
        },
{
}

} // verus!
