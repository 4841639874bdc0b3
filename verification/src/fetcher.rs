//! Fetching the YANG library of a subscription from the device that publishes
//! it: which modules to ask for, in which order to talk to the device, and what
//! comes of it.

use crate::filters;
use crate::filters::{
    find_binding, Binding, DatastoreFilterSpec, DatastoreSelectionFilterObjects,
    DatastoreXPathFilter, Selection, StreamSelectionFilterObjects, YangPushSubscription,
};
use crate::subscription;
use crate::subscription::{
    copy_modules, InfoView, ModuleVersionView, SubscriptionId, SubscriptionInfo,
    YangPushModuleVersion,
};
use crate::text;
use crate::text::{copy_opt, push_unique};
use crate::yanglib::{
    DatastoreName, DatastoreView, LibraryView, Module, ModuleView, ReferenceView, YangLibrary,
};
use vstd::prelude::*;

verus! {

/// Why no YANG library could be had for a subscription.
#[derive(Debug, PartialEq, Eq)]
pub enum YangLibraryCacheError {
    /// The datastore has no module with this namespace.
    ModuleNamespaceNotFound { namespace: String, datastore: DatastoreName },
    /// The datastore has no module with this name, which is used as a prefix.
    ModulePrefixNotFound(String),
    /// The filter is configured under this name, and the device did not tell
    /// it.
    UnresolvedFilterReference(String),
    /// The filter refers to no module.
    NoTargetModulesResolved { subscription_id: SubscriptionId, datastore: DatastoreName },
    /// The target of the subscription is not one that notifications can have.
    InvalidSubscriptionTarget(String),
}

/// What a [`YangLibraryCacheError`] holds.
pub enum ErrorView {
    ModuleNamespaceNotFound { namespace: Seq<char>, datastore: DatastoreView },
    ModulePrefixNotFound(Seq<char>),
    UnresolvedFilterReference(Seq<char>),
    NoTargetModulesResolved { subscription_id: SubscriptionId, datastore: DatastoreView },
    InvalidSubscriptionTarget(Seq<char>),
}

impl View for YangLibraryCacheError {
    type V = ErrorView;

    open spec fn view(&self) -> ErrorView {
        match self {
            YangLibraryCacheError::ModuleNamespaceNotFound { namespace, datastore } =>
                ErrorView::ModuleNamespaceNotFound {
                namespace: namespace@,
                datastore: datastore@,
            },
            YangLibraryCacheError::ModulePrefixNotFound(prefix) => ErrorView::ModulePrefixNotFound(
                prefix@,
            ),
            YangLibraryCacheError::UnresolvedFilterReference(name) =>
                ErrorView::UnresolvedFilterReference(name@),
            YangLibraryCacheError::NoTargetModulesResolved { subscription_id, datastore } =>
                ErrorView::NoTargetModulesResolved {
                subscription_id: *subscription_id,
                datastore: datastore@,
            },
            YangLibraryCacheError::InvalidSubscriptionTarget(why) =>
                ErrorView::InvalidSubscriptionTarget(why@),
        }
    }
}

/// A failure, and the subscription that it is about.
pub type Failure = Box<(SubscriptionInfo, YangLibraryCacheError)>;

/// Whether a module with this name is in the list.
pub open spec fn named(modules: Seq<ModuleVersionView>, name: Seq<char>) -> bool {
    exists|i: int| 0 <= i < modules.len() && (#[trigger] modules[i]).name == name
}

/// The list with the module behind it, unless one with its name is there.
pub open spec fn add_module(modules: Seq<ModuleVersionView>, module: ModuleView) -> Seq<
    ModuleVersionView,
> {
    if named(modules, module.name) {
        modules
    } else {
        modules.push(
            ModuleVersionView { name: module.name, revision: module.revision, version: None },
        )
    }
}

/// The modules that the references are to, each once; or the first reference
/// that is to none.
pub open spec fn resolved(
    library: LibraryView,
    datastore: DatastoreView,
    references: Seq<ReferenceView>,
) -> Result<Seq<ModuleVersionView>, ReferenceView>
    decreases references.len(),
{
    if references.len() == 0 {
        Ok(Seq::empty())
    } else {
        match resolved(library, datastore, references.drop_last()) {
            Err(reference) => Err(reference),
            Ok(modules) => match library.lookup(datastore, references.last()) {
                None => Err(references.last()),
                Some(module) => Ok(add_module(modules, module)),
            },
        }
    }
}

/// What is said of a reference that is to no module.
pub open spec fn not_found(reference: ReferenceView, datastore: DatastoreView) -> ErrorView {
    match reference {
        ReferenceView::Namespace(namespace) => ErrorView::ModuleNamespaceNotFound {
            namespace,
            datastore,
        },
        ReferenceView::Name(name) => ErrorView::ModulePrefixNotFound(name),
    }
}

/// The modules that the references are to, or what is said of the first that is
/// to none.
pub open spec fn resolution(
    library: LibraryView,
    datastore: DatastoreView,
    references: Seq<ReferenceView>,
) -> Result<Seq<ModuleVersionView>, ErrorView> {
    match resolved(library, datastore, references) {
        Ok(modules) => Ok(modules),
        Err(reference) => Err(not_found(reference, datastore)),
    }
}

/// Whether the result is `expected`, a failure being about `info`.
pub open spec fn gives(
    r: Result<Vec<YangPushModuleVersion>, Failure>,
    expected: Result<Seq<ModuleVersionView>, ErrorView>,
    info: InfoView,
) -> bool {
    match (r, expected) {
        (Ok(modules), Ok(views)) => subscription::module_views(modules@) == views,
        (Err(failure), Err(error)) => failure.0@ == info && failure.1@ == error,
        _ => false,
    }
}

/// The references that bindings make: each to a namespace.
pub open spec fn namespace_references(bindings: Seq<(Seq<char>, Seq<char>)>) -> Seq<ReferenceView> {
    bindings.map_values(|b: (Seq<char>, Seq<char>)| ReferenceView::Namespace(b.1))
}

/// The reference that a prefix makes: to the namespace that it is bound to, or,
/// where it is not bound, to the module that it names (RFC 8641).
pub open spec fn prefix_reference(
    bindings: Seq<(Seq<char>, Seq<char>)>,
    prefix: Seq<char>,
) -> ReferenceView {
    match filters::bound(bindings, prefix) {
        Some(namespace) => ReferenceView::Namespace(namespace),
        None => ReferenceView::Name(prefix),
    }
}

/// The references that an XPath filter makes.
pub open spec fn xpath_references(
    bindings: Seq<(Seq<char>, Seq<char>)>,
    path: Seq<char>,
) -> Seq<ReferenceView> {
    filters::path_prefixes(bindings, path).map_values(
        |p: Seq<char>| prefix_reference(bindings, p),
    )
}

/// Appends a module to the list, unless one with its name is there.
pub fn push_module(modules: &mut Vec<YangPushModuleVersion>, module: &Module)
    ensures
        subscription::module_views(final(modules)@) == add_module(
            subscription::module_views(old(modules)@),
            module@,
        ),
{
    let ghost views = subscription::module_views(modules@);
    let mut i: usize = 0;
    while i < modules.len()
        invariant
            i <= modules@.len(),
            *modules == *old(modules),
            views == subscription::module_views(modules@),
            forall|k: int| 0 <= k < i ==> (#[trigger] views[k]).name != module@.name,
        decreases modules@.len() - i,
    {
        if modules[i].name == module.name {
            assert(views[i as int].name == module@.name);
            return;
        }
        i += 1;
    }
    modules.push(
        YangPushModuleVersion::new(module.name.clone(), copy_opt(&module.revision), None),
    );
    assert(subscription::module_views(modules@) =~= views.push(modules@.last()@));
}

/// Resolves the modules of a filter that refers to them by namespace: a subtree
/// filter, or the filter on an event stream.
pub fn resolve_by_namespaces(
    router_yang_library: &YangLibrary,
    ds_name: &DatastoreName,
    namespaces: &Vec<Binding>,
    empty: &SubscriptionInfo,
) -> (r: Result<Vec<YangPushModuleVersion>, Failure>)
    ensures
        gives(
            r,
            resolution(
                router_yang_library@,
                ds_name@,
                namespace_references(filters::binding_views(namespaces@)),
            ),
            empty@,
        ),
{
    let ghost references = namespace_references(filters::binding_views(namespaces@));
    let mut ret: Vec<YangPushModuleVersion> = Vec::new();
    assert(subscription::module_views(ret@) =~= Seq::<ModuleVersionView>::empty());
    let mut i: usize = 0;
    while i < namespaces.len()
        invariant
            i <= namespaces@.len(),
            references == namespace_references(filters::binding_views(namespaces@)),
            resolved(router_yang_library@, ds_name@, references.take(i as int)) == Ok::<
                Seq<ModuleVersionView>,
                ReferenceView,
            >(subscription::module_views(ret@)),
        decreases namespaces@.len() - i,
    {
        let namespace = &namespaces[i].1;
        assert(references.take(i + 1).drop_last() =~= references.take(i as int));
        assert(references.take(i + 1).last() == ReferenceView::Namespace(namespace@));
        match router_yang_library.find_module_by_datastore_and_ns(ds_name, namespace) {
            Some(module) => {
                push_module(&mut ret, module);
            },
            None => {
                proof {
                    lemma_first_failure(router_yang_library@, ds_name@, references, i + 1);
                }
                return Err(
                    Box::new(
                        (
                            empty.clone(),
                            YangLibraryCacheError::ModuleNamespaceNotFound {
                                namespace: namespace.clone(),
                                datastore: ds_name.clone(),
                            },
                        ),
                    ),
                );
            },
        }
        i += 1;
    }
    assert(references.take(references.len() as int) =~= references);
    Ok(ret)
}

/// A reference that is to no module fails the whole, whatever comes behind it.
proof fn lemma_first_failure(
    library: LibraryView,
    datastore: DatastoreView,
    references: Seq<ReferenceView>,
    n: int,
)
    requires
        0 <= n <= references.len(),
        resolved(library, datastore, references.take(n)) is Err,
    ensures
        resolved(library, datastore, references) == resolved(
            library,
            datastore,
            references.take(n),
        ),
    decreases references.len() - n,
{
    if n == references.len() {
        assert(references.take(n) =~= references);
    } else {
        assert(references.take(n + 1).drop_last() =~= references.take(n));
        lemma_first_failure(library, datastore, references, n + 1);
    }
}

/// Resolves the modules of an XPath filter. A prefix stands for the namespace
/// that it is bound to, or, where it is not bound, is itself the name of a
/// module (RFC 8641).
pub fn resolve_by_xpath(
    router_yang_library: &YangLibrary,
    ds_name: &DatastoreName,
    xpath: &DatastoreXPathFilter,
    empty: &SubscriptionInfo,
) -> (r: Result<Vec<YangPushModuleVersion>, Failure>)
    ensures
        gives(
            r,
            resolution(
                router_yang_library@,
                ds_name@,
                xpath_references(filters::binding_views(xpath.namespaces@), xpath.path@),
            ),
            empty@,
        ),
{
    let ghost bindings = filters::binding_views(xpath.namespaces@);
    let ghost references = xpath_references(bindings, xpath.path@);
    let prefixes = xpath.path_prefixes();
    let mut ret: Vec<YangPushModuleVersion> = Vec::new();
    assert(subscription::module_views(ret@) =~= Seq::<ModuleVersionView>::empty());
    let mut i: usize = 0;
    while i < prefixes.len()
        invariant
            i <= prefixes@.len(),
            bindings == filters::binding_views(xpath.namespaces@),
            text::views(prefixes@) == filters::path_prefixes(bindings, xpath.path@),
            references == xpath_references(bindings, xpath.path@),
            resolved(router_yang_library@, ds_name@, references.take(i as int)) == Ok::<
                Seq<ModuleVersionView>,
                ReferenceView,
            >(subscription::module_views(ret@)),
        decreases prefixes@.len() - i,
    {
        let prefix = &prefixes[i];
        assert(text::views(prefixes@)[i as int] == prefix@);
        assert(references.take(i + 1).drop_last() =~= references.take(i as int));
        assert(references.take(i + 1).last() == prefix_reference(bindings, prefix@));
        match find_binding(&xpath.namespaces, prefix) {
            Some(namespace) => match router_yang_library.find_module_by_datastore_and_ns(
                ds_name,
                &namespace,
            ) {
                Some(module) => {
                    push_module(&mut ret, module);
                },
                None => {
                    proof {
                        lemma_first_failure(router_yang_library@, ds_name@, references, i + 1);
                    }
                    return Err(
                        Box::new(
                            (
                                empty.clone(),
                                YangLibraryCacheError::ModuleNamespaceNotFound {
                                    namespace,
                                    datastore: ds_name.clone(),
                                },
                            ),
                        ),
                    );
                },
            },
            None => match router_yang_library.find_module_by_datastore_and_name(ds_name, prefix) {
                Some(module) => {
                    push_module(&mut ret, module);
                },
                None => {
                    proof {
                        lemma_first_failure(router_yang_library@, ds_name@, references, i + 1);
                    }
                    return Err(
                        Box::new(
                            (
                                empty.clone(),
                                YangLibraryCacheError::ModulePrefixNotFound(prefix.clone()),
                            ),
                        ),
                    );
                },
            },
        }
        i += 1;
    }
    assert(references.take(references.len() as int) =~= references);
    Ok(ret)
}

/// The modules that a filter refers to, which are to be some.
pub open spec fn some_modules(
    library: LibraryView,
    id: SubscriptionId,
    datastore: DatastoreView,
    references: Seq<ReferenceView>,
) -> Result<Seq<ModuleVersionView>, ErrorView> {
    match resolution(library, datastore, references) {
        Ok(modules) => if modules.len() == 0 {
            Err(ErrorView::NoTargetModulesResolved { subscription_id: id, datastore })
        } else {
            Ok(modules)
        },
        Err(error) => Err(error),
    }
}

/// The modules that a subscription is about: those that the device tells, or,
/// where it tells none, those that the filter refers to. The filter on an event
/// stream is looked up in the running datastore.
pub open spec fn target_modules(
    library: LibraryView,
    id: SubscriptionId,
    told: YangPushSubscription,
) -> Result<Seq<ModuleVersionView>, ErrorView> {
    match told.module_version {
        Some(modules) => Ok(subscription::module_views(modules@)),
        None => match told.selection {
            Selection::Stream(StreamSelectionFilterObjects::ByReference(name)) => Err(
                ErrorView::UnresolvedFilterReference(name@),
            ),
            Selection::Stream(StreamSelectionFilterObjects::WithInSubscription(bindings)) =>
                some_modules(
                library,
                id,
                DatastoreView::Running,
                namespace_references(filters::binding_views(bindings@)),
            ),
            Selection::Datastore { datastore, filter } => match filter {
                DatastoreSelectionFilterObjects::ByReference(name) => Err(
                    ErrorView::UnresolvedFilterReference(name@),
                ),
                DatastoreSelectionFilterObjects::WithInSubscription(
                    DatastoreFilterSpec::Xpath(xpath),
                ) => some_modules(
                    library,
                    id,
                    datastore@,
                    xpath_references(filters::binding_views(xpath.namespaces@), xpath.path@),
                ),
                DatastoreSelectionFilterObjects::WithInSubscription(
                    DatastoreFilterSpec::Subtree(bindings),
                ) => some_modules(
                    library,
                    id,
                    datastore@,
                    namespace_references(filters::binding_views(bindings@)),
                ),
            },
        },
    }
}

fn unresolved(name: &String, empty: &SubscriptionInfo) -> (r: Failure)
    ensures
        r.0@ == empty@,
        r.1@ == ErrorView::UnresolvedFilterReference(name@),
{
    Box::new((empty.clone(), YangLibraryCacheError::UnresolvedFilterReference(name.clone())))
}

/// The modules that a subscription is about.
pub fn select_target_modules(
    router_yang_library: &YangLibrary,
    subscription_id: SubscriptionId,
    told: &YangPushSubscription,
    empty: &SubscriptionInfo,
) -> (r: Result<Vec<YangPushModuleVersion>, Failure>)
    ensures
        gives(r, target_modules(router_yang_library@, subscription_id, *told), empty@),
{
    if let Some(modules) = &told.module_version {
        return Ok(copy_modules(modules));
    }
    let (ds_name, found) = match &told.selection {
        Selection::Stream(filter) => match filter {
            StreamSelectionFilterObjects::ByReference(name) => {
                return Err(unresolved(name, empty));
            },
            StreamSelectionFilterObjects::WithInSubscription(bindings) => {
                let ds_name = DatastoreName::Running;
                let found = resolve_by_namespaces(router_yang_library, &ds_name, bindings, empty);
                (ds_name, found)
            },
        },
        Selection::Datastore { datastore, filter } => match filter {
            DatastoreSelectionFilterObjects::ByReference(name) => {
                return Err(unresolved(name, empty));
            },
            DatastoreSelectionFilterObjects::WithInSubscription(filter) => {
                let found = match filter {
                    DatastoreFilterSpec::Xpath(xpath) => resolve_by_xpath(
                        router_yang_library,
                        datastore,
                        xpath,
                        empty,
                    ),
                    DatastoreFilterSpec::Subtree(bindings) => resolve_by_namespaces(
                        router_yang_library,
                        datastore,
                        bindings,
                        empty,
                    ),
                };
                (datastore.clone(), found)
            },
        },
    };
    match found {
        Ok(modules) => {
            assert(subscription::module_views(modules@).len() == modules@.len());
            if modules.len() == 0 {
                return Err(
                    Box::new(
                        (
                            empty.clone(),
                            YangLibraryCacheError::NoTargetModulesResolved {
                                subscription_id,
                                datastore: ds_name,
                            },
                        ),
                    ),
                );
            }
            Ok(modules)
        },
        Err(failure) => Err(failure),
    }
}

/// The names of modules.
pub open spec fn module_names(modules: Seq<ModuleVersionView>) -> Seq<Seq<char>> {
    modules.map_values(|m: ModuleVersionView| m.name)
}

/// The names of modules.
pub fn names_of(modules: &Vec<YangPushModuleVersion>) -> (r: Vec<String>)
    ensures
        text::views(r@) == module_names(subscription::module_views(modules@)),
{
    let ghost names = module_names(subscription::module_views(modules@));
    let mut r: Vec<String> = Vec::new();
    let mut i: usize = 0;
    while i < modules.len()
        invariant
            i <= modules@.len(),
            names == module_names(subscription::module_views(modules@)),
            text::views(r@) == names.take(i as int),
        decreases modules@.len() - i,
    {
        let ghost before = r@;
        r.push(modules[i].name.clone());
        assert(text::views(r@) =~= text::views(before).push(names[i as int]));
        assert(text::views(r@) =~= names.take(i + 1));
        i += 1;
    }
    assert(text::views(r@) =~= names);
    r
}

/// The names that a device is asked for: those of the modules, and that of the
/// module that notifications are made of.
pub fn requested_module_names(modules: &Vec<YangPushModuleVersion>) -> (r: Vec<String>)
    ensures
        text::views(r@) == text::add_unique(
            module_names(subscription::module_views(modules@)),
            "ietf-subscribed-notifications"@,
        ),
{
    let mut names = names_of(modules);
    push_unique(&mut names, "ietf-subscribed-notifications".to_owned());
    names
}

} // verus!
