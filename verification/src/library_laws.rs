//! What holds of YANG libraries: what is in them, and what is found there.

use crate::text;
use crate::yanglib;
use crate::yanglib::{
    DatastoreName, DatastoreView, LibraryView, Module, ModuleView, ReferenceView, YangLibrary,
};
use vstd::prelude::*;

verus! {

/// No two datastores are taken for one: two names are the same only if they are
/// of one kind and, where they are spelt out, spelt alike.
pub proof fn law_datastores_are_told_apart(a: DatastoreName, b: DatastoreName)
    ensures
        a@ == b@ <==> match (a, b) {
            (DatastoreName::Other(x), DatastoreName::Other(y)) => x@ == y@,
            _ => {
                ||| a is Running && b is Running
                ||| a is Candidate && b is Candidate
                ||| a is Startup && b is Startup
                ||| a is Intended && b is Intended
                ||| a is Operational && b is Operational
            },
        },
        a@ is Running <==> a is Running,
        a@ is Operational <==> a is Operational,
{
}

/// A module is known by its name, its revision and its namespace.
pub proof fn law_module_is_seen_whole(module: Module)
    ensures
        module@.name == module.name@,
        module@.namespace == module.namespace@,
        match module.revision {
            Some(revision) => module@.revision == Some(revision@),
            None => module@.revision is None,
        },
{
}

/// Nothing of a library is lost from view, and nothing changes its place.
pub proof fn law_library_is_seen_whole(library: YangLibrary)
    ensures
        library@.content_id == library.content_id@,
        library@.datastores.len() == library.datastores@.len(),
        forall|i: int|
            0 <= i < library.datastores@.len() ==> (#[trigger] library@.datastores[i]).name
                == library.datastores@[i].name@ && library@.datastores[i].schema
                == library.datastores@[i].schema@,
        library@.schemas.len() == library.schemas@.len(),
        forall|i: int|
            0 <= i < library.schemas@.len() ==> (#[trigger] library@.schemas[i]).name
                == library.schemas@[i].name@ && library@.schemas[i].module_sets.len()
                == library.schemas@[i].module_sets@.len(),
        forall|i: int, k: int|
            0 <= i < library.schemas@.len() && 0 <= k < library.schemas@[i].module_sets@.len()
                ==> #[trigger] library@.schemas[i].module_sets[k]
                == library.schemas@[i].module_sets@[k]@,
        library@.module_sets.len() == library.module_sets@.len(),
        forall|i: int|
            0 <= i < library.module_sets@.len() ==> (#[trigger] library@.module_sets[i]).name
                == library.module_sets@[i].name@ && library@.module_sets[i].modules.len()
                == library.module_sets@[i].modules@.len(),
        forall|i: int, k: int|
            0 <= i < library.module_sets@.len() && 0 <= k < library.module_sets@[i].modules@.len()
                ==> #[trigger] library@.module_sets[i].modules[k]
                == library.module_sets@[i].modules@[k]@,
{
}

/// Whether the datastore is first told at `i`.
pub open spec fn first_datastore(library: LibraryView, datastore: DatastoreView, i: int) -> bool {
    &&& 0 <= i < library.datastores.len()
    &&& library.datastores[i].name == datastore
    &&& forall|j: int| 0 <= j < i ==> (#[trigger] library.datastores[j]).name != datastore
}

/// Whether the schema is first told at `i`.
pub open spec fn first_schema(library: LibraryView, name: Seq<char>, i: int) -> bool {
    &&& 0 <= i < library.schemas.len()
    &&& library.schemas[i].name == name
    &&& forall|j: int| 0 <= j < i ==> (#[trigger] library.schemas[j]).name != name
}

/// Whether the module set is first told at `i`.
pub open spec fn first_set(library: LibraryView, name: Seq<char>, i: int) -> bool {
    &&& 0 <= i < library.module_sets.len()
    &&& library.module_sets[i].name == name
    &&& forall|j: int| 0 <= j < i ==> (#[trigger] library.module_sets[j]).name != name
}

proof fn lemma_schema_name(library: LibraryView, datastore: DatastoreView, i: int, at: int)
    requires
        0 <= i <= at,
        first_datastore(library, datastore, at),
    ensures
        library.schema_name(datastore, i) == Some(library.datastores[at].schema),
    decreases at - i,
{
    if i < at {
        assert(library.datastores[i].name != datastore);
        lemma_schema_name(library, datastore, i + 1, at);
    }
}

proof fn lemma_schema_sets(library: LibraryView, name: Seq<char>, i: int, at: int)
    requires
        0 <= i <= at,
        first_schema(library, name, at),
    ensures
        library.schema_sets(name, i) == library.schemas[at].module_sets,
    decreases at - i,
{
    if i < at {
        assert(library.schemas[i].name != name);
        lemma_schema_sets(library, name, i + 1, at);
    }
}

proof fn lemma_set_modules(library: LibraryView, name: Seq<char>, i: int, at: int)
    requires
        0 <= i <= at,
        first_set(library, name, at),
    ensures
        library.set_modules(name, i) == library.module_sets[at].modules,
    decreases at - i,
{
    if i < at {
        assert(library.module_sets[i].name != name);
        lemma_set_modules(library, name, i + 1, at);
    }
}

proof fn lemma_no_schema_name(library: LibraryView, datastore: DatastoreView, i: int)
    requires
        0 <= i,
        forall|j: int|
            0 <= j < library.datastores.len() ==> (#[trigger] library.datastores[j]).name
                != datastore,
    ensures
        library.schema_name(datastore, i) is None,
    decreases library.datastores.len() - i,
{
    if i < library.datastores.len() {
        assert(library.datastores[i].name != datastore);
        lemma_no_schema_name(library, datastore, i + 1);
    }
}

proof fn lemma_no_schema_sets(library: LibraryView, name: Seq<char>, i: int)
    requires
        0 <= i,
        forall|j: int|
            0 <= j < library.schemas.len() ==> (#[trigger] library.schemas[j]).name != name,
    ensures
        library.schema_sets(name, i).len() == 0,
    decreases library.schemas.len() - i,
{
    if i < library.schemas.len() {
        assert(library.schemas[i].name != name);
        lemma_no_schema_sets(library, name, i + 1);
    }
}

proof fn lemma_no_set_modules(library: LibraryView, name: Seq<char>, i: int)
    requires
        0 <= i,
        forall|j: int|
            0 <= j < library.module_sets.len() ==> (#[trigger] library.module_sets[j]).name != name,
    ensures
        library.set_modules(name, i).len() == 0,
    decreases library.module_sets.len() - i,
{
    if i < library.module_sets.len() {
        assert(library.module_sets[i].name != name);
        lemma_no_set_modules(library, name, i + 1);
    }
}

/// The modules of module sets are those of the one set and then those of the
/// other; those of one set are what the library first tells under its name, and
/// none where it tells nothing.
pub proof fn law_sets_add_up(
    library: LibraryView,
    some: Seq<Seq<char>>,
    more: Seq<Seq<char>>,
    name: Seq<char>,
)
    ensures
        library.sets_modules(some + more) == library.sets_modules(some) + library.sets_modules(
            more,
        ),
        forall|i: int|
            first_set(library, name, i) ==> library.sets_modules(seq![name]) == (
            #[trigger] library.module_sets[i]).modules,
        (forall|i: int|
            0 <= i < library.module_sets.len() ==> (#[trigger] library.module_sets[i]).name != name)
            ==> library.sets_modules(seq![name]).len() == 0,
{
    lemma_sets_add_up(library, some, more);
    lemma_one_set(library, name);
    if forall|i: int|
        0 <= i < library.module_sets.len() ==> (#[trigger] library.module_sets[i]).name != name {
        lemma_no_set_modules(library, name, 0);
    }
    assert forall|i: int| first_set(library, name, i) implies library.sets_modules(seq![name]) == (
    #[trigger] library.module_sets[i]).modules by {
        lemma_set_modules(library, name, 0, i);
    }
}

proof fn lemma_one_set(library: LibraryView, name: Seq<char>)
    ensures
        library.sets_modules(seq![name]) == library.set_modules(name, 0),
{
    assert(seq![name].drop_last() =~= Seq::<Seq<char>>::empty());
    assert(library.sets_modules(Seq::<Seq<char>>::empty()) =~= Seq::<ModuleView>::empty());
    assert(library.sets_modules(seq![name]) =~= library.set_modules(name, 0));
}

proof fn lemma_sets_add_up(library: LibraryView, some: Seq<Seq<char>>, more: Seq<Seq<char>>)
    ensures
        library.sets_modules(some + more) == library.sets_modules(some) + library.sets_modules(
            more,
        ),
    decreases more.len(),
{
    if more.len() == 0 {
        assert(some + more =~= some);
        assert(library.sets_modules(some) + library.sets_modules(more) =~= library.sets_modules(
            some,
        ));
    } else {
        let front = more.drop_last();
        lemma_sets_add_up(library, some, front);
        assert((some + more).drop_last() =~= some + front);
        assert(library.sets_modules(some + more) =~= library.sets_modules(some)
            + library.sets_modules(more));
    }
}

/// A datastore has the modules of all module sets of its schema, in their order,
/// and no others: of the schema that the library first tells for it. A datastore
/// that the library does not tell, or whose schema it does not tell, has none.
pub proof fn law_modules_of_a_datastore(library: LibraryView, datastore: DatastoreView)
    ensures
        forall|i: int, j: int|
            first_datastore(library, datastore, i) && first_schema(
                library,
                (#[trigger] library.datastores[i]).schema,
                j,
            ) ==> library.modules_of(datastore) == library.sets_modules(
                (#[trigger] library.schemas[j]).module_sets,
            ),
        (forall|i: int|
            0 <= i < library.datastores.len() ==> (#[trigger] library.datastores[i]).name
                != datastore) ==> library.modules_of(datastore).len() == 0,
        forall|i: int|
            first_datastore(library, datastore, i) && (forall|j: int|
                0 <= j < library.schemas.len() ==> (#[trigger] library.schemas[j]).name
                    != library.datastores[i].schema) ==> #[trigger] library.datastores[i].name
                == datastore && library.modules_of(datastore).len() == 0,
{
    assert forall|i: int, j: int|
        first_datastore(library, datastore, i) && first_schema(
            library,
            (#[trigger] library.datastores[i]).schema,
            j,
        ) implies library.modules_of(datastore) == library.sets_modules(
        (#[trigger] library.schemas[j]).module_sets,
    ) by {
        lemma_schema_name(library, datastore, 0, i);
        lemma_schema_sets(library, library.datastores[i].schema, 0, j);
    }
    if forall|i: int|
        0 <= i < library.datastores.len() ==> (#[trigger] library.datastores[i]).name
            != datastore {
        lemma_no_schema_name(library, datastore, 0);
    }
    assert forall|i: int|
        first_datastore(library, datastore, i) && (forall|j: int|
            0 <= j < library.schemas.len() ==> (#[trigger] library.schemas[j]).name
                != library.datastores[i].schema) implies #[trigger] library.datastores[i].name
        == datastore && library.modules_of(datastore).len() == 0 by {
        lemma_schema_name(library, datastore, 0, i);
        lemma_no_schema_sets(library, library.datastores[i].schema, 0);
    }
}

/// Whether the reference is to the module by what the module holds.
pub open spec fn names(reference: ReferenceView, module: ModuleView) -> bool {
    ||| reference == ReferenceView::Namespace(module.namespace)
    ||| reference == ReferenceView::Name(module.name)
}

proof fn lemma_first(modules: Seq<ModuleView>, reference: ReferenceView, i: int)
    requires
        0 <= i <= modules.len(),
        forall|j: int| 0 <= j < i ==> !names(reference, #[trigger] modules[j]),
    ensures
        match yanglib::first_module(modules, reference, i) {
            Some(m) => exists|k: int|
                {
                    &&& 0 <= k < modules.len()
                    &&& #[trigger] modules[k] == m
                    &&& names(reference, m)
                    &&& forall|j: int| 0 <= j < k ==> !names(reference, #[trigger] modules[j])
                },
            None => forall|j: int|
                0 <= j < modules.len() ==> !names(reference, #[trigger] modules[j]),
        },
    decreases modules.len() - i,
{
    if i < modules.len() {
        if names(reference, modules[i]) {
            assert(modules[i] == yanglib::first_module(modules, reference, i)->0);
        } else {
            lemma_first(modules, reference, i + 1);
        }
    }
}

/// A reference finds the first module of the datastore that has its namespace
/// or its name, and nothing only where no module of the datastore has it.
pub proof fn law_lookup_finds_the_first(
    library: LibraryView,
    datastore: DatastoreView,
    reference: ReferenceView,
)
    ensures
        ({
            let modules = library.modules_of(datastore);
            match library.lookup(datastore, reference) {
                Some(m) => exists|k: int|
                    {
                        &&& 0 <= k < modules.len()
                        &&& #[trigger] modules[k] == m
                        &&& names(reference, m)
                        &&& forall|j: int| 0 <= j < k ==> !names(reference, #[trigger] modules[j])
                    },
                None => forall|j: int|
                    0 <= j < modules.len() ==> !names(reference, #[trigger] modules[j]),
            }
        }),
{
    lemma_first(library.modules_of(datastore), reference, 0);
}

/// A list of strings is seen string by string.
pub proof fn law_strings_are_seen_one_by_one(strings: Seq<String>)
    ensures
        text::views(strings).len() == strings.len(),
        forall|i: int| 0 <= i < strings.len() ==> #[trigger] text::views(strings)[i] == strings[i]@,
{
}

/// A list of which a string is made a member has it, and what it had, in the
/// same order; it grows by one only where it did not have it.
pub proof fn law_members_are_added_once(list: Seq<Seq<char>>, s: Seq<char>)
    ensures
        text::add_unique(list, s).contains(s),
        text::add_unique(list, s).take(list.len() as int) == list,
        text::add_unique(list, s).len() == list.len() + (if list.contains(s) {
            0int
        } else {
            1
        }),
        list.no_duplicates() ==> text::add_unique(list, s).no_duplicates(),
{
    let after = text::add_unique(list, s);
    if !list.contains(s) {
        assert(after[list.len() as int] == s);
    }
    assert(after.take(list.len() as int) =~= list);
}

} // verus!
