//! The YANG library of a device (RFC 8525): which modules it implements, and in
//! which datastore.

use crate::text;

use vstd::prelude::*;

verus! {

/// A datastore (RFC 8342).
#[derive(Debug, PartialEq, Eq)]
pub enum DatastoreName {
    Running,
    Candidate,
    Startup,
    Intended,
    Operational,
    /// A datastore with another name.
    Other(String),
}

/// What a [`DatastoreName`] holds.
pub enum DatastoreView {
    Running,
    Candidate,
    Startup,
    Intended,
    Operational,
    Other(Seq<char>),
}

impl View for DatastoreName {
    type V = DatastoreView;

    open spec fn view(&self) -> DatastoreView {
        match self {
            DatastoreName::Running => DatastoreView::Running,
            DatastoreName::Candidate => DatastoreView::Candidate,
            DatastoreName::Startup => DatastoreView::Startup,
            DatastoreName::Intended => DatastoreView::Intended,
            DatastoreName::Operational => DatastoreView::Operational,
            DatastoreName::Other(name) => DatastoreView::Other(name@),
        }
    }
}

impl DatastoreName {
    /// Whether both name the same datastore.
    pub fn same(&self, other: &Self) -> (r: bool)
        ensures
            r == (self@ == other@),
    {
        match (self, other) {
            (DatastoreName::Running, DatastoreName::Running) => true,
            (DatastoreName::Candidate, DatastoreName::Candidate) => true,
            (DatastoreName::Startup, DatastoreName::Startup) => true,
            (DatastoreName::Intended, DatastoreName::Intended) => true,
            (DatastoreName::Operational, DatastoreName::Operational) => true,
            (DatastoreName::Other(a), DatastoreName::Other(b)) => *a == *b,
            _ => false,
        }
    }
}

impl Clone for DatastoreName {
    fn clone(&self) -> (r: Self)
        ensures
            r == *self,
    {
        match self {
            DatastoreName::Running => DatastoreName::Running,
            DatastoreName::Candidate => DatastoreName::Candidate,
            DatastoreName::Startup => DatastoreName::Startup,
            DatastoreName::Intended => DatastoreName::Intended,
            DatastoreName::Operational => DatastoreName::Operational,
            DatastoreName::Other(name) => DatastoreName::Other(name.clone()),
        }
    }
}

/// A module that a device implements.
#[derive(Debug, PartialEq, Eq)]
pub struct Module {
    pub name: String,
    pub revision: Option<String>,
    pub namespace: String,
}

/// What a [`Module`] holds.
pub struct ModuleView {
    pub name: Seq<char>,
    pub revision: Option<Seq<char>>,
    pub namespace: Seq<char>,
}

impl View for Module {
    type V = ModuleView;

    open spec fn view(&self) -> ModuleView {
        ModuleView {
            name: self.name@,
            revision: text::opt_view(self.revision),
            namespace: self.namespace@,
        }
    }
}

/// Modules under a common name.
#[derive(Debug, PartialEq, Eq)]
pub struct ModuleSet {
    pub name: String,
    pub modules: Vec<Module>,
}

/// What a [`ModuleSet`] holds.
pub struct ModuleSetView {
    pub name: Seq<char>,
    pub modules: Seq<ModuleView>,
}

impl View for ModuleSet {
    type V = ModuleSetView;

    open spec fn view(&self) -> ModuleSetView {
        ModuleSetView {
            name: self.name@,
            modules: self.modules@.map_values(|m: Module| m@),
        }
    }
}

/// A schema: the module sets that make it up.
#[derive(Debug, PartialEq, Eq)]
pub struct Schema {
    pub name: String,
    pub module_sets: Vec<String>,
}

/// What a [`Schema`] holds.
pub struct SchemaView {
    pub name: Seq<char>,
    pub module_sets: Seq<Seq<char>>,
}

impl View for Schema {
    type V = SchemaView;

    open spec fn view(&self) -> SchemaView {
        SchemaView { name: self.name@, module_sets: text::views(self.module_sets@) }
    }
}

/// A datastore and the name of its schema.
#[derive(Debug, PartialEq, Eq)]
pub struct Datastore {
    pub name: DatastoreName,
    pub schema: String,
}

/// What a [`Datastore`] holds.
pub struct DatastoreSchemaView {
    pub name: DatastoreView,
    pub schema: Seq<char>,
}

impl View for Datastore {
    type V = DatastoreSchemaView;

    open spec fn view(&self) -> DatastoreSchemaView {
        DatastoreSchemaView { name: self.name@, schema: self.schema@ }
    }
}

/// The YANG library of a device.
#[derive(Debug, PartialEq, Eq)]
pub struct YangLibrary {
    pub content_id: String,
    pub module_sets: Vec<ModuleSet>,
    pub schemas: Vec<Schema>,
    pub datastores: Vec<Datastore>,
}

/// What a [`YangLibrary`] holds.
pub struct LibraryView {
    pub content_id: Seq<char>,
    pub module_sets: Seq<ModuleSetView>,
    pub schemas: Seq<SchemaView>,
    pub datastores: Seq<DatastoreSchemaView>,
}

impl View for YangLibrary {
    type V = LibraryView;

    open spec fn view(&self) -> LibraryView {
        LibraryView {
            content_id: self.content_id@,
            module_sets: self.module_sets@.map_values(|s: ModuleSet| s@),
            schemas: self.schemas@.map_values(|s: Schema| s@),
            datastores: self.datastores@.map_values(|d: Datastore| d@),
        }
    }
}

/// How a module is referred to.
pub enum ReferenceView {
    Namespace(Seq<char>),
    Name(Seq<char>),
}

impl ReferenceView {
    /// Whether the reference is to the module.
    pub open spec fn refers_to(self, module: ModuleView) -> bool {
        match self {
            ReferenceView::Namespace(namespace) => module.namespace == namespace,
            ReferenceView::Name(name) => module.name == name,
        }
    }
}

/// A reference to a module: by its namespace or by its name.
enum ModuleReference<'a> {
    Namespace(&'a String),
    Name(&'a String),
}

impl<'a> View for ModuleReference<'a> {
    type V = ReferenceView;

    closed spec fn view(&self) -> ReferenceView {
        match self {
            ModuleReference::Namespace(namespace) => ReferenceView::Namespace(namespace@),
            ModuleReference::Name(name) => ReferenceView::Name(name@),
        }
    }
}

impl<'a> ModuleReference<'a> {
    fn is_to(&self, module: &Module) -> (r: bool)
        ensures
            r == self@.refers_to(module@),
    {
        match self {
            ModuleReference::Namespace(namespace) => module.namespace == **namespace,
            ModuleReference::Name(name) => module.name == **name,
        }
    }
}

/// The first module from position `i` on that the reference is to.
pub open spec fn first_module(
    modules: Seq<ModuleView>,
    reference: ReferenceView,
    i: int,
) -> Option<ModuleView>
    decreases modules.len() - i,
{
    if i < 0 || i >= modules.len() {
        None
    } else if reference.refers_to(modules[i]) {
        Some(modules[i])
    } else {
        first_module(modules, reference, i + 1)
    }
}

impl LibraryView {
    /// The schema name of the datastore, sought from position `i` on.
    pub open spec fn schema_name(self, datastore: DatastoreView, i: int) -> Option<Seq<char>>
        decreases self.datastores.len() - i,
    {
        if i < 0 || i >= self.datastores.len() {
            None
        } else if self.datastores[i].name == datastore {
            Some(self.datastores[i].schema)
        } else {
            self.schema_name(datastore, i + 1)
        }
    }

    /// The module sets of the schema, sought from position `i` on.
    pub open spec fn schema_sets(self, name: Seq<char>, i: int) -> Seq<Seq<char>>
        decreases self.schemas.len() - i,
    {
        if i < 0 || i >= self.schemas.len() {
            Seq::empty()
        } else if self.schemas[i].name == name {
            self.schemas[i].module_sets
        } else {
            self.schema_sets(name, i + 1)
        }
    }

    /// The modules of the module set, sought from position `i` on.
    pub open spec fn set_modules(self, name: Seq<char>, i: int) -> Seq<ModuleView>
        decreases self.module_sets.len() - i,
    {
        if i < 0 || i >= self.module_sets.len() {
            Seq::empty()
        } else if self.module_sets[i].name == name {
            self.module_sets[i].modules
        } else {
            self.set_modules(name, i + 1)
        }
    }

    /// The modules of the module sets, one set after the other.
    pub open spec fn sets_modules(self, names: Seq<Seq<char>>) -> Seq<ModuleView>
        decreases names.len(),
    {
        if names.len() == 0 {
            Seq::empty()
        } else {
            self.sets_modules(names.drop_last()) + self.set_modules(names.last(), 0)
        }
    }

    /// The modules that the datastore is made of.
    pub open spec fn modules_of(self, datastore: DatastoreView) -> Seq<ModuleView> {
        match self.schema_name(datastore, 0) {
            Some(schema) => self.sets_modules(self.schema_sets(schema, 0)),
            None => Seq::empty(),
        }
    }

    /// The module of the datastore that the reference is to: the first, where
    /// there are several.
    pub open spec fn lookup(self, datastore: DatastoreView, reference: ReferenceView) -> Option<
        ModuleView,
    > {
        first_module(self.modules_of(datastore), reference, 0)
    }
}

/// What a list of modules holds.
pub open spec fn ref_views(modules: Seq<&Module>) -> Seq<ModuleView> {
    modules.map_values(|m: &Module| m@)
}

impl YangLibrary {
    fn find_schema_name(&self, datastore: &DatastoreName) -> (r: Option<&String>)
        ensures
            match r {
                Some(name) => self@.schema_name(datastore@, 0) == Some(name@),
                None => self@.schema_name(datastore@, 0) is None,
            },
    {
        let mut i: usize = 0;
        while i < self.datastores.len()
            invariant
                i <= self.datastores@.len(),
                self@.schema_name(datastore@, 0) == self@.schema_name(datastore@, i as int),
            decreases self.datastores@.len() - i,
        {
            assert(self@.datastores[i as int] == self.datastores@[i as int]@);
            if self.datastores[i].name.same(datastore) {
                return Some(&self.datastores[i].schema);
            }
            i += 1;
        }
        None
    }

    fn find_schema(&self, name: &String) -> (r: Option<&Schema>)
        ensures
            match r {
                Some(schema) => self@.schema_sets(name@, 0) == schema@.module_sets,
                None => self@.schema_sets(name@, 0) == Seq::<Seq<char>>::empty(),
            },
    {
        let mut i: usize = 0;
        while i < self.schemas.len()
            invariant
                i <= self.schemas@.len(),
                self@.schema_sets(name@, 0) == self@.schema_sets(name@, i as int),
            decreases self.schemas@.len() - i,
        {
            assert(self@.schemas[i as int] == self.schemas@[i as int]@);
            if self.schemas[i].name == *name {
                return Some(&self.schemas[i]);
            }
            i += 1;
        }
        None
    }

    fn find_module_set(&self, name: &String) -> (r: Option<&ModuleSet>)
        ensures
            match r {
                Some(set) => self@.set_modules(name@, 0) == set@.modules,
                None => self@.set_modules(name@, 0) == Seq::<ModuleView>::empty(),
            },
    {
        let mut i: usize = 0;
        while i < self.module_sets.len()
            invariant
                i <= self.module_sets@.len(),
                self@.set_modules(name@, 0) == self@.set_modules(name@, i as int),
            decreases self.module_sets@.len() - i,
        {
            assert(self@.module_sets[i as int] == self.module_sets@[i as int]@);
            if self.module_sets[i].name == *name {
                return Some(&self.module_sets[i]);
            }
            i += 1;
        }
        None
    }

    /// The modules that the datastore is made of.
    fn datastore_modules(&self, datastore: &DatastoreName) -> (r: Vec<&Module>)
        ensures
            ref_views(r@) == self@.modules_of(datastore@),
    {
        let mut found: Vec<&Module> = Vec::new();
        assert(ref_views(found@) =~= Seq::<ModuleView>::empty());
        let name = match self.find_schema_name(datastore) {
            Some(name) => name,
            None => {
                return found;
            },
        };
        let schema = match self.find_schema(name) {
            Some(schema) => schema,
            None => {
                return found;
            },
        };
        let ghost sets = schema@.module_sets;
        let mut i: usize = 0;
        while i < schema.module_sets.len()
            invariant
                i <= schema.module_sets@.len(),
                sets == text::views(schema.module_sets@),
                ref_views(found@) == self@.sets_modules(sets.take(i as int)),
            decreases schema.module_sets@.len() - i,
        {
            let ghost before = ref_views(found@);
            assert(sets.take(i + 1).drop_last() =~= sets.take(i as int));
            assert(sets.take(i + 1).last() == schema.module_sets@[i as int]@);
            match self.find_module_set(&schema.module_sets[i]) {
                Some(set) => {
                    let mut j: usize = 0;
                    while j < set.modules.len()
                        invariant
                            j <= set.modules@.len(),
                            ref_views(found@) == before + set@.modules.take(j as int),
                        decreases set.modules@.len() - j,
                    {
                        let ghost so_far = found@;
                        found.push(&set.modules[j]);
                        assert(ref_views(found@) =~= ref_views(so_far).push(
                            set.modules@[j as int]@,
                        ));
                        assert(ref_views(found@) =~= before + set@.modules.take(j + 1));
                        j += 1;
                    }
                    assert(set@.modules.take(j as int) =~= set@.modules);
                },
                None => {
                    assert(before + Seq::<ModuleView>::empty() =~= before);
                },
            }
            i += 1;
        }
        assert(sets.take(sets.len() as int) =~= sets);
        found
    }

    /// The first module of the datastore that the reference is to.
    fn find_module(&self, datastore: &DatastoreName, reference: ModuleReference<'_>) -> (r: Option<
        &Module,
    >)
        ensures
            match r {
                Some(m) => self@.lookup(datastore@, reference@) == Some(m@),
                None => self@.lookup(datastore@, reference@) is None,
            },
    {
        let modules = self.datastore_modules(datastore);
        let ghost views = ref_views(modules@);
        let mut i: usize = 0;
        while i < modules.len()
            invariant
                i <= modules@.len(),
                views == ref_views(modules@),
                views == self@.modules_of(datastore@),
                first_module(views, reference@, 0) == first_module(views, reference@, i as int),
            decreases modules@.len() - i,
        {
            assert(views[i as int] == modules@[i as int]@);
            if reference.is_to(modules[i]) {
                return Some(modules[i]);
            }
            i += 1;
        }
        None
    }

    /// The module of the datastore with this namespace.
    pub fn find_module_by_datastore_and_ns(
        &self,
        datastore: &DatastoreName,
        namespace: &String,
    ) -> (r: Option<&Module>)
        ensures
            match r {
                Some(m) => self@.lookup(datastore@, ReferenceView::Namespace(namespace@)) == Some(
                    m@,
                ),
                None => self@.lookup(datastore@, ReferenceView::Namespace(namespace@)) is None,
            },
    {
        self.find_module(datastore, ModuleReference::Namespace(namespace))
    }

    /// The module of the datastore with this name.
    pub fn find_module_by_datastore_and_name(
        &self,
        datastore: &DatastoreName,
        name: &String,
    ) -> (r: Option<&Module>)
        ensures
            match r {
                Some(m) => self@.lookup(datastore@, ReferenceView::Name(name@)) == Some(m@),
                None => self@.lookup(datastore@, ReferenceView::Name(name@)) is None,
            },
    {
        self.find_module(datastore, ModuleReference::Name(name))
    }
}

} // verus!
