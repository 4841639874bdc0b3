//! What a device says of a subscription: its target, the filter on it, and the
//! modules that the filter refers to.

use crate::subscription::{Target, YangPushModuleVersion};
use crate::text;
use crate::text::push_unique;
use crate::xpath;
use crate::xpath::find_xpath_prefixes;
use crate::yanglib::DatastoreName;
use vstd::prelude::*;

verus! {

/// A prefix and the namespace that it is bound to.
pub type Binding = (String, String);

/// What a list of bindings holds.
pub open spec fn binding_views(bindings: Seq<Binding>) -> Seq<(Seq<char>, Seq<char>)> {
    bindings.map_values(|b: Binding| (b.0@, b.1@))
}

/// The namespace that a prefix is bound to. Of several bindings of one prefix
/// the last holds.
pub open spec fn bound(bindings: Seq<(Seq<char>, Seq<char>)>, prefix: Seq<char>) -> Option<
    Seq<char>,
>
    decreases bindings.len(),
{
    if bindings.len() == 0 {
        None
    } else if bindings.last().0 == prefix {
        Some(bindings.last().1)
    } else {
        bound(bindings.drop_last(), prefix)
    }
}

/// The namespace that a prefix is bound to.
pub fn find_binding(bindings: &Vec<Binding>, prefix: &String) -> (r: Option<String>)
    ensures
        match r {
            Some(namespace) => bound(binding_views(bindings@), prefix@) == Some(namespace@),
            None => bound(binding_views(bindings@), prefix@) is None,
        },
{
    let ghost views = binding_views(bindings@);
    let mut i: usize = bindings.len();
    assert(views.take(i as int) =~= views);
    while i > 0
        invariant
            i <= bindings@.len(),
            views == binding_views(bindings@),
            bound(views, prefix@) == bound(views.take(i as int), prefix@),
        decreases i,
    {
        i -= 1;
        assert(views.take(i + 1).drop_last() =~= views.take(i as int));
        assert(views.take(i + 1).last() == (bindings@[i as int].0@, bindings@[i as int].1@));
        if bindings[i].0 == *prefix {
            return Some(bindings[i].1.clone());
        }
    }
    None
}

/// An XPath filter on a datastore, with the bindings of its prefixes.
#[derive(Debug, PartialEq, Eq)]
pub struct DatastoreXPathFilter {
    pub namespaces: Vec<Binding>,
    pub path: String,
}

/// The prefixes of a list that are bound, in order, behind those of another
/// list, where they are not there already.
pub open spec fn with_bound(
    prefixes: Seq<Seq<char>>,
    bindings: Seq<(Seq<char>, Seq<char>)>,
    more: Seq<Seq<char>>,
) -> Seq<Seq<char>>
    decreases more.len(),
{
    if more.len() == 0 {
        prefixes
    } else {
        let front = with_bound(prefixes, bindings, more.drop_last());
        if bound(bindings, more.last()) is Some {
            text::add_unique(front, more.last())
        } else {
            front
        }
    }
}

/// The prefixes that a filter refers to modules by: those that qualify a name
/// in the path, and those that qualify a name in a literal and are bound.
pub open spec fn path_prefixes(
    bindings: Seq<(Seq<char>, Seq<char>)>,
    path: Seq<char>,
) -> Seq<Seq<char>> {
    let found = xpath::prefixes_of(path);
    with_bound(found.structural, bindings, found.literal_only)
}

impl DatastoreXPathFilter {
    /// The prefixes that the filter refers to modules by.
    pub fn path_prefixes(&self) -> (r: Vec<String>)
        ensures
            text::views(r@) == path_prefixes(binding_views(self.namespaces@), self.path@),
    {
        let found = find_xpath_prefixes(self.path.as_str());
        let ghost bindings = binding_views(self.namespaces@);
        let ghost structural = found@.structural;
        let ghost literals = found@.literal_only;
        let more: Vec<String> = found.literal_only;
        let mut prefixes: Vec<String> = found.structural;
        let mut i: usize = 0;
        assert(literals.take(0).len() == 0);
        while i < more.len()
            invariant
                i <= more@.len(),
                literals == text::views(more@),
                bindings == binding_views(self.namespaces@),
                text::views(prefixes@) == with_bound(
                    structural,
                    bindings,
                    literals.take(i as int),
                ),
            decreases more@.len() - i,
        {
            assert(literals.take(i + 1).drop_last() =~= literals.take(i as int));
            assert(literals.take(i + 1).last() == more@[i as int]@);
            if find_binding(&self.namespaces, &more[i]).is_some() {
                push_unique(&mut prefixes, more[i].clone());
            }
            i += 1;
        }
        assert(literals.take(literals.len() as int) =~= literals);
        prefixes
    }
}

/// A filter on a datastore.
#[derive(Debug, PartialEq, Eq)]
pub enum DatastoreFilterSpec {
    Xpath(DatastoreXPathFilter),
    /// A subtree filter: the bindings on its root elements.
    Subtree(Vec<Binding>),
}

/// The filter of a subscription to a datastore.
#[derive(Debug, PartialEq, Eq)]
pub enum DatastoreSelectionFilterObjects {
    /// A filter that is configured on the device under this name.
    ByReference(String),
    WithInSubscription(DatastoreFilterSpec),
}

/// The filter of a subscription to an event stream.
#[derive(Debug, PartialEq, Eq)]
pub enum StreamSelectionFilterObjects {
    /// A filter that is configured on the device under this name.
    ByReference(String),
    /// A filter, by its bindings.
    WithInSubscription(Vec<Binding>),
}

/// What a subscription selects.
#[derive(Debug, PartialEq, Eq)]
pub enum Selection {
    Stream(StreamSelectionFilterObjects),
    Datastore { datastore: DatastoreName, filter: DatastoreSelectionFilterObjects },
}

/// A subscription as a device tells it.
#[derive(Debug, PartialEq, Eq)]
pub struct YangPushSubscription {
    pub module_version: Option<Vec<YangPushModuleVersion>>,
    pub selection: Selection,
    /// The selection in the form that notifications use, or what is wrong
    /// with it.
    pub target: Result<Target, String>,
    pub stop_time: Option<String>,
    pub transport: Option<String>,
    pub encoding: Option<String>,
    pub purpose: Option<String>,
    pub update_trigger: Option<String>,
}

} // verus!
