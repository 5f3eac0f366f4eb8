//! The table of live projects, keyed by project name, held in a
//! `hashbrown::HashMap`.

use vstd::prelude::*;
use crate::sessions::{Project, ProjectView};

verus! {

/// The live projects by name.
#[verifier::external_body]
pub struct ProjectTable {
    map: hashbrown::HashMap<String, Project>,
}

/// What the table holds: each key's project.
pub uninterp spec fn table_contents(t: ProjectTable) -> Map<Seq<char>, ProjectView>;

/// Calls `hashbrown::HashMap::new`, which makes an empty map.
#[verifier::external_body]
pub(crate) fn table_new() -> (table: ProjectTable)
    ensures
        table_contents(table) =~= Map::empty(),
{
    ProjectTable { map: hashbrown::HashMap::new() }
}

/// Calls `hashbrown::HashMap::get`, which hands out the project of `key`,
/// or `None` where there is none.
#[verifier::external_body]
pub(crate) fn table_get<'a>(t: &'a ProjectTable, key: &str) -> (r: Option<&'a Project>)
    ensures
        r is Some == table_contents(*t).contains_key(key@),
        r matches Some(p) ==> p@ == table_contents(*t)[key@],
{
    t.map.get(key)
}

/// Calls `hashbrown::HashMap::insert`, which makes `p` the entry of `key`,
/// replacing the earlier one if there was one.
#[verifier::external_body]
pub(crate) fn table_insert(t: &mut ProjectTable, key: String, p: Project)
    ensures
        table_contents(*final(t)) == table_contents(*old(t)).insert(key@, p@),
{
    t.map.insert(key, p);
}

/// Calls `hashbrown::HashMap::remove`, which takes the entry of `key` out
/// and hands back its project, or `None` where there was none.
#[verifier::external_body]
pub(crate) fn table_remove(t: &mut ProjectTable, key: &str) -> (r: Option<Project>)
    ensures
        table_contents(*final(t)) == table_contents(*old(t)).remove(key@),
        match r {
            Some(p) => table_contents(*old(t)).contains_key(key@) && p@ == table_contents(
                *old(t),
            )[key@],
            None => !table_contents(*old(t)).contains_key(key@),
        },
{
    t.map.remove(key)
}

/// Calls `hashbrown::HashMap::iter`, which visits every entry once, in an
/// order that the map does not promise; the entries are collected as they come.
#[verifier::external_body]
pub(crate) fn table_entries<'a>(t: &'a ProjectTable) -> (v: Vec<(&'a String, &'a Project)>)
    ensures
        v@.len() == table_contents(*t).dom().len(),
        forall|i: int|
            0 <= i < v@.len() ==> table_contents(*t).contains_key((#[trigger] v@[i]).0@)
                && table_contents(*t)[v@[i].0@] == v@[i].1@,
        forall|i: int, j: int|
            0 <= i < v@.len() && 0 <= j < v@.len() && i != j ==> (#[trigger] v@[i]).0@
                != (#[trigger] v@[j]).0@,
{
    t.map.iter().collect()
}

} // verus!
