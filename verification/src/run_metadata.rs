//! Additional information about a run, like the platform and region of
//! the game. All of it is optional. The variable table keeps its
//! entries in insertion order.

use vstd::prelude::*;
use indexmap::IndexMap;
use std::collections::hash_map::RandomState;

verus! {

#[verifier::external_type_specification]
#[verifier::external_body]
#[verifier::reject_recursive_types(K)]
#[verifier::reject_recursive_types(V)]
#[verifier::reject_recursive_types(S)]
pub struct ExIndexMap<K, V, S>(IndexMap<K, V, S>);

/// What a variable table holds: its key/value pairs, in order.
pub uninterp spec fn index_map_entries(m: IndexMap<String, String, RandomState>) -> Seq<
    (Seq<char>, Seq<char>),
>;

/// The position of the first entry under `key`, or the length when no
/// entry carries it.
pub open spec fn entry_pos(entries: Seq<(Seq<char>, Seq<char>)>, key: Seq<char>) -> int
    decreases entries.len(),
{
    if entries.len() == 0 {
        0
    } else if entries[0].0 == key {
        0
    } else {
        1 + entry_pos(entries.drop_first(), key)
    }
}

/// Relies on IndexMap::new: a fresh map holds nothing.
#[verifier::external_body]
fn new_variables() -> (r: IndexMap<String, String>)
    ensures
        index_map_entries(r) == Seq::<(Seq<char>, Seq<char>)>::empty(),
{
    IndexMap::new()
}

/// Relies on IndexMap::insert: an existing key keeps its place in the
/// order and gets the new value; a new key is appended last.
#[verifier::external_body]
fn variables_insert(m: &mut IndexMap<String, String>, key: String, value: String)
    ensures
        ({
            let e0 = index_map_entries(*old(m));
            let e1 = index_map_entries(*final(m));
            let p = entry_pos(e0, key@);
            if p < e0.len() {
                e1 == e0.update(p, (key@, value@))
            } else {
                e1 == e0.push((key@, value@))
            }
        }),
{
    m.insert(key, value);
}

/// Relies on IndexMap::iter: it yields the entries in order.
#[verifier::external_body]
fn variables_pairs(m: &IndexMap<String, String>) -> (r: Vec<(String, String)>)
    ensures
        r@.len() == index_map_entries(*m).len(),
        forall|i: int|
            0 <= i < r@.len() ==> (#[trigger] r@[i]).0@ == index_map_entries(*m)[i].0 && r@[i].1@
                == index_map_entries(*m)[i].1,
{
    m.iter().map(|(k, v)| (k.clone(), v.clone())).collect()
}

/// The Run Metadata stores additional information about a run, like the
/// platform and region of the game. All of this information is
/// optional.
#[derive(Debug)]
pub struct RunMetadata {
    run_id: String,
    platform_name: String,
    uses_emulator: bool,
    region_name: String,
    variables: IndexMap<String, String>,
}

impl RunMetadata {
    /// The stored record ID.
    pub closed spec fn run_id_view(self) -> Seq<char> {
        self.run_id@
    }

    /// The stored platform name.
    pub closed spec fn platform_name_view(self) -> Seq<char> {
        self.platform_name@
    }

    /// Whether the run is marked as done on an emulator.
    pub closed spec fn uses_emulator_view(self) -> bool {
        self.uses_emulator
    }

    /// The stored region name.
    pub closed spec fn region_name_view(self) -> Seq<char> {
        self.region_name@
    }

    /// The stored variables, in insertion order.
    pub closed spec fn variables_view(self) -> Seq<(Seq<char>, Seq<char>)> {
        index_map_entries(self.variables)
    }

    /// Creates a new empty Run Metadata.
    pub fn new() -> (r: RunMetadata)
        ensures
            r.run_id_view().len() == 0,
            r.platform_name_view().len() == 0,
            !r.uses_emulator_view(),
            r.region_name_view().len() == 0,
            r.variables_view().len() == 0,
    {
        RunMetadata {
            run_id: String::new(),
            platform_name: String::new(),
            uses_emulator: false,
            region_name: String::new(),
            variables: new_variables(),
        }
    }

    /// The record ID this run is associated with on the leaderboard
    /// site; empty when there is no association.
    pub fn run_id(&self) -> (r: &str)
        ensures
            r@ == self.run_id_view(),
    {
        self.run_id.as_str()
    }

    /// Sets the associated record ID; may be empty.
    pub fn set_run_id(&mut self, id: &str)
        ensures
            final(self).run_id_view() == id@,
            final(self).platform_name_view() == old(self).platform_name_view(),
            final(self).uses_emulator_view() == old(self).uses_emulator_view(),
            final(self).region_name_view() == old(self).region_name_view(),
            final(self).variables_view() == old(self).variables_view(),
    {
        self.run_id = String::from_str(id);
    }

    /// The name of the platform the game runs on; empty when not
    /// specified.
    pub fn platform_name(&self) -> (r: &str)
        ensures
            r@ == self.platform_name_view(),
    {
        self.platform_name.as_str()
    }

    /// Sets the platform name; may be empty.
    pub fn set_platform_name(&mut self, name: &str)
        ensures
            final(self).platform_name_view() == name@,
            final(self).run_id_view() == old(self).run_id_view(),
            final(self).uses_emulator_view() == old(self).uses_emulator_view(),
            final(self).region_name_view() == old(self).region_name_view(),
            final(self).variables_view() == old(self).variables_view(),
    {
        self.platform_name = String::from_str(name);
    }

    /// True when the run is marked as done on an emulator; false may
    /// also mean the information is simply not known.
    pub fn uses_emulator(&self) -> (r: bool)
        ensures
            r == self.uses_emulator_view(),
    {
        self.uses_emulator
    }

    /// Marks whether the run is done on an emulator.
    pub fn set_emulator_usage(&mut self, uses_emulator: bool)
        ensures
            final(self).uses_emulator_view() == uses_emulator,
            final(self).run_id_view() == old(self).run_id_view(),
            final(self).platform_name_view() == old(self).platform_name_view(),
            final(self).region_name_view() == old(self).region_name_view(),
            final(self).variables_view() == old(self).variables_view(),
    {
        self.uses_emulator = uses_emulator;
    }

    /// The name of the region the game is from; empty when not
    /// specified.
    pub fn region_name(&self) -> (r: &str)
        ensures
            r@ == self.region_name_view(),
    {
        self.region_name.as_str()
    }

    /// Sets the region name; may be empty.
    pub fn set_region_name(&mut self, region_name: &str)
        ensures
            final(self).region_name_view() == region_name@,
            final(self).run_id_view() == old(self).run_id_view(),
            final(self).platform_name_view() == old(self).platform_name_view(),
            final(self).uses_emulator_view() == old(self).uses_emulator_view(),
            final(self).variables_view() == old(self).variables_view(),
    {
        self.region_name = String::from_str(region_name);
    }

    /// Adds a variable: an arbitrary key/value pair with additional
    /// information about the category. An existing key keeps its place
    /// and gets the new value; a new key is appended last.
    pub fn add_variable(&mut self, name: &str, value: &str)
        ensures
            ({
                let e0 = old(self).variables_view();
                let e1 = final(self).variables_view();
                let p = entry_pos(e0, name@);
                if p < e0.len() {
                    e1 == e0.update(p, (name@, value@))
                } else {
                    e1 == e0.push((name@, value@))
                }
            }),
            final(self).run_id_view() == old(self).run_id_view(),
            final(self).platform_name_view() == old(self).platform_name_view(),
            final(self).uses_emulator_view() == old(self).uses_emulator_view(),
            final(self).region_name_view() == old(self).region_name_view(),
    {
        variables_insert(&mut self.variables, String::from_str(name), String::from_str(value));
    }

    /// The variables and their values, in insertion order.
    pub fn variables(&self) -> (r: Vec<(String, String)>)
        ensures
            r@.len() == self.variables_view().len(),
            forall|i: int|
                0 <= i < r@.len() ==> (#[trigger] r@[i]).0@ == self.variables_view()[i].0
                    && r@[i].1@ == self.variables_view()[i].1,
    {
        variables_pairs(&self.variables)
    }
}

impl Default for RunMetadata {
    /// The empty metadata.
    fn default() -> (r: RunMetadata)
        ensures
            r.run_id_view().len() == 0,
            r.platform_name_view().len() == 0,
            !r.uses_emulator_view(),
            r.region_name_view().len() == 0,
            r.variables_view().len() == 0,
    {
        RunMetadata::new()
    }
}

} // verus!
