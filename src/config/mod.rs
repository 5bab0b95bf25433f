use vstd::prelude::*;

use crate::constants::{config_file_names, config_file_paths, spec_config_file_names, spec_config_file_paths};
use crate::device::Devices;
use crate::helper::{
    first_present, lemma_search_paths_len, opt_view, pick_first, search, search_paths, string_views,
};

verus! {

/// One axis along which a re-read mapping file differs from the last one.
#[derive(Debug, Clone, Copy, PartialEq, Eq, Structural)]
pub enum ConfigEvent {
    Device,
    Mapping,
    Script,
}

/// Binds the control `key` to the script file `script`.
#[derive(Debug, Clone)]
pub struct Mapping {
    pub key: u32,
    pub script: String,
}

impl View for Mapping {
    type V = (u32, Seq<char>);

    open spec fn view(&self) -> (u32, Seq<char>) {
        (self.key, self.script@)
    }
}

impl PartialEq for Mapping {
    fn eq(&self, other: &Mapping) -> (r: bool) {
        self.key == other.key && self.script == other.script
    }
}

impl vstd::std_specs::cmp::PartialEqSpecImpl for Mapping {
    open spec fn obeys_eq_spec() -> bool {
        true
    }

    open spec fn eq_spec(&self, other: &Mapping) -> bool {
        self@ == other@
    }
}

/// The full content of a mapping file: the selected device and the ordered
/// list of bindings.
#[derive(Debug, Clone)]
pub struct Config {
    pub device: Devices,
    pub mappings: Vec<Mapping>,
}

/// The view of each binding, in order.
pub open spec fn entries_of(mappings: Seq<Mapping>) -> Seq<(u32, Seq<char>)> {
    mappings.map_values(|m: Mapping| m@)
}

/// What a re-read reports: `Device` where the device selection changed, then
/// `Mapping` where the binding list changed (order counts).
pub open spec fn change_kinds(
    old_device: Devices,
    old_entries: Seq<(u32, Seq<char>)>,
    new_device: Devices,
    new_entries: Seq<(u32, Seq<char>)>,
) -> Seq<ConfigEvent> {
    (if new_device != old_device {
        seq![ConfigEvent::Device]
    } else {
        seq![]
    }) + (if new_entries != old_entries {
        seq![ConfigEvent::Mapping]
    } else {
        seq![]
    })
}

/// The candidate locations of the mapping file, in search order.
pub open spec fn config_candidates(home: Seq<char>) -> Seq<Seq<char>> {
    search_paths(spec_config_file_paths(), spec_config_file_names(), home)
}

/// Number of candidate locations of the mapping file.
pub const CONFIG_CANDIDATE_COUNT: usize = 6;

/// Every home directory gives `CONFIG_CANDIDATE_COUNT` candidates.
pub proof fn lemma_config_candidate_count(home: Seq<char>)
    ensures
        config_candidates(home).len() == CONFIG_CANDIDATE_COUNT,
{
    lemma_search_paths_len(spec_config_file_paths(), spec_config_file_names(), home);
    assert(spec_config_file_paths().len() == 3);
    assert(spec_config_file_names().len() == 2);
}

impl Config {
    /// The bindings, as plain values.
    pub open spec fn entries(&self) -> Seq<(u32, Seq<char>)> {
        entries_of(self.mappings@)
    }

    /// Replaces this snapshot by a freshly read one and reports along which
    /// axes the two differ.
    pub fn update(&mut self, fresh: Config) -> (events: Vec<ConfigEvent>)
        ensures
            *final(self) == fresh,
            events@ == change_kinds(old(self).device, old(self).entries(), fresh.device, fresh.entries()),
    {
        let mut events: Vec<ConfigEvent> = Vec::new();
        if fresh.device != self.device {
            events.push(ConfigEvent::Device);
        }
        if !same_mappings(&fresh.mappings, &self.mappings) {
            events.push(ConfigEvent::Mapping);
        }
        assert(events@ =~= change_kinds(self.device, self.entries(), fresh.device, fresh.entries()));
        *self = fresh;
        events
    }
}

/// Whether two binding lists are equal entry by entry.
fn same_mappings(a: &Vec<Mapping>, b: &Vec<Mapping>) -> (r: bool)
    ensures
        r == (entries_of(a@) == entries_of(b@)),
{
    if a.len() != b.len() {
        assert(entries_of(a@).len() != entries_of(b@).len());
        return false;
    }
    let mut i: usize = 0;
    while i < a.len()
        invariant
            a.len() == b.len(),
            i <= a.len(),
            forall|j: int| 0 <= j < i ==> a@[j]@ == b@[j]@,
        decreases a.len() - i,
    {
        if a[i].key != b[i].key || a[i].script != b[i].script {
            assert(entries_of(a@)[i as int] != entries_of(b@)[i as int]);
            return false;
        }
        i = i + 1;
    }
    assert(entries_of(a@) =~= entries_of(b@));
    true
}

/// The candidate locations of the mapping file for the home directory `home`,
/// in search order.
pub fn config_search_paths(home: &str) -> (r: Vec<String>)
    ensures
        string_views(r@) == config_candidates(home@),
        r@.len() == CONFIG_CANDIDATE_COUNT,
{
    proof {
        lemma_config_candidate_count(home@);
    }
    search(&config_file_paths(), &config_file_names(), home)
}

/// The mapping file: the first candidate location, in search order, that
/// `present` marks as an existing file.
pub fn find_config(home: &str, present: &Vec<bool>) -> (r: Option<String>)
    requires
        present@.len() == CONFIG_CANDIDATE_COUNT,
    ensures
        opt_view(r) == first_present(config_candidates(home@), present@),
{
    let candidates = config_search_paths(home);
    pick_first(&candidates, present)
}

/// Re-reading a file whose device selection is unchanged and whose bindings
/// differ in one entry reports exactly a mapping change; one that differs in
/// the device selection alone reports exactly a device change; an identical
/// one reports nothing.
pub proof fn lemma_change_kinds(
    device: Devices,
    entries: Seq<(u32, Seq<char>)>,
    other_device: Devices,
    other_entries: Seq<(u32, Seq<char>)>,
    i: int,
)
    ensures
        (entries.len() == other_entries.len() && 0 <= i < entries.len() && entries[i]
            != other_entries[i]) ==> change_kinds(device, entries, device, other_entries) == seq![
            ConfigEvent::Mapping,
        ],
        other_device != device ==> change_kinds(device, entries, other_device, entries) == seq![
            ConfigEvent::Device,
        ],
        change_kinds(device, entries, device, entries) == Seq::<ConfigEvent>::empty(),
{
    if entries.len() == other_entries.len() && 0 <= i < entries.len() && entries[i]
        != other_entries[i] {
        assert(entries != other_entries);
        assert(change_kinds(device, entries, device, other_entries) =~= seq![ConfigEvent::Mapping]);
    }
    if other_device != device {
        assert(change_kinds(device, entries, other_device, entries) =~= seq![ConfigEvent::Device]);
    }
    assert(change_kinds(device, entries, device, entries) =~= Seq::<ConfigEvent>::empty());
}

} // verus!
