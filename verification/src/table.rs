//! The required mounts: an ordered list of directories and their modes.

use vstd::prelude::*;

verus! {

/// One required mount: the directory and the permission bits it must carry.
#[derive(Clone, Debug, PartialEq, Eq)]
pub struct MountSpec {
    pub path: String,
    pub mode: u32,
}

/// What a `MountSpec` stands for in contracts.
pub struct MountSpecView {
    pub path: Seq<char>,
    pub mode: u32,
}

impl View for MountSpec {
    type V = MountSpecView;

    open spec fn view(&self) -> MountSpecView {
        MountSpecView { path: self.path@, mode: self.mode }
    }
}

impl MountSpec {
    /// A mount of `path` with the permission bits `mode`.
    pub fn new(path: &str, mode: u32) -> (spec: MountSpec)
        ensures
            spec@.path == path@,
            spec@.mode == mode,
    {
        MountSpec { path: path.to_owned(), mode }
    }
}

/// The required mounts, in the order in which they are made.
#[derive(Clone, Debug, PartialEq, Eq)]
pub struct MountTable {
    pub entries: Vec<MountSpec>,
}

impl View for MountTable {
    type V = Seq<MountSpecView>;

    open spec fn view(&self) -> Seq<MountSpecView> {
        self.entries@.map_values(|entry: MountSpec| entry@)
    }
}

/// The directories that need tmpfs in every guest: the two scratch
/// directories, open to all with the sticky bit, and the directory for runtime
/// state.
pub open spec fn essential_mounts() -> Seq<MountSpecView> {
    seq![
        MountSpecView { path: "/tmp"@, mode: 0o1777 },
        MountSpecView { path: "/var/tmp"@, mode: 0o1777 },
        MountSpecView { path: "/run"@, mode: 0o755 },
    ]
}

impl MountTable {
    /// A table of the given entries, in their order.
    pub fn new(entries: Vec<MountSpec>) -> (table: MountTable)
        ensures
            table.entries == entries,
    {
        MountTable { entries }
    }

    /// The table of every guest.
    pub fn essential() -> (table: MountTable)
        ensures
            table@ == essential_mounts(),
    {
        let mut entries: Vec<MountSpec> = Vec::new();
        entries.push(MountSpec::new("/tmp", 0o1777));
        entries.push(MountSpec::new("/var/tmp", 0o1777));
        entries.push(MountSpec::new("/run", 0o755));
        let table = MountTable { entries };
        assert(table@ =~= essential_mounts());
        table
    }

    /// The number of entries.
    pub fn len(&self) -> (n: usize)
        ensures
            n == self@.len(),
    {
        self.entries.len()
    }

    /// The entry at `index`, if there is one.
    pub fn get(&self, index: usize) -> (entry: Option<&MountSpec>)
        ensures
            index < self@.len() ==> entry is Some && entry->0@ == self@[index as int],
            index >= self@.len() ==> entry is None,
    {
        if index < self.entries.len() {
            Some(&self.entries[index])
        } else {
            None
        }
    }
}

} // verus!
