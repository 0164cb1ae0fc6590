//! Local extension registry: which plugins are installed, what a plugin command
//! does, and the steps of a managed installation.

use vstd::prelude::*;

use crate::cli::PluginCommand;
use crate::layout;
use crate::manifest::{self, InvocationContext, PluginAction, PluginManifest, PluginPane};
use crate::proto::{ClientMessage, LayoutSnapshot};
use crate::text;

verus! {

/// The version of this client.
pub const VERSION: &'static str = "0.2.1";

pub const MANIFEST: &'static str = "kodade-plugin.toml";

pub const REGISTRY: &'static str = "registry.toml";

/// Seconds a clone or a build may take.
pub const INSTALL_TIMEOUT_SECS: u64 = 60;

/// Seconds an action may take.
pub const ACTION_TIMEOUT_SECS: u64 = 30;

#[derive(Debug, PartialEq, Eq)]
pub struct InstalledPlugin {
    pub path: String,
    pub linked: bool,
    pub enabled: bool,
    pub version: String,
}

impl Clone for InstalledPlugin {
    fn clone(&self) -> (r: Self)
        ensures
            r == *self,
    {
        InstalledPlugin {
            path: self.path.clone(),
            linked: self.linked,
            enabled: self.enabled,
            version: self.version.clone(),
        }
    }
}

/// Registered plugins by id, in the order of their ids.
#[derive(Debug, Clone, PartialEq, Eq)]
pub struct PluginRegistry {
    pub plugins: Vec<(String, InstalledPlugin)>,
}

#[derive(Debug, Clone, PartialEq, Eq)]
pub struct LoadedPlugin {
    pub manifest: PluginManifest,
    pub installed: InstalledPlugin,
}

#[derive(Debug, Clone, PartialEq, Eq)]
pub struct PaletteAction {
    pub plugin: String,
    pub directory: String,
    pub action: PluginAction,
}

// ---------------------------------------------------------------------- directories

/// The plugin directory of a configuration directory.
pub fn root(config_dir: &str) -> (r: String)
    ensures
        r@ == text::path_join(config_dir@, "plugins"@),
{
    text::join_path(config_dir, "plugins")
}

pub fn registry_path(config_dir: &str) -> (r: String)
    ensures
        r@ == text::path_join(text::path_join(config_dir@, "plugins"@), "registry.toml"@),
{
    text::join_path(root(config_dir).as_str(), "registry.toml")
}

/// Where managed installations live.
pub fn managed_root(config_dir: &str) -> (r: String)
    ensures
        r@ == text::path_join(text::path_join(config_dir@, "plugins"@), "managed"@),
{
    text::join_path(root(config_dir).as_str(), "managed")
}

/// Checks a manifest against this version of the client.
pub fn validate_manifest(manifest: &PluginManifest) -> (r: Result<(), String>)
    ensures
        text::fault(r) == manifest::manifest_fault(*manifest, VERSION@),
{
    manifest::validate_plugin_manifest(manifest, VERSION)
}

// ------------------------------------------------------------------------- registry

/// Where an id stands among the entries.
pub open spec fn slot(entries: Seq<(String, InstalledPlugin)>, id: Seq<char>) -> Option<int>
    decreases entries.len(),
{
    if entries.len() == 0 {
        None
    } else if entries[0].0@ == id {
        Some(0)
    } else {
        match slot(entries.skip(1), id) {
            Some(i) => Some(i + 1),
            None => None,
        }
    }
}

pub open spec fn lookup(entries: Seq<(String, InstalledPlugin)>, id: Seq<char>) -> Option<
    InstalledPlugin,
> {
    match slot(entries, id) {
        Some(i) => Some(entries[i].1),
        None => None,
    }
}

/// How many leading entries come before an id.
pub open spec fn place(entries: Seq<(String, InstalledPlugin)>, id: Seq<char>) -> int
    decreases entries.len(),
{
    if entries.len() > 0 && text::precedes(entries[0].0@, id) {
        1 + place(entries.skip(1), id)
    } else {
        0
    }
}

/// The ids rise, so none occurs twice.
pub open spec fn ordered(entries: Seq<(String, InstalledPlugin)>) -> bool {
    forall|i: int, j: int|
        0 <= i < j < entries.len() ==> text::precedes(
            #[trigger] entries[i].0@,
            #[trigger] entries[j].0@,
        )
}

/// The entries with one more, which replaces one of the same id.
pub open spec fn with_entry(
    entries: Seq<(String, InstalledPlugin)>,
    id: String,
    plugin: InstalledPlugin,
) -> Seq<(String, InstalledPlugin)> {
    match slot(entries, id@) {
        Some(i) => entries.update(i, (id, plugin)),
        None => entries.insert(place(entries, id@), (id, plugin)),
    }
}

pub proof fn lemma_slot(entries: Seq<(String, InstalledPlugin)>, id: Seq<char>)
    ensures
        match slot(entries, id) {
            Some(i) => 0 <= i < entries.len() && entries[i].0@ == id,
            None => forall|i: int| 0 <= i < entries.len() ==> (#[trigger] entries[i]).0@ != id,
        },
    decreases entries.len(),
{
    if entries.len() > 0 && entries[0].0@ != id {
        lemma_slot(entries.skip(1), id);
        if slot(entries.skip(1), id) is None {
            assert forall|i: int| 0 <= i < entries.len() implies (#[trigger] entries[i]).0@
                != id by {
                if i > 0 {
                    assert(entries.skip(1)[i - 1] == entries[i]);
                }
            }
        }
    }
}

/// In ordered entries an id has at most one place.
pub proof fn lemma_slot_unique(entries: Seq<(String, InstalledPlugin)>, id: Seq<char>, i: int)
    requires
        ordered(entries),
        0 <= i < entries.len(),
        entries[i].0@ == id,
    ensures
        slot(entries, id) == Some(i),
{
    lemma_slot(entries, id);
    if slot(entries, id) is None {
        assert(entries[i].0@ != id);
    } else {
        let k = slot(entries, id)->0;
        text::lemma_precedes_irreflexive(id);
        if k < i {
            assert(text::precedes(entries[k].0@, entries[i].0@));
        } else if i < k {
            assert(text::precedes(entries[i].0@, entries[k].0@));
        }
    }
}

proof fn lemma_place(entries: Seq<(String, InstalledPlugin)>, id: Seq<char>)
    ensures
        0 <= place(entries, id) <= entries.len(),
        forall|i: int|
            0 <= i < place(entries, id) ==> text::precedes((#[trigger] entries[i]).0@, id),
        place(entries, id) < entries.len() ==> !text::precedes(
            entries[place(entries, id)].0@,
            id,
        ),
    decreases entries.len(),
{
    if entries.len() > 0 && text::precedes(entries[0].0@, id) {
        lemma_place(entries.skip(1), id);
        assert forall|i: int| 0 <= i < place(entries, id) implies text::precedes(
            (#[trigger] entries[i]).0@,
            id,
        ) by {
            if i > 0 {
                assert(entries.skip(1)[i - 1] == entries[i]);
            }
        }
    }
}

/// Adding an entry keeps the order.
proof fn lemma_insert_ordered(
    entries: Seq<(String, InstalledPlugin)>,
    id: String,
    plugin: InstalledPlugin,
)
    requires
        ordered(entries),
    ensures
        ordered(with_entry(entries, id, plugin)),
{
    lemma_slot(entries, id@);
    lemma_place(entries, id@);
    let after = with_entry(entries, id, plugin);
    match slot(entries, id@) {
        Some(k) => {
            assert forall|i: int, j: int| 0 <= i < j < after.len() implies text::precedes(
                #[trigger] after[i].0@,
                #[trigger] after[j].0@,
            ) by {
                assert(text::precedes(entries[i].0@, entries[j].0@));
            }
        },
        None => {
            let p = place(entries, id@);
            assert forall|i: int, j: int| 0 <= i < j < after.len() implies text::precedes(
                #[trigger] after[i].0@,
                #[trigger] after[j].0@,
            ) by {
                if j < p {
                    assert(text::precedes(entries[i].0@, entries[j].0@));
                } else if j == p {
                    assert(after[i] == entries[i]);
                } else if i < p {
                    assert(text::precedes(entries[i].0@, entries[j - 1].0@));
                } else if i > p {
                    assert(text::precedes(entries[i - 1].0@, entries[j - 1].0@));
                } else {
                    text::lemma_precedes_total(entries[p].0@, id@);
                    assert(entries[p].0@ != id@);
                    assert(text::precedes(id@, entries[p].0@));
                    if j - 1 > p {
                        assert(text::precedes(entries[p].0@, entries[j - 1].0@));
                        text::lemma_precedes_transitive(
                            id@,
                            entries[p].0@,
                            entries[j - 1].0@,
                        );
                    }
                }
            }
        },
    }
}

/// After an entry is added, its id leads to it and every other id leads where it
/// led before.
pub proof fn law_registration_is_visible(
    entries: Seq<(String, InstalledPlugin)>,
    id: String,
    plugin: InstalledPlugin,
    other: Seq<char>,
)
    requires
        ordered(entries),
    ensures
        lookup(with_entry(entries, id, plugin), other) == (if other == id@ {
            Some(plugin)
        } else {
            lookup(entries, other)
        }),
{
    let after = with_entry(entries, id, plugin);
    lemma_insert_ordered(entries, id, plugin);
    lemma_slot(entries, id@);
    lemma_slot(entries, other);
    lemma_place(entries, id@);
    let p = match slot(entries, id@) {
        Some(i) => i,
        None => place(entries, id@),
    };
    assert(after[p] == (id, plugin));
    if other == id@ {
        lemma_slot_unique(after, other, p);
    } else {
        match slot(entries, other) {
            Some(k) => {
                let at = if slot(entries, id@) is Some || k < p {
                    k
                } else {
                    k + 1
                };
                assert(after[at] == entries[k]);
                lemma_slot_unique(after, other, at);
            },
            None => {
                lemma_slot(after, other);
                if slot(after, other) is Some {
                    let at = slot(after, other)->0;
                    assert(at != p);
                    let k = if slot(entries, id@) is Some || at < p {
                        at
                    } else {
                        at - 1
                    };
                    assert(after[at] == entries[k]);
                    assert(entries[k].0@ != other);
                }
            },
        }
    }
}

/// Taking out an id that was just added gives back the entries as they were.
pub proof fn law_removal_undoes_registration(
    entries: Seq<(String, InstalledPlugin)>,
    id: String,
    plugin: InstalledPlugin,
)
    requires
        ordered(entries),
        slot(entries, id@) is None,
    ensures
        slot(with_entry(entries, id, plugin), id@) matches Some(at) && with_entry(
            entries,
            id,
            plugin,
        ).remove(at) == entries,
{
    lemma_insert_ordered(entries, id, plugin);
    lemma_place(entries, id@);
    let p = place(entries, id@);
    let after = with_entry(entries, id, plugin);
    assert(after[p] == (id, plugin));
    lemma_slot_unique(after, id@, p);
    assert(after.remove(p) =~= entries);
}

impl Default for PluginRegistry {
    fn default() -> (r: Self)
        ensures
            r.plugins@.len() == 0,
            r.wf(),
    {
        PluginRegistry { plugins: Vec::new() }
    }
}

pub open spec fn not_installed(id: Seq<char>) -> Seq<char> {
    "plugin "@ + id + " is not installed"@
}

fn missing(id: &str) -> (r: String)
    ensures
        r@ == not_installed(id@),
{
    text::cat3("plugin ", id, " is not installed")
}

/// What the entries become when they are added one after another.
pub open spec fn gathered(
    entries: Seq<(String, InstalledPlugin)>,
    count: int,
) -> Seq<(String, InstalledPlugin)>
    decreases count,
{
    if count <= 0 {
        Seq::empty()
    } else {
        with_entry(gathered(entries, count - 1), entries[count - 1].0, entries[count - 1].1)
    }
}

impl PluginRegistry {
    pub open spec fn wf(self) -> bool {
        ordered(self.plugins@)
    }

    /// A registry of entries in any order; a later one replaces an earlier one
    /// of the same id.
    pub fn from_entries(entries: &Vec<(String, InstalledPlugin)>) -> (r: Self)
        ensures
            r.wf(),
            r.plugins@ == gathered(entries@, entries@.len() as int),
    {
        let mut registry = PluginRegistry { plugins: Vec::new() };
        let mut i: usize = 0;
        assert(registry.plugins@ =~= Seq::empty());
        while i < entries.len()
            invariant
                i <= entries@.len(),
                registry.wf(),
                registry.plugins@ == gathered(entries@, i as int),
            decreases entries@.len() - i,
        {
            registry.insert(entries[i].0.clone(), entries[i].1.clone());
            i += 1;
        }
        registry
    }

    fn position(&self, id: &str) -> (r: Option<usize>)
        ensures
            match slot(self.plugins@, id@) {
                Some(i) => 0 <= i < self.plugins@.len() && (r matches Some(at) && at == i),
                None => r is None,
            },
    {
        let mut i: usize = 0;
        assert(self.plugins@.skip(0) =~= self.plugins@);
        while i < self.plugins.len()
            invariant
                i <= self.plugins.len(),
                slot(self.plugins@, id@) == (match slot(self.plugins@.skip(i as int), id@) {
                    Some(k) => Some(k + i),
                    None => None::<int>,
                }),
            decreases self.plugins@.len() - i,
        {
            assert(self.plugins@.skip(i as int)[0] == self.plugins@[i as int]);
            assert(self.plugins@.skip(i as int).skip(1) =~= self.plugins@.skip(i + 1));
            if text::same(self.plugins[i].0.as_str(), id) {
                return Some(i);
            }
            i += 1;
        }
        None
    }

    /// The entry of an id.
    pub fn get(&self, id: &str) -> (r: Option<&InstalledPlugin>)
        ensures
            layout::target(r) == lookup(self.plugins@, id@),
    {
        match self.position(id) {
            Some(i) => Some(&self.plugins[i].1),
            None => None,
        }
    }

    /// Adds an entry, or replaces the one of the same id.
    pub fn insert(&mut self, id: String, plugin: InstalledPlugin)
        requires
            old(self).wf(),
        ensures
            final(self).wf(),
            final(self).plugins@ == with_entry(old(self).plugins@, id, plugin),
    {
        proof {
            lemma_insert_ordered(self.plugins@, id, plugin);
            lemma_place(self.plugins@, id@);
        }
        match self.position(id.as_str()) {
            Some(i) => {
                self.plugins.set(i, (id, plugin));
            },
            None => {
                let mut i: usize = 0;
                assert(self.plugins@.skip(0) =~= self.plugins@);
                while i < self.plugins.len() && text::comes_before(
                    self.plugins[i].0.as_str(),
                    id.as_str(),
                )
                    invariant
                        i <= self.plugins.len(),
                        place(self.plugins@, id@) == i + place(
                            self.plugins@.skip(i as int),
                            id@,
                        ),
                    decreases self.plugins@.len() - i,
                {
                    assert(self.plugins@.skip(i as int)[0] == self.plugins@[i as int]);
                    assert(self.plugins@.skip(i as int).skip(1) =~= self.plugins@.skip(i + 1));
                    i += 1;
                }
                proof {
                    let rest = self.plugins@.skip(i as int);
                    if i < self.plugins.len() {
                        assert(rest[0] == self.plugins@[i as int]);
                    }
                    assert(place(rest, id@) == 0);
                }
                self.plugins.insert(i, (id, plugin));
            },
        }
    }

    /// Registers a plugin, enabled. An id is registered once.
    pub fn register(&mut self, manifest: &PluginManifest, path: String, linked: bool) -> (r: Result<
        (),
        String,
    >)
        requires
            old(self).wf(),
        ensures
            final(self).wf(),
            slot(old(self).plugins@, manifest.id@) is Some ==> *final(self) == *old(self)
                && text::fault(r) == Some(
                "plugin "@ + manifest.id@ + " is already registered"@,
            ),
            slot(old(self).plugins@, manifest.id@) is None ==> r is Ok && final(self).plugins@
                == with_entry(
                old(self).plugins@,
                manifest.id,
                (InstalledPlugin { path, linked, enabled: true, version: manifest.version }),
            ),
    {
        if self.position(manifest.id.as_str()).is_some() {
            return Err(text::cat3("plugin ", manifest.id.as_str(), " is already registered"));
        }
        self.insert(
            manifest.id.clone(),
            InstalledPlugin { path, linked, enabled: true, version: manifest.version.clone() },
        );
        Ok(())
    }

    /// Turns a plugin on or off.
    pub fn set_enabled(&mut self, id: &str, enabled: bool) -> (r: Result<(), String>)
        requires
            old(self).wf(),
        ensures
            final(self).wf(),
            match slot(old(self).plugins@, id@) {
                None => text::fault(r) == Some(not_installed(id@)) && *final(self) == *old(self),
                Some(i) => r is Ok && final(self).plugins@ == old(self).plugins@.update(
                    i,
                    (
                        old(self).plugins@[i].0,
                        (InstalledPlugin { enabled, ..old(self).plugins@[i].1 }),
                    ),
                ),
            },
    {
        match self.position(id) {
            None => Err(missing(id)),
            Some(i) => {
                let mut plugin = self.plugins[i].1.clone();
                plugin.enabled = enabled;
                let name = self.plugins[i].0.clone();
                let ghost before = self.plugins@;
                self.plugins.set(i, (name, plugin));
                assert forall|a: int, b: int| 0 <= a < b < self.plugins@.len() implies text::precedes(
                    #[trigger] self.plugins@[a].0@,
                    #[trigger] self.plugins@[b].0@,
                ) by {
                    assert(text::precedes(before[a].0@, before[b].0@));
                }
                Ok(())
            },
        }
    }

    fn take(&mut self, i: usize)
        requires
            old(self).wf(),
            i < old(self).plugins@.len(),
        ensures
            final(self).wf(),
            final(self).plugins@ == old(self).plugins@.remove(i as int),
    {
        let ghost before = self.plugins@;
        self.plugins.remove(i);
        assert forall|a: int, b: int| 0 <= a < b < self.plugins@.len() implies text::precedes(
            #[trigger] self.plugins@[a].0@,
            #[trigger] self.plugins@[b].0@,
        ) by {
            let x = if a < i {
                a
            } else {
                a + 1
            };
            let y = if b < i {
                b
            } else {
                b + 1
            };
            assert(text::precedes(before[x].0@, before[y].0@));
        }
    }

    /// Takes a link out of the registry. Managed plugins are uninstalled instead.
    pub fn unlink(&mut self, id: &str) -> (r: Result<(), String>)
        requires
            old(self).wf(),
        ensures
            final(self).wf(),
            match slot(old(self).plugins@, id@) {
                None => text::fault(r) == Some(not_installed(id@)) && *final(self) == *old(self),
                Some(i) => if old(self).plugins@[i].1.linked {
                    r is Ok && final(self).plugins@ == old(self).plugins@.remove(i)
                } else {
                    text::fault(r) == Some(
                        "plugin "@ + id@ + " is managed; use plugin uninstall"@,
                    ) && *final(self) == *old(self)
                },
            },
    {
        match self.position(id) {
            None => Err(missing(id)),
            Some(i) => {
                if !self.plugins[i].1.linked {
                    return Err(text::cat3("plugin ", id, " is managed; use plugin uninstall"));
                }
                self.take(i);
                Ok(())
            },
        }
    }

    /// The directory of a managed plugin. Linked directories are protected.
    pub fn managed_path(&self, id: &str) -> (r: Result<String, String>)
        ensures
            match lookup(self.plugins@, id@) {
                None => text::fault(r) == Some(not_installed(id@)),
                Some(plugin) => if plugin.linked {
                    text::fault(r) == Some(
                        "plugin "@ + id@
                            + " is linked; use plugin unlink (its directory is protected)"@,
                    )
                } else {
                    r matches Ok(path) && path@ == plugin.path@
                },
            },
    {
        match self.position(id) {
            None => Err(missing(id)),
            Some(i) => {
                if self.plugins[i].1.linked {
                    return Err(
                        text::cat3(
                            "plugin ",
                            id,
                            " is linked; use plugin unlink (its directory is protected)",
                        ),
                    );
                }
                Ok(self.plugins[i].1.path.clone())
            },
        }
    }

    /// Takes an id out of the registry, where it is there.
    pub fn remove(&mut self, id: &str)
        requires
            old(self).wf(),
        ensures
            final(self).wf(),
            match slot(old(self).plugins@, id@) {
                None => *final(self) == *old(self),
                Some(i) => final(self).plugins@ == old(self).plugins@.remove(i),
            },
    {
        if let Some(i) = self.position(id) {
            self.take(i);
        }
    }
}

// ------------------------------------------------------------- managed directories

/// The directory below `managed` that holds `path`, both without links. Only what
/// lies below `managed` is owned.
pub open spec fn owned_root(managed: Seq<char>, path: Seq<char>) -> Result<Seq<char>, Seq<char>> {
    let base = text::path_parts(managed);
    let parts = text::path_parts(path);
    if text::rooted(managed) != text::rooted(path) || !base.is_prefix_of(parts) {
        Err("plugin is not in Ködade's managed plugin directory"@)
    } else if parts.len() == base.len() {
        Err("plugin path is the managed directory"@)
    } else if parts[base.len() as int] == ".."@ {
        Err("invalid managed plugin path"@)
    } else {
        Ok(text::path_join(managed, parts[base.len() as int]))
    }
}

pub open spec fn text_result(r: Result<String, String>) -> Result<Seq<char>, Seq<char>> {
    match r {
        Ok(s) => Ok(s@),
        Err(message) => Err(message@),
    }
}

/// The whole clone that a managed plugin belongs to.
pub fn managed_install_root_in(managed: &str, path: &str) -> (r: Result<String, String>)
    ensures
        text_result(r) == owned_root(managed@, path@),
{
    let base = text::parts_of(managed);
    let parts = text::parts_of(path);
    let ghost b = text::texts(base@);
    let ghost p = text::texts(parts@);
    if text::is_rooted(managed) != text::is_rooted(path) {
        return Err("plugin is not in Ködade's managed plugin directory".to_owned());
    }
    if parts.len() < base.len() {
        assert(!b.is_prefix_of(p));
        return Err("plugin is not in Ködade's managed plugin directory".to_owned());
    }
    let mut i: usize = 0;
    while i < base.len()
        invariant
            i <= base@.len() <= parts@.len(),
            b == text::texts(base@),
            p == text::texts(parts@),
            b == text::path_parts(managed@),
            p == text::path_parts(path@),
            text::rooted(managed@) == text::rooted(path@),
            forall|k: int| 0 <= k < i ==> b[k] == p[k],
        decreases base@.len() - i,
    {
        if !text::same(base[i].as_str(), parts[i].as_str()) {
            assert(b[i as int] != p[i as int]);
            assert(!b.is_prefix_of(p)) by {
                if b.is_prefix_of(p) {
                    assert(b[i as int] == p.subrange(0, b.len() as int)[i as int]);
                }
            }
            return Err("plugin is not in Ködade's managed plugin directory".to_owned());
        }
        i += 1;
    }
    assert(b =~= p.subrange(0, b.len() as int));
    if parts.len() == base.len() {
        return Err("plugin path is the managed directory".to_owned());
    }
    let first = &parts[base.len()];
    assert(first@ == p[b.len() as int]);
    if text::same(first.as_str(), "..") {
        return Err("invalid managed plugin path".to_owned());
    }
    Ok(text::join_path(managed, first.as_str()))
}

// ------------------------------------------------------------------ loaded plugins

/// A registered plugin as its manifest was read.
#[derive(Debug, PartialEq, Eq)]
pub struct ReadPlugin {
    pub id: String,
    pub installed: InstalledPlugin,
    pub manifest: Result<PluginManifest, String>,
}

/// What is wrong with a registered plugin.
pub open spec fn load_fault(read: ReadPlugin) -> Option<Seq<char>> {
    match read.manifest {
        Err(cause) => Some("load plugin "@ + read.id@ + ": "@ + cause@),
        Ok(manifest) => if manifest.id@ != read.id@ {
            Some(
                "plugin registry id "@ + read.id@ + " does not match manifest "@ + manifest.id@,
            )
        } else {
            None
        },
    }
}

/// What is wrong with the first plugin that cannot be loaded.
pub open spec fn first_load_fault(reads: Seq<ReadPlugin>) -> Option<Seq<char>>
    decreases reads.len(),
{
    if reads.len() == 0 {
        None
    } else {
        match load_fault(reads[0]) {
            Some(fault) => Some(fault),
            None => first_load_fault(reads.skip(1)),
        }
    }
}

fn load(read: ReadPlugin) -> (r: Result<LoadedPlugin, String>)
    ensures
        text::fault(r) == load_fault(read),
        r matches Ok(plugin) ==> read.manifest == Ok::<PluginManifest, String>(plugin.manifest)
            && plugin.installed == read.installed,
{
    match read.manifest {
        Err(cause) => {
            let mut message = text::cat3("load plugin ", read.id.as_str(), ": ");
            message.append(cause.as_str());
            Err(message)
        },
        Ok(manifest) => {
            if !text::same(manifest.id.as_str(), read.id.as_str()) {
                let mut message = text::cat3(
                    "plugin registry id ",
                    read.id.as_str(),
                    " does not match manifest ",
                );
                message.append(manifest.id.as_str());
                return Err(message);
            }
            Ok(LoadedPlugin { manifest, installed: read.installed })
        },
    }
}

/// Every registered plugin with its manifest. One that cannot be loaded is
/// reported in place of all.
pub fn installed(reads: Vec<ReadPlugin>) -> (r: Result<Vec<LoadedPlugin>, String>)
    ensures
        text::fault(r) == first_load_fault(reads@),
        r matches Ok(list) ==> list@.len() == reads@.len() && forall|i: int|
            0 <= i < list@.len() ==> (#[trigger] list@[i]).installed == reads@[i].installed
                && reads@[i].manifest == Ok::<PluginManifest, String>(list@[i].manifest),
{
    let ghost all = reads@;
    let mut rest = reads;
    let mut list: Vec<LoadedPlugin> = Vec::new();
    assert(all.skip(0) =~= all);
    while rest.len() > 0
        invariant
            all == reads@,
            rest@.len() + list@.len() == all.len(),
            rest@ == all.skip(list@.len() as int),
            first_load_fault(all) == first_load_fault(rest@),
            forall|i: int|
                0 <= i < list@.len() ==> (#[trigger] list@[i]).installed == all[i].installed
                    && all[i].manifest == Ok::<PluginManifest, String>(list@[i].manifest),
        decreases rest@.len(),
    {
        let ghost before = rest@;
        let ghost n = list@.len() as int;
        let read = rest.remove(0);
        assert(read == all[n] && read == before[0]);
        assert(rest@ =~= before.skip(1));
        assert(rest@ =~= all.skip(n + 1));
        match load(read) {
            Ok(plugin) => list.push(plugin),
            Err(message) => return Err(message),
        }
    }
    Ok(list)
}

/// Where a plugin of that id stands first.
pub open spec fn plugin_with(plugins: Seq<LoadedPlugin>, id: Seq<char>) -> Option<int>
    decreases plugins.len(),
{
    if plugins.len() == 0 {
        None
    } else if plugins[0].manifest.id@ == id {
        Some(0)
    } else {
        match plugin_with(plugins.skip(1), id) {
            Some(i) => Some(i + 1),
            None => None,
        }
    }
}

pub open spec fn action_with(actions: Seq<PluginAction>, id: Seq<char>) -> Option<int>
    decreases actions.len(),
{
    if actions.len() == 0 {
        None
    } else if actions[0].id@ == id {
        Some(0)
    } else {
        match action_with(actions.skip(1), id) {
            Some(i) => Some(i + 1),
            None => None,
        }
    }
}

pub open spec fn pane_with(panes: Seq<PluginPane>, name: Seq<char>) -> Option<int>
    decreases panes.len(),
{
    if panes.len() == 0 {
        None
    } else if panes[0].name@ == name {
        Some(0)
    } else {
        match pane_with(panes.skip(1), name) {
            Some(i) => Some(i + 1),
            None => None,
        }
    }
}

/// Why a plugin cannot be used, if it cannot.
pub open spec fn plugin_fault(plugins: Seq<LoadedPlugin>, id: Seq<char>) -> Option<Seq<char>> {
    match plugin_with(plugins, id) {
        None => Some(not_installed(id)),
        Some(i) => if plugins[i].installed.enabled {
            None
        } else {
            Some("plugin "@ + id + " is disabled"@)
        },
    }
}

fn enabled_plugin<'a>(plugins: &'a Vec<LoadedPlugin>, id: &str) -> (r: Result<
    &'a LoadedPlugin,
    String,
>)
    ensures
        text::fault(r) == plugin_fault(plugins@, id@),
        r matches Ok(plugin) ==> plugin_with(plugins@, id@) matches Some(i) && *plugin
            == plugins@[i],
{
    let mut i: usize = 0;
    assert(plugins@.skip(0) =~= plugins@);
    while i < plugins.len()
        invariant
            i <= plugins@.len(),
            plugin_with(plugins@, id@) == (match plugin_with(plugins@.skip(i as int), id@) {
                Some(k) => Some(k + i),
                None => None::<int>,
            }),
        decreases plugins@.len() - i,
    {
        assert(plugins@.skip(i as int)[0] == plugins@[i as int]);
        assert(plugins@.skip(i as int).skip(1) =~= plugins@.skip(i + 1));
        if text::same(plugins[i].manifest.id.as_str(), id) {
            if !plugins[i].installed.enabled {
                return Err(text::cat3("plugin ", id, " is disabled"));
            }
            return Ok(&plugins[i]);
        }
        i += 1;
    }
    Err(missing(id))
}

/// An action of an enabled plugin.
pub fn action<'a>(plugins: &'a Vec<LoadedPlugin>, id: &str, name: &str) -> (r: Result<
    (&'a LoadedPlugin, &'a PluginAction),
    String,
>)
    ensures
        match plugin_fault(plugins@, id@) {
            Some(fault) => text::fault(r) == Some(fault),
            None => {
                let plugin = plugins@[plugin_with(plugins@, id@)->0];
                match action_with(plugin.manifest.actions@, name@) {
                    None => text::fault(r) == Some(
                        "plugin "@ + id@ + " has no action "@ + name@,
                    ),
                    Some(k) => r matches Ok(got) && *got.0 == plugin && *got.1
                        == plugin.manifest.actions@[k],
                }
            },
        },
{
    let plugin = match enabled_plugin(plugins, id) {
        Ok(plugin) => plugin,
        Err(message) => return Err(message),
    };
    let actions = &plugin.manifest.actions;
    let mut i: usize = 0;
    assert(actions@.skip(0) =~= actions@);
    while i < actions.len()
        invariant
            i <= actions@.len(),
            *actions == plugin.manifest.actions,
            plugin_fault(plugins@, id@) is None,
            plugin_with(plugins@, id@) matches Some(p) && *plugin == plugins@[p],
            action_with(actions@, name@) == (match action_with(
                actions@.skip(i as int),
                name@,
            ) {
                Some(k) => Some(k + i),
                None => None::<int>,
            }),
        decreases actions@.len() - i,
    {
        assert(actions@.skip(i as int)[0] == actions@[i as int]);
        assert(actions@.skip(i as int).skip(1) =~= actions@.skip(i + 1));
        if text::same(actions[i].id.as_str(), name) {
            return Ok((plugin, &actions[i]));
        }
        i += 1;
    }
    let mut message = text::cat3("plugin ", id, " has no action ");
    message.append(name);
    Err(message)
}

/// A named pane of an enabled plugin.
pub fn pane<'a>(plugins: &'a Vec<LoadedPlugin>, id: &str, name: &str) -> (r: Result<
    (&'a LoadedPlugin, &'a PluginPane),
    String,
>)
    ensures
        match plugin_fault(plugins@, id@) {
            Some(fault) => text::fault(r) == Some(fault),
            None => {
                let plugin = plugins@[plugin_with(plugins@, id@)->0];
                match pane_with(plugin.manifest.panes@, name@) {
                    None => text::fault(r) == Some(
                        "plugin "@ + id@ + " has no pane "@ + name@,
                    ),
                    Some(k) => r matches Ok(got) && *got.0 == plugin && *got.1
                        == plugin.manifest.panes@[k],
                }
            },
        },
{
    let plugin = match enabled_plugin(plugins, id) {
        Ok(plugin) => plugin,
        Err(message) => return Err(message),
    };
    let panes = &plugin.manifest.panes;
    let mut i: usize = 0;
    assert(panes@.skip(0) =~= panes@);
    while i < panes.len()
        invariant
            i <= panes@.len(),
            *panes == plugin.manifest.panes,
            plugin_fault(plugins@, id@) is None,
            plugin_with(plugins@, id@) matches Some(p) && *plugin == plugins@[p],
            pane_with(panes@, name@) == (match pane_with(panes@.skip(i as int), name@) {
                Some(k) => Some(k + i),
                None => None::<int>,
            }),
        decreases panes@.len() - i,
    {
        assert(panes@.skip(i as int)[0] == panes@[i as int]);
        assert(panes@.skip(i as int).skip(1) =~= panes@.skip(i + 1));
        if text::same(panes[i].name.as_str(), name) {
            return Ok((plugin, &panes[i]));
        }
        i += 1;
    }
    let mut message = text::cat3("plugin ", id, " has no pane ");
    message.append(name);
    Err(message)
}

/// The actions that the palette offers: plugin and action indices, those of
/// enabled plugins, in order.
pub open spec fn offered(plugins: Seq<LoadedPlugin>, count: int) -> Seq<(int, int)>
    decreases count,
{
    if count <= 0 {
        Seq::empty()
    } else if plugins[count - 1].installed.enabled {
        offered(plugins, count - 1) + Seq::new(
            plugins[count - 1].manifest.actions@.len(),
            |k: int| (count - 1, k),
        )
    } else {
        offered(plugins, count - 1)
    }
}

/// The entry is the action that the indices name.
pub open spec fn offers(entry: PaletteAction, plugins: Seq<LoadedPlugin>, at: (int, int)) -> bool {
    let plugin = plugins[at.0];
    &&& entry.plugin@ == plugin.manifest.id@
    &&& entry.directory@ == plugin.installed.path@
    &&& entry.action.same_as(plugin.manifest.actions@[at.1])
}

/// The actions of enabled plugins.
pub fn palette_actions(plugins: &Vec<LoadedPlugin>) -> (r: Vec<PaletteAction>)
    ensures
        r@.len() == offered(plugins@, plugins@.len() as int).len(),
        forall|k: int|
            0 <= k < r@.len() ==> offers(
                #[trigger] r@[k],
                plugins@,
                offered(plugins@, plugins@.len() as int)[k],
            ),
{
    let mut out: Vec<PaletteAction> = Vec::new();
    let mut i: usize = 0;
    while i < plugins.len()
        invariant
            i <= plugins@.len(),
            out@.len() == offered(plugins@, i as int).len(),
            forall|k: int|
                0 <= k < out@.len() ==> offers(
                    #[trigger] out@[k],
                    plugins@,
                    offered(plugins@, i as int)[k],
                ),
        decreases plugins@.len() - i,
    {
        if plugins[i].installed.enabled {
            let ghost base = offered(plugins@, i as int);
            let ghost whole = offered(plugins@, i + 1);
            let mut j: usize = 0;
            while j < plugins[i].manifest.actions.len()
                invariant
                    i < plugins@.len(),
                    j <= plugins@[i as int].manifest.actions@.len(),
                    base == offered(plugins@, i as int),
                    whole == base + Seq::new(
                        plugins@[i as int].manifest.actions@.len(),
                        |k: int| (i as int, k),
                    ),
                    out@.len() == base.len() + j,
                    forall|k: int|
                        0 <= k < out@.len() ==> offers(#[trigger] out@[k], plugins@, whole[k]),
                decreases plugins@[i as int].manifest.actions@.len() - j,
            {
                assert(whole[base.len() + j] == (i as int, j as int));
                out.push(
                    PaletteAction {
                        plugin: plugins[i].manifest.id.clone(),
                        directory: plugins[i].installed.path.clone(),
                        action: plugins[i].manifest.actions[j].clone(),
                    },
                );
                j += 1;
            }
        }
        i += 1;
    }
    out
}

/// A context has what an action asks for.
pub open spec fn runs_in(
    plugins: Seq<LoadedPlugin>,
    context: InvocationContext,
    at: (int, int),
) -> bool {
    context.has_scopes(plugins[at.0].manifest.actions@[at.1].contexts@)
}

/// The offered actions that run in a context, in order.
pub open spec fn available(plugins: Seq<LoadedPlugin>, context: InvocationContext) -> Seq<
    (int, int),
> {
    offered(plugins, plugins.len() as int).filter(
        |at: (int, int)| runs_in(plugins, context, at),
    )
}

/// The actions of enabled plugins that a context supports.
pub fn palette_actions_for(plugins: &Vec<LoadedPlugin>, context: &InvocationContext) -> (r: Vec<
    PaletteAction,
>)
    ensures
        r@.len() == available(plugins@, *context).len(),
        forall|k: int|
            0 <= k < r@.len() ==> offers(
                #[trigger] r@[k],
                plugins@,
                available(plugins@, *context)[k],
            ),
{
    let all = palette_actions(plugins);
    let ghost every = offered(plugins@, plugins@.len() as int);
    let ghost fitting = |at: (int, int)| runs_in(plugins@, *context, at);
    let mut out: Vec<PaletteAction> = Vec::new();
    let mut i: usize = 0;
    assert(every.take(0).filter(fitting) =~= Seq::empty()) by {
        reveal(Seq::filter);
    }
    while i < all.len()
        invariant
            i <= all@.len(),
            all@.len() == every.len(),
            fitting == (|at: (int, int)| runs_in(plugins@, *context, at)),
            forall|k: int| 0 <= k < all@.len() ==> offers(#[trigger] all@[k], plugins@, every[k]),
            out@.len() == every.take(i as int).filter(fitting).len(),
            forall|k: int|
                0 <= k < out@.len() ==> offers(
                    #[trigger] out@[k],
                    plugins@,
                    every.take(i as int).filter(fitting)[k],
                ),
        decreases all@.len() - i,
    {
        proof {
            reveal(Seq::filter);
            assert(every.take(i + 1).drop_last() =~= every.take(i as int));
            assert(offers(all@[i as int], plugins@, every[i as int]));
        }
        if context.supports(&all[i].action) {
            out.push(
                PaletteAction {
                    plugin: all[i].plugin.clone(),
                    directory: all[i].directory.clone(),
                    action: all[i].action.clone(),
                },
            );
        }
        i += 1;
    }
    assert(every.take(i as int) =~= every);
    out
}

proof fn lemma_offered(plugins: Seq<LoadedPlugin>, count: int, at: (int, int))
    requires
        0 <= count <= plugins.len(),
    ensures
        offered(plugins, count).contains(at) <==> 0 <= at.0 < count
            && plugins[at.0].installed.enabled && 0 <= at.1
            < plugins[at.0].manifest.actions@.len(),
    decreases count,
{
    if count > 0 {
        lemma_offered(plugins, count - 1, at);
        let before = offered(plugins, count - 1);
        let now = offered(plugins, count);
        if plugins[count - 1].installed.enabled {
            let more = Seq::new(
                plugins[count - 1].manifest.actions@.len(),
                |k: int| (count - 1, k),
            );
            assert(now == before + more);
            if before.contains(at) {
                let k = before.index_of(at);
                assert(now[k] == at);
            }
            if at.0 == count - 1 && 0 <= at.1 < more.len() {
                assert(now[before.len() + at.1] == at);
            }
            if now.contains(at) {
                let k = now.index_of(at);
                if k < before.len() {
                    assert(before[k] == at);
                } else {
                    assert(more[k - before.len()] == at);
                }
            }
        }
    }
}

/// An action is offered in a context exactly when its plugin is enabled and the context
/// has what it asks for.
pub proof fn law_actions_keep_to_their_contexts(
    plugins: Seq<LoadedPlugin>,
    context: InvocationContext,
    plugin: int,
    action: int,
)
    requires
        0 <= plugin < plugins.len(),
        0 <= action < plugins[plugin].manifest.actions@.len(),
    ensures
        available(plugins, context).contains((plugin, action)) <==> (
        plugins[plugin].installed.enabled && context.has_scopes(
            plugins[plugin].manifest.actions@[action].contexts@,
        )),
{
    let every = offered(plugins, plugins.len() as int);
    let fitting = |at: (int, int)| runs_in(plugins, context, at);
    lemma_offered(plugins, plugins.len() as int, (plugin, action));
    let at = (plugin, action);
    if every.filter(fitting).contains(at) {
        every.lemma_filter_contains_rev(fitting, at);
        every.lemma_filter_pred(fitting, every.filter(fitting).index_of(at));
    }
    if every.contains(at) && fitting(at) {
        every.lemma_filter_contains(fitting, every.index_of(at));
    }
}

// ------------------------------------------------------------------ plugin commands

/// The words of a shell command for a pane, without plugin data in shell source:
/// `env` supplies the context, and the fixed wrapper moves into the plugin
/// directory before it runs the declared command. The daemon supplies
/// `KODADE_PANE` for the new pane, so the pane in focus has a name of its own.
pub open spec fn pane_words(
    plugin: Seq<char>,
    directory: Seq<char>,
    command: Seq<char>,
    action: Option<Seq<char>>,
    workspace: Seq<char>,
    pane: Seq<char>,
) -> Seq<Seq<char>> {
    seq![
        "env"@,
        "KODADE_PLUGIN="@ + plugin,
        "KODADE_PLUGIN_DIR="@ + directory,
        "KODADE_PLUGIN_COMMAND="@ + command,
        "KODADE_WORKSPACE="@ + workspace,
        "KODADE_TARGET_PANE="@ + pane,
    ] + (match action {
        Some(id) => seq!["KODADE_ACTION="@ + id],
        None => Seq::empty(),
    }) + seq!["sh"@, "-lc"@, WRAPPER@]
}

/// Moves into the plugin directory and runs the declared command.
pub const WRAPPER: &'static str = "cd \"$KODADE_PLUGIN_DIR\" && sh -lc \"$KODADE_PLUGIN_COMMAND\"";

pub fn pane_command(
    plugin: &str,
    directory: &str,
    command: &str,
    action: Option<&str>,
    workspace: &str,
    pane: &str,
) -> (r: Vec<String>)
    ensures
        text::texts(r@) == pane_words(
            plugin@,
            directory@,
            command@,
            (match action {
                Some(id) => Some(id@),
                None => None,
            }),
            workspace@,
            pane@,
        ),
{
    let mut args: Vec<String> = vec![
        "env".to_owned(),
        text::cat("KODADE_PLUGIN=", plugin),
        text::cat("KODADE_PLUGIN_DIR=", directory),
        text::cat("KODADE_PLUGIN_COMMAND=", command),
        text::cat("KODADE_WORKSPACE=", workspace),
        text::cat("KODADE_TARGET_PANE=", pane),
    ];
    if let Some(id) = action {
        args.push(text::cat("KODADE_ACTION=", id));
    }
    args.push("sh".to_owned());
    args.push("-lc".to_owned());
    args.push(WRAPPER.to_owned());
    assert(text::texts(args@) =~= pane_words(
        plugin@,
        directory@,
        command@,
        (match action {
            Some(id) => Some(id@),
            None => None,
        }),
        workspace@,
        pane@,
    ));
    args
}

/// Plugin data never reaches shell source: the words after `-lc` are the same for
/// every plugin, and each piece of data is a word of its own.
pub proof fn law_plugin_data_is_never_shell_source(
    plugin: Seq<char>,
    directory: Seq<char>,
    command: Seq<char>,
    action: Option<Seq<char>>,
    workspace: Seq<char>,
    pane: Seq<char>,
)
    ensures
        ({
            let words = pane_words(plugin, directory, command, action, workspace, pane);
            &&& words.last() == WRAPPER@
            &&& words[words.len() - 2] == "-lc"@
            &&& words[words.len() - 3] == "sh"@
            &&& words[3] == "KODADE_PLUGIN_COMMAND="@ + command
        }),
{
}

/// The name of the active workspace and the id of the pane in focus; empty where
/// there is none.
pub open spec fn origin(layout: LayoutSnapshot) -> (Seq<char>, Seq<char>) {
    (
        match layout::workspace_with(layout.workspaces@, layout.active_workspace) {
            Some(workspace) => workspace.name@,
            None => Seq::empty(),
        },
        match layout::pane_in_focus(layout.panes@) {
            Some(pane) => text::decimal(pane.id.0 as nat),
            None => Seq::empty(),
        },
    )
}

fn origin_of(layout: &LayoutSnapshot) -> (r: (String, String))
    ensures
        (r.0@, r.1@) == origin(*layout),
{
    let workspace = match layout::find_workspace(&layout.workspaces, layout.active_workspace) {
        Some(workspace) => workspace.name.clone(),
        None => String::new(),
    };
    let pane = match layout::find_focused(&layout.panes) {
        Some(pane) => text::decimal_text(pane.id.0),
        None => String::new(),
    };
    (workspace, pane)
}

/// The message opens a new tab that runs the words, under a name.
pub open spec fn opens_pane(message: ClientMessage, words: Seq<Seq<char>>, name: Seq<char>) -> bool {
    message matches ClientMessage::NewPane {
        workspace: None,
        tab: None,
        split: None,
        command: Some(command),
        name: Some(given),
        context: None,
    } && text::texts(command@) == words && given@ == name
}

fn new_pane(command: Vec<String>, name: String) -> (r: ClientMessage)
    ensures
        opens_pane(r, text::texts(command@), name@),
{
    ClientMessage::NewPane {
        workspace: None,
        tab: None,
        split: None,
        command: Some(command),
        name: Some(name),
        context: None,
    }
}

/// The request that opens a plugin's pane.
pub fn pane_request(plugin: &LoadedPlugin, pane: &PluginPane, layout: &LayoutSnapshot) -> (r:
    ClientMessage)
    ensures
        opens_pane(
            r,
            pane_words(
                plugin.manifest.id@,
                plugin.installed.path@,
                pane.command@,
                None,
                origin(*layout).0,
                origin(*layout).1,
            ),
            plugin.manifest.name@ + " · "@ + pane.name@,
        ),
{
    let (workspace, focused) = origin_of(layout);
    new_pane(
        pane_command(
            plugin.manifest.id.as_str(),
            plugin.installed.path.as_str(),
            pane.command.as_str(),
            None,
            workspace.as_str(),
            focused.as_str(),
        ),
        text::cat3(plugin.manifest.name.as_str(), " · ", pane.name.as_str()),
    )
}

/// How an action is run.
#[derive(Debug, Clone, PartialEq, Eq)]
pub enum ActionRun {
    /// In a pane of its own.
    Pane(ClientMessage),
    /// As a bounded child process in the plugin directory.
    Process { arguments: Vec<String>, directory: String, environment: Vec<(String, String)> },
}

pub open spec fn pair_texts(v: Seq<(String, String)>) -> Seq<(Seq<char>, Seq<char>)> {
    v.map_values(|p: (String, String)| (p.0@, p.1@))
}

/// The environment that an action's process sees.
pub open spec fn action_environment(
    plugin: Seq<char>,
    action: Seq<char>,
    session: Seq<char>,
    socket: Seq<char>,
    layout: LayoutSnapshot,
) -> Seq<(Seq<char>, Seq<char>)> {
    seq![
        ("KODADE_PLUGIN"@, plugin),
        ("KODADE_ACTION"@, action),
        ("KODADE_SESSION"@, session),
        ("KODADE_SOCKET"@, socket),
        ("KODADE_WORKSPACE"@, origin(layout).0),
        ("KODADE_TAB"@, text::decimal(layout.active_tab.0 as nat)),
        ("KODADE_PANE"@, origin(layout).1),
    ]
}

/// Plans the run of an action: in a pane where the manifest says so, else as a
/// process.
pub fn run_request(
    plugin: &LoadedPlugin,
    action: &PluginAction,
    layout: &LayoutSnapshot,
    session: &str,
    socket: &str,
) -> (r: ActionRun)
    ensures
        action.pane ==> (r matches ActionRun::Pane(message) && opens_pane(
            message,
            pane_words(
                plugin.manifest.id@,
                plugin.installed.path@,
                action.command@,
                Some(action.id@),
                origin(*layout).0,
                origin(*layout).1,
            ),
            plugin.manifest.name@ + " · "@ + action.name@,
        )),
        !action.pane ==> (r matches ActionRun::Process { arguments, directory, environment }
            && text::texts(arguments@) == seq!["-lc"@, action.command@] && directory@
            == plugin.installed.path@ && pair_texts(environment@) == action_environment(
            plugin.manifest.id@,
            action.id@,
            session@,
            socket@,
            *layout,
        )),
{
    let (workspace, focused) = origin_of(layout);
    if action.pane {
        return ActionRun::Pane(
            new_pane(
                pane_command(
                    plugin.manifest.id.as_str(),
                    plugin.installed.path.as_str(),
                    action.command.as_str(),
                    Some(action.id.as_str()),
                    workspace.as_str(),
                    focused.as_str(),
                ),
                text::cat3(plugin.manifest.name.as_str(), " · ", action.name.as_str()),
            ),
        );
    }
    let arguments: Vec<String> = vec!["-lc".to_owned(), action.command.clone()];
    assert(text::texts(arguments@) =~= seq!["-lc"@, action.command@]);
    let environment: Vec<(String, String)> = vec![
        ("KODADE_PLUGIN".to_owned(), plugin.manifest.id.clone()),
        ("KODADE_ACTION".to_owned(), action.id.clone()),
        ("KODADE_SESSION".to_owned(), session.to_owned()),
        ("KODADE_SOCKET".to_owned(), socket.to_owned()),
        ("KODADE_WORKSPACE".to_owned(), workspace),
        ("KODADE_TAB".to_owned(), text::decimal_text(layout.active_tab.0)),
        ("KODADE_PANE".to_owned(), focused),
    ];
    assert(pair_texts(environment@) =~= action_environment(
        plugin.manifest.id@,
        action.id@,
        session@,
        socket@,
        *layout,
    ));
    ActionRun::Process { arguments, directory: plugin.installed.path.clone(), environment }
}

/// What to do first for a plugin command.
#[derive(Debug, Clone, Copy, PartialEq, Eq, Structural)]
pub enum PluginStep {
    /// List the installed plugins, as JSON or as lines.
    List { json: bool },
    /// Register a directory.
    Link,
    /// Clone, build and register.
    Install,
    SetEnabled { enabled: bool },
    Unlink,
    Uninstall,
    /// Find the pane, ask for the layout, open the pane.
    OpenPane,
    /// Find the action, ask for the layout, run the action.
    RunAction,
}

pub open spec fn first_step(command: PluginCommand) -> PluginStep {
    match command {
        PluginCommand::List { json } => PluginStep::List { json },
        PluginCommand::Link { .. } => PluginStep::Link,
        PluginCommand::Install { .. } => PluginStep::Install,
        PluginCommand::Enable { .. } => PluginStep::SetEnabled { enabled: true },
        PluginCommand::Disable { .. } => PluginStep::SetEnabled { enabled: false },
        PluginCommand::Unlink { .. } => PluginStep::Unlink,
        PluginCommand::Uninstall { .. } => PluginStep::Uninstall,
        PluginCommand::Pane { .. } => PluginStep::OpenPane,
        PluginCommand::Run { .. } => PluginStep::RunAction,
    }
}

/// Plugins run on the machine they are installed on, so commands that start one
/// refuse a remote session.
pub open spec fn refusal(command: PluginCommand, remote: bool) -> Option<Seq<char>> {
    match command {
        PluginCommand::Pane { .. } if remote => Some(
            "plugin pane is local-only; install the extension on the remote host and run it there"@,
        ),
        PluginCommand::Run { .. } if remote => Some(
            "plugin run is local-only; install the extension on the remote host and run it there"@,
        ),
        _ => None,
    }
}

/// What a plugin command begins with.
pub fn command(requested: &PluginCommand, remote: bool) -> (r: Result<PluginStep, String>)
    ensures
        text::fault(r) == refusal(*requested, remote),
        r matches Ok(step) ==> step == first_step(*requested),
{
    match requested {
        PluginCommand::List { json } => Ok(PluginStep::List { json: *json }),
        PluginCommand::Link { .. } => Ok(PluginStep::Link),
        PluginCommand::Install { .. } => Ok(PluginStep::Install),
        PluginCommand::Enable { .. } => Ok(PluginStep::SetEnabled { enabled: true }),
        PluginCommand::Disable { .. } => Ok(PluginStep::SetEnabled { enabled: false }),
        PluginCommand::Unlink { .. } => Ok(PluginStep::Unlink),
        PluginCommand::Uninstall { .. } => Ok(PluginStep::Uninstall),
        PluginCommand::Pane { .. } => if remote {
            Err(
                "plugin pane is local-only; install the extension on the remote host and run it there".to_owned(),
            )
        } else {
            Ok(PluginStep::OpenPane)
        },
        PluginCommand::Run { .. } => if remote {
            Err(
                "plugin run is local-only; install the extension on the remote host and run it there".to_owned(),
            )
        } else {
            Ok(PluginStep::RunAction)
        },
    }
}

/// What is printed once a plugin command succeeded; `id` and `version` are those
/// of the manifest that was linked or installed.
pub open spec fn report_text(command: PluginCommand, id: Seq<char>, version: Seq<char>) -> Option<
    Seq<char>,
> {
    match command {
        PluginCommand::Link { .. } => Some("linked "@ + id + " "@ + version),
        PluginCommand::Install { .. } => Some("installed "@ + id + " "@ + version),
        PluginCommand::Enable { id: given } => Some("enabled "@ + given@),
        PluginCommand::Disable { id: given } => Some("disabled "@ + given@),
        PluginCommand::Unlink { id: given } => Some("unlinked "@ + given@),
        PluginCommand::Uninstall { id: given } => Some("uninstalled "@ + given@),
        _ => None,
    }
}

pub fn report(command: &PluginCommand, id: &str, version: &str) -> (r: Option<String>)
    ensures
        text::option_text(r) == report_text(*command, id@, version@),
{
    match command {
        PluginCommand::Link { .. } => {
            let mut line = text::cat3("linked ", id, " ");
            line.append(version);
            Some(line)
        },
        PluginCommand::Install { .. } => {
            let mut line = text::cat3("installed ", id, " ");
            line.append(version);
            Some(line)
        },
        PluginCommand::Enable { id: given } => Some(text::cat("enabled ", given.as_str())),
        PluginCommand::Disable { id: given } => Some(text::cat("disabled ", given.as_str())),
        PluginCommand::Unlink { id: given } => Some(text::cat("unlinked ", given.as_str())),
        PluginCommand::Uninstall { id: given } => Some(text::cat("uninstalled ", given.as_str())),
        _ => None,
    }
}

/// One line of the plugin list.
pub fn list_line(plugin: &LoadedPlugin) -> (r: String)
    ensures
        r@ == text::padded_to(plugin.manifest.id@, 20) + " "@ + text::padded_to(
            (if plugin.installed.enabled {
                "enabled"@
            } else {
                "disabled"@
            }),
            10,
        ) + " "@ + plugin.installed.path@,
{
    let state = text::padded(
        if plugin.installed.enabled {
            "enabled"
        } else {
            "disabled"
        },
        10,
    );
    let id = text::padded(plugin.manifest.id.as_str(), 20);
    let mut line = text::cat3(id.as_str(), " ", state.as_str());
    line.append(" ");
    line.append(plugin.installed.path.as_str());
    line
}

/// What is reported of an action whose process failed.
pub fn action_failure(action: &PluginAction, status: &str) -> (r: String)
    ensures
        r@ == "plugin action "@ + action.id@ + " failed with "@ + status@,
{
    let mut message = text::cat3("plugin action ", action.id.as_str(), " failed with ");
    message.append(status);
    message
}

// ------------------------------------------------------------ managed installation

/// A letter, a digit, `-` or `_`.
pub open spec fn source_char(c: char) -> bool {
    text::ascii_alnum(c) || c == '-' || c == '_'
}

pub open spec fn is_path_component(s: Seq<char>) -> bool {
    s.len() > 0 && forall|i: int| 0 <= i < s.len() ==> source_char(#[trigger] s[i])
}

/// A path component that is safe to use as it stands.
pub fn valid_path_component(value: &str) -> (r: bool)
    ensures
        r == is_path_component(value@),
{
    let chars = text::chars_of(value);
    if chars.len() == 0 {
        return false;
    }
    let mut i: usize = 0;
    while i < chars.len()
        invariant
            chars@ == value@,
            i <= chars@.len(),
            forall|k: int| 0 <= k < i ==> source_char(#[trigger] value@[k]),
        decreases chars@.len() - i,
    {
        let c = chars[i];
        if !text::is_ascii_alnum(c) && c != '-' && c != '_' {
            assert(!source_char(value@[i as int]));
            return false;
        }
        i += 1;
    }
    true
}

/// The source names an owner and a repository, and maybe a directory in it.
pub open spec fn is_source(source: Seq<char>) -> bool {
    let parts = text::split_on(source, '/');
    2 <= parts.len() <= 3 && forall|i: int|
        0 <= i < parts.len() ==> is_path_component(#[trigger] parts[i])
}

/// Reads an `OWNER/REPO[/SUBDIR]` source.
pub fn github_source(source: &str) -> (r: Result<(String, String, Option<String>), String>)
    ensures
        !is_source(source@) ==> text::fault(r) == Some(
            "GitHub source must be OWNER/REPO[/SUBDIR] using safe path components"@,
        ),
        is_source(source@) ==> (r matches Ok(got) && got.0@ == text::split_on(source@, '/')[0]
            && got.1@ == text::split_on(source@, '/')[1] && text::option_text(got.2) == (
        if text::split_on(source@, '/').len() == 3 {
            Some(text::split_on(source@, '/')[2])
        } else {
            None
        })),
{
    let parts = text::split(source, '/');
    let ghost all = text::split_on(source@, '/');
    assert(all.len() == parts@.len());
    let refused = "GitHub source must be OWNER/REPO[/SUBDIR] using safe path components";
    if parts.len() < 2 || parts.len() > 3 {
        return Err(refused.to_owned());
    }
    let mut i: usize = 0;
    while i < parts.len()
        invariant
            text::texts(parts@) == all,
            all == text::split_on(source@, '/'),
            i <= parts@.len(),
            refused@ == "GitHub source must be OWNER/REPO[/SUBDIR] using safe path components"@,
            forall|k: int| 0 <= k < i ==> is_path_component(#[trigger] all[k]),
        decreases parts@.len() - i,
    {
        assert(all[i as int] == parts@[i as int]@);
        if !valid_path_component(parts[i].as_str()) {
            assert(!is_path_component(all[i as int]));
            return Err(refused.to_owned());
        }
        i += 1;
    }
    assert(all[0] == parts@[0]@ && all[1] == parts@[1]@);
    let subdir = if parts.len() == 3 {
        assert(all[2] == parts@[2]@);
        Some(parts[2].clone())
    } else {
        None
    };
    Ok((parts[0].clone(), parts[1].clone(), subdir))
}

/// A source never leads out of the managed directory: no component is a dot, two
/// dots or empty.
pub proof fn law_sources_stay_inside(source: Seq<char>, i: int)
    requires
        is_source(source),
        0 <= i < text::split_on(source, '/').len(),
    ensures
        text::split_on(source, '/')[i] != "."@,
        text::split_on(source, '/')[i] != ".."@,
        text::split_on(source, '/')[i].len() > 0,
{
    reveal_strlit(".");
    reveal_strlit("..");
    assert(is_path_component(text::split_on(source, '/')[i]));
    assert(source_char(text::split_on(source, '/')[i][0]));
}

/// Where a managed installation takes place.
#[derive(Debug, Clone, PartialEq, Eq)]
pub struct InstallPlan {
    pub owner: String,
    pub repo: String,
    /// Where the clone ends up.
    pub destination: String,
    /// Where it is prepared.
    pub staging: String,
    /// The plugin in the staging clone.
    pub staged_plugin: String,
    /// The plugin in the published clone.
    pub path: String,
}

pub open spec fn below(dir: Seq<char>, subdir: Option<Seq<char>>) -> Seq<char> {
    match subdir {
        Some(name) => text::path_join(dir, name),
        None => dir,
    }
}

impl InstallPlan {
    /// The plan is the one for a source, with `stamp` to tell attempts apart.
    pub open spec fn installs(
        self,
        managed: Seq<char>,
        owner: Seq<char>,
        repo: Seq<char>,
        subdir: Option<Seq<char>>,
        stamp: Seq<char>,
    ) -> bool {
        &&& self.owner@ == owner
        &&& self.repo@ == repo
        &&& self.destination@ == text::path_join(managed, owner + "-"@ + repo)
        &&& self.staging@ == text::path_join(
            managed,
            "."@ + owner + "-"@ + repo + "-install-"@ + stamp,
        )
        &&& self.staged_plugin@ == below(self.staging@, subdir)
        &&& self.path@ == below(self.destination@, subdir)
    }

    /// The arguments of `git` that fetch the source.
    pub fn clone_arguments(&self) -> (r: Vec<String>)
        ensures
            text::texts(r@) == seq![
                "clone"@,
                "--depth"@,
                "1"@,
                "https://github.com/"@ + self.owner@ + "/"@ + self.repo@ + ".git"@,
                self.staging@,
            ],
    {
        let mut url = text::cat3("https://github.com/", self.owner.as_str(), "/");
        url.append(self.repo.as_str());
        url.append(".git");
        let args: Vec<String> = vec![
            "clone".to_owned(),
            "--depth".to_owned(),
            "1".to_owned(),
            url,
            self.staging.clone(),
        ];
        assert(text::texts(args@) =~= seq![
            "clone"@,
            "--depth"@,
            "1"@,
            "https://github.com/"@ + self.owner@ + "/"@ + self.repo@ + ".git"@,
            self.staging@,
        ]);
        args
    }
}

fn below_path(dir: &str, subdir: &Option<String>) -> (r: String)
    ensures
        r@ == below(dir@, text::option_text(*subdir)),
{
    match subdir {
        Some(name) => text::join_path(dir, name.as_str()),
        None => dir.to_owned(),
    }
}

/// Plans the installation of a source.
pub fn install_plan(source: &str, managed: &str, stamp: &str) -> (r: Result<InstallPlan, String>)
    ensures
        !is_source(source@) ==> text::fault(r) == Some(
            "GitHub source must be OWNER/REPO[/SUBDIR] using safe path components"@,
        ),
        is_source(source@) ==> (r matches Ok(plan) && plan.installs(
            managed@,
            text::split_on(source@, '/')[0],
            text::split_on(source@, '/')[1],
            (if text::split_on(source@, '/').len() == 3 {
                Some(text::split_on(source@, '/')[2])
            } else {
                None
            }),
            stamp@,
        )),
{
    let (owner, repo, subdir) = match github_source(source) {
        Ok(parts) => parts,
        Err(message) => return Err(message),
    };
    let name = text::cat3(owner.as_str(), "-", repo.as_str());
    let mut hidden = text::cat3(".", owner.as_str(), "-");
    hidden.append(repo.as_str());
    hidden.append("-install-");
    hidden.append(stamp);
    let destination = text::join_path(managed, name.as_str());
    let staging = text::join_path(managed, hidden.as_str());
    let staged_plugin = below_path(staging.as_str(), &subdir);
    let path = below_path(destination.as_str(), &subdir);
    Ok(InstallPlan { owner, repo, destination, staging, staged_plugin, path })
}

/// How far an installation has come.
#[derive(Debug, Clone, Copy, PartialEq, Eq, Structural)]
pub enum InstallPhase {
    Starting,
    Cloning,
    Reading,
    Building,
    Publishing,
    Writing,
    Ended,
}

/// What came of the last action.
#[derive(Debug, Clone, PartialEq, Eq)]
pub enum InstallEvent {
    /// Whether the destination is there already.
    Checked { exists: bool },
    /// Whether the child process exited well.
    Exited { success: bool },
    Manifest(PluginManifest),
    /// The last action was carried out.
    Finished,
    /// The last action could not be carried out.
    Failed(String),
}

/// What to do next.
#[derive(Debug, Clone, PartialEq, Eq)]
pub enum InstallAction {
    /// Fetch the source into the staging directory.
    Clone,
    /// Read and check the manifest of the staged plugin.
    ReadManifest,
    /// Run the build command in the staged plugin.
    Build(String),
    /// Rename the staging directory to the destination.
    Publish,
    /// Write the registry.
    WriteRegistry,
    Done,
    /// Remove what was made, if anything, and report.
    Fail { remove: Option<String>, message: String },
}

/// A managed installation in progress.
#[derive(Debug, Clone, PartialEq, Eq)]
pub struct Installer {
    pub plan: InstallPlan,
    pub registry: PluginRegistry,
    pub phase: InstallPhase,
    pub manifest: Option<PluginManifest>,
}

impl InstallAction {
    pub open spec fn fails(self, remove: Option<Seq<char>>, message: Seq<char>) -> bool {
        self matches InstallAction::Fail { remove: gone, message: said } && text::option_text(gone)
            == remove && said@ == message
    }
}

impl Installer {
    /// What an event leads to: the next phase, and what the action must be.
    pub open spec fn steps(
        before: Installer,
        event: InstallEvent,
        after: Installer,
        action: InstallAction,
    ) -> bool {
        let staging = Some(before.plan.staging@);
        &&& after.plan == before.plan
        &&& match (before.phase, event) {
            (InstallPhase::Starting, InstallEvent::Checked { exists }) => if exists {
                after.phase == InstallPhase::Ended && action.fails(
                    None,
                    "managed plugin source already exists: "@ + before.plan.destination@,
                )
            } else {
                after.phase == InstallPhase::Cloning && action == InstallAction::Clone
            },
            (InstallPhase::Cloning, InstallEvent::Exited { success }) => if success {
                after.phase == InstallPhase::Reading && action == InstallAction::ReadManifest
            } else {
                after.phase == InstallPhase::Ended && action.fails(
                    staging,
                    "git clone failed for "@ + before.plan.owner@ + "/"@ + before.plan.repo@,
                )
            },
            (InstallPhase::Reading, InstallEvent::Manifest(manifest)) => if slot(
                before.registry.plugins@,
                manifest.id@,
            ) is Some {
                after.phase == InstallPhase::Ended && action.fails(
                    staging,
                    "plugin "@ + manifest.id@ + " is already registered"@,
                )
            } else {
                match manifest.build {
                    Some(build) => after.phase == InstallPhase::Building
                        && (action matches InstallAction::Build(line) && line@ == build@),
                    None => after.phase == InstallPhase::Publishing && action
                        == InstallAction::Publish,
                }
            },
            (InstallPhase::Building, InstallEvent::Exited { success }) => if success {
                after.phase == InstallPhase::Publishing && action == InstallAction::Publish
            } else {
                after.phase == InstallPhase::Ended && action.fails(
                    staging,
                    "plugin build failed"@,
                )
            },
            (InstallPhase::Publishing, InstallEvent::Finished) => after.phase
                == InstallPhase::Writing && action == InstallAction::WriteRegistry,
            (InstallPhase::Writing, InstallEvent::Finished) => after.phase == InstallPhase::Ended
                && action == InstallAction::Done,
            (InstallPhase::Writing, InstallEvent::Failed(cause)) => after.phase
                == InstallPhase::Ended && action.fails(
                Some(before.plan.destination@),
                cause@,
            ),
            (InstallPhase::Starting, InstallEvent::Failed(cause)) => after.phase
                == InstallPhase::Ended && action.fails(None, cause@),
            (_, InstallEvent::Failed(cause)) => after.phase == InstallPhase::Ended
                && action.fails(staging, cause@),
            _ => after.phase == InstallPhase::Ended && action.fails(
                staging,
                "unexpected installation event"@,
            ),
        }
        &&& match (before.phase, event, before.manifest) {
            (InstallPhase::Publishing, InstallEvent::Finished, Some(manifest)) =>
                after.registry.plugins@ == with_entry(
                before.registry.plugins@,
                manifest.id,
                (InstalledPlugin {
                    path: before.plan.path,
                    linked: false,
                    enabled: true,
                    version: manifest.version,
                }),
            ),
            _ => after.registry == before.registry,
        }
        &&& after.manifest == (match (before.phase, event) {
            (InstallPhase::Reading, InstallEvent::Manifest(manifest)) => if slot(
                before.registry.plugins@,
                manifest.id@,
            ) is Some {
                before.manifest
            } else {
                Some(manifest)
            },
            _ => before.manifest,
        })
    }

    /// A run from the start: each state follows from the one before it by the event
    /// in its place, which led to the action in its place.
    pub open spec fn runs(
        states: Seq<Installer>,
        events: Seq<InstallEvent>,
        actions: Seq<InstallAction>,
    ) -> bool {
        &&& states.len() == events.len() + 1
        &&& actions.len() == events.len()
        &&& states[0].phase == InstallPhase::Starting
        &&& states[0].manifest is None
        &&& states[0].registry.wf()
        &&& forall|i: int|
            0 <= i < events.len() ==> Self::steps(
                states[i],
                #[trigger] events[i],
                states[i + 1],
                actions[i],
            )
    }

    /// An installation that has not begun.
    pub fn start(plan: InstallPlan, registry: PluginRegistry) -> (r: Installer)
        ensures
            r == (Installer {
                plan,
                registry,
                phase: InstallPhase::Starting,
                manifest: None,
            }),
    {
        Installer { plan, registry, phase: InstallPhase::Starting, manifest: None }
    }

    /// Takes an installation one step further. The registry changes only once
    /// the clone is published, and a failure removes what was made.
    pub fn step(&mut self, event: InstallEvent) -> (r: InstallAction)
        requires
            old(self).registry.wf(),
        ensures
            final(self).registry.wf(),
            Self::steps(*old(self), event, *final(self), r),
    {
        match (self.phase, event) {
            (InstallPhase::Starting, InstallEvent::Checked { exists }) => {
                if exists {
                    self.phase = InstallPhase::Ended;
                    return InstallAction::Fail {
                        remove: None,
                        message: text::cat(
                            "managed plugin source already exists: ",
                            self.plan.destination.as_str(),
                        ),
                    };
                }
                self.phase = InstallPhase::Cloning;
                InstallAction::Clone
            },
            (InstallPhase::Cloning, InstallEvent::Exited { success }) => {
                if !success {
                    self.phase = InstallPhase::Ended;
                    let mut message = text::cat3(
                        "git clone failed for ",
                        self.plan.owner.as_str(),
                        "/",
                    );
                    message.append(self.plan.repo.as_str());
                    return InstallAction::Fail {
                        remove: Some(self.plan.staging.clone()),
                        message,
                    };
                }
                self.phase = InstallPhase::Reading;
                InstallAction::ReadManifest
            },
            (InstallPhase::Reading, InstallEvent::Manifest(manifest)) => {
                if self.registry.position(manifest.id.as_str()).is_some() {
                    self.phase = InstallPhase::Ended;
                    return InstallAction::Fail {
                        remove: Some(self.plan.staging.clone()),
                        message: text::cat3(
                            "plugin ",
                            manifest.id.as_str(),
                            " is already registered",
                        ),
                    };
                }
                let action = match &manifest.build {
                    Some(build) => {
                        self.phase = InstallPhase::Building;
                        InstallAction::Build(build.clone())
                    },
                    None => {
                        self.phase = InstallPhase::Publishing;
                        InstallAction::Publish
                    },
                };
                self.manifest = Some(manifest);
                action
            },
            (InstallPhase::Building, InstallEvent::Exited { success }) => {
                if !success {
                    self.phase = InstallPhase::Ended;
                    return InstallAction::Fail {
                        remove: Some(self.plan.staging.clone()),
                        message: "plugin build failed".to_owned(),
                    };
                }
                self.phase = InstallPhase::Publishing;
                InstallAction::Publish
            },
            (InstallPhase::Publishing, InstallEvent::Finished) => {
                if let Some(manifest) = &self.manifest {
                    self.registry.insert(
                        manifest.id.clone(),
                        InstalledPlugin {
                            path: self.plan.path.clone(),
                            linked: false,
                            enabled: true,
                            version: manifest.version.clone(),
                        },
                    );
                }
                self.phase = InstallPhase::Writing;
                InstallAction::WriteRegistry
            },
            (InstallPhase::Writing, InstallEvent::Finished) => {
                self.phase = InstallPhase::Ended;
                InstallAction::Done
            },
            (InstallPhase::Writing, InstallEvent::Failed(cause)) => {
                self.phase = InstallPhase::Ended;
                InstallAction::Fail {
                    remove: Some(self.plan.destination.clone()),
                    message: cause,
                }
            },
            (InstallPhase::Starting, InstallEvent::Failed(cause)) => {
                self.phase = InstallPhase::Ended;
                InstallAction::Fail { remove: None, message: cause }
            },
            (_, InstallEvent::Failed(cause)) => {
                self.phase = InstallPhase::Ended;
                InstallAction::Fail { remove: Some(self.plan.staging.clone()), message: cause }
            },
            _ => {
                self.phase = InstallPhase::Ended;
                InstallAction::Fail {
                    remove: Some(self.plan.staging.clone()),
                    message: "unexpected installation event".to_owned(),
                }
            },
        }
    }
}

/// What an installation of `plan` knows of itself on the way, with `seen` the events
/// so far.
spec fn on_the_way(start: Installer, now: Installer, seen: Seq<InstallEvent>) -> bool {
    &&& now.plan == start.plan
    &&& match now.phase {
        InstallPhase::Starting | InstallPhase::Cloning | InstallPhase::Reading => now.registry
            == start.registry,
        InstallPhase::Building | InstallPhase::Publishing => now.registry == start.registry
            && carries(start, now, seen),
        InstallPhase::Writing => carries(start, now, seen) && published(start, now),
        InstallPhase::Ended => true,
    }
}

/// The manifest is one that was read, of a plugin that was not registered.
spec fn carries(start: Installer, now: Installer, seen: Seq<InstallEvent>) -> bool {
    now.manifest matches Some(manifest) && seen.contains(InstallEvent::Manifest(manifest)) && slot(
        start.registry.plugins@,
        manifest.id@,
    ) is None
}

/// The registry is the first one with the plugin of the manifest.
spec fn published(start: Installer, now: Installer) -> bool {
    now.manifest matches Some(manifest) && now.registry.plugins@ == with_entry(
        start.registry.plugins@,
        manifest.id,
        (InstalledPlugin {
            path: start.plan.path,
            linked: false,
            enabled: true,
            version: manifest.version,
        }),
    )
}

proof fn lemma_on_the_way(
    states: Seq<Installer>,
    events: Seq<InstallEvent>,
    actions: Seq<InstallAction>,
    n: int,
)
    requires
        Installer::runs(states, events, actions),
        0 <= n <= events.len(),
    ensures
        on_the_way(states[0], states[n], events.take(n)),
    decreases n,
{
    if n > 0 {
        lemma_on_the_way(states, events, actions, n - 1);
        let event = events[n - 1];
        assert(Installer::steps(states[n - 1], event, states[n], actions[n - 1]));
        assert(events.take(n) =~= events.take(n - 1).push(event));
        assert(events.take(n)[n - 1] == event);
        assert forall|e: InstallEvent| events.take(n - 1).contains(e) implies events.take(
            n,
        ).contains(e) by {
            let i = events.take(n - 1).index_of(e);
            assert(events.take(n)[i] == e);
        }
    }
}

/// An installation that ends well holds the plugin of the manifest that was read, under
/// its id, at the path of the plan, enabled and not linked. That id was free, and every
/// other plugin is registered as it was.
pub proof fn law_done_means_registered(
    states: Seq<Installer>,
    events: Seq<InstallEvent>,
    actions: Seq<InstallAction>,
    other: Seq<char>,
)
    requires
        Installer::runs(states, events, actions),
        actions.len() > 0,
        actions.last() == InstallAction::Done,
    ensures
        states.last().plan == states[0].plan,
        states.last().manifest matches Some(manifest) && {
            &&& events.contains(InstallEvent::Manifest(manifest))
            &&& lookup(states[0].registry.plugins@, manifest.id@) is None
            &&& lookup(states.last().registry.plugins@, manifest.id@) == Some(
                InstalledPlugin {
                    path: states[0].plan.path,
                    linked: false,
                    enabled: true,
                    version: manifest.version,
                },
            )
            &&& other != manifest.id@ ==> lookup(states.last().registry.plugins@, other) == lookup(
                states[0].registry.plugins@,
                other,
            )
        },
{
    let n = events.len() as int;
    lemma_on_the_way(states, events, actions, n - 1);
    assert(Installer::steps(states[n - 1], events[n - 1], states[n], actions[n - 1]));
    assert(states[n - 1].phase == InstallPhase::Writing);
    let manifest = states[n].manifest->0;
    let plugin = InstalledPlugin {
        path: states[0].plan.path,
        linked: false,
        enabled: true,
        version: manifest.version,
    };
    law_registration_is_visible(states[0].registry.plugins@, manifest.id, plugin, other);
    law_registration_is_visible(states[0].registry.plugins@, manifest.id, plugin, manifest.id@);
    let read = InstallEvent::Manifest(manifest);
    let i = events.take(n - 1).index_of(read);
    assert(events[i] == read);
}

/// Until it asks for the registry to be written, an installation leaves the registry
/// as it was.
pub proof fn law_nothing_is_registered_early(
    states: Seq<Installer>,
    events: Seq<InstallEvent>,
    actions: Seq<InstallAction>,
)
    requires
        Installer::runs(states, events, actions),
        !actions.contains(InstallAction::WriteRegistry),
    ensures
        states.last().registry == states[0].registry,
    decreases events.len(),
{
    if events.len() > 0 {
        let n = events.len() as int;
        assert forall|i: int| 0 <= i < n - 1 implies Installer::steps(
            states.drop_last()[i],
            #[trigger] events.drop_last()[i],
            states.drop_last()[i + 1],
            actions.drop_last()[i],
        ) by {
            assert(Installer::steps(states[i], events[i], states[i + 1], actions[i]));
        }
        assert(!actions.drop_last().contains(InstallAction::WriteRegistry)) by {
            assert forall|i: int| 0 <= i < n - 1 implies actions.drop_last()[i]
                != InstallAction::WriteRegistry by {
                assert(actions[i] == actions.drop_last()[i]);
            }
        }
        law_nothing_is_registered_early(
            states.drop_last(),
            events.drop_last(),
            actions.drop_last(),
        );
        assert(Installer::steps(states[n - 1], events[n - 1], states[n], actions[n - 1]));
        assert(actions[n - 1] != InstallAction::WriteRegistry);
    }
}

} // verus!
