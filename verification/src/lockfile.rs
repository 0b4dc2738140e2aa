//! Which version of each app is linked: the lockfile, and the local lockfile
//! that it may point to.
use crate::errors::{CyreneError, ErrorView};
use crate::responses::CyreneAppItem;
use crate::strmap::StrMap;
use vstd::prelude::*;

verus! {

/// A lockfile as it is stored: the linked version of each app, and the place
/// of the local lockfile that stands in for this one, if any.
pub struct CyreneLockfile {
    pub versions: StrMap<String>,
    pub loaded_lockfile: Option<String>,
}

impl CyreneLockfile {
    /// A lockfile without entries: what a missing file is taken for.
    pub fn new() -> (r: Self)
        ensures
            r.versions.wf(),
            r.versions@ == Map::<Seq<char>, Seq<char>>::empty(),
            r.loaded_lockfile is None,
    {
        CyreneLockfile { versions: StrMap::new(), loaded_lockfile: None }
    }

    /// Writes the linked version of an app into the lockfile, or clears it.
    /// Nothing else of the lockfile changes.
    pub fn set_version(&mut self, name: &str, version: Option<&str>)
        requires
            old(self).versions.wf(),
        ensures
            final(self).versions.wf(),
            final(self).versions@ == spec_set(
                old(self).versions@,
                name@,
                match version {
                    Some(v) => Some(v@),
                    None => None,
                },
            ),
            final(self).loaded_lockfile == old(self).loaded_lockfile,
    {
        match version {
            Some(v) => {
                self.versions.insert(name.to_owned(), v.to_owned());
            },
            None => {
                self.versions.remove(name);
            },
        }
    }

    /// Sets the pointer to a local lockfile, or clears it. The entries stay
    /// as they are.
    pub fn set_pointer(&mut self, target: Option<&str>)
        ensures
            final(self).versions == old(self).versions,
            final(self).loaded_lockfile.deep_view() == match target {
                Some(t) => Some(t@),
                None => None,
            },
    {
        self.loaded_lockfile = match target {
            Some(t) => Some(t.to_owned()),
            None => None,
        };
    }
}

/// The two lockfiles as contracts see them.
pub struct LockState {
    /// The entries of the default lockfile.
    pub default_versions: Map<Seq<char>, Seq<char>>,
    /// The place of the local lockfile that the default one points to.
    pub pointer: Option<Seq<char>>,
    /// The entries of the local lockfile; empty where there is no pointer.
    pub local_versions: Map<Seq<char>, Seq<char>>,
}

impl LockState {
    /// The entries of the lockfile that is written to: the local one where
    /// the pointer is set.
    pub open spec fn active(self) -> Map<Seq<char>, Seq<char>> {
        if self.pointer is Some {
            self.local_versions
        } else {
            self.default_versions
        }
    }

    /// The linked version of an app: its entry in the lockfile that is in
    /// force. Where the pointer is set, that is the local lockfile, and what
    /// the default one holds for the app is not looked at.
    pub open spec fn find(self, name: Seq<char>) -> Option<Seq<char>> {
        if self.active().contains_key(name) {
            Some(self.active()[name])
        } else {
            None
        }
    }

    /// Writes or clears the entry of an app in the lockfile that is written
    /// to.
    pub open spec fn update(self, name: Seq<char>, version: Option<Seq<char>>) -> LockState {
        if self.pointer is Some {
            LockState { local_versions: spec_set(self.local_versions, name, version), ..self }
        } else {
            LockState { default_versions: spec_set(self.default_versions, name, version), ..self }
        }
    }

    /// Points the default lockfile to a local one with the given entries.
    pub open spec fn use_local(self, path: Seq<char>, entries: Map<Seq<char>, Seq<char>>) -> LockState {
        LockState { pointer: Some(path), local_versions: entries, ..self }
    }

    /// Takes the pointer away.
    pub open spec fn use_default(self) -> LockState {
        LockState { pointer: None, local_versions: Map::empty(), ..self }
    }
}

/// A map with the entry of `name` written or cleared.
pub open spec fn spec_set(
    map: Map<Seq<char>, Seq<char>>,
    name: Seq<char>,
    version: Option<Seq<char>>,
) -> Map<Seq<char>, Seq<char>> {
    match version {
        Some(v) => map.insert(name, v),
        None => map.remove(name),
    }
}

/// After the default lockfile is pointed to a local one, an update leaves the
/// default lockfile's entries as they were and writes the version into the
/// local one, where it is then found.
pub proof fn lemma_redirected_update(
    state: LockState,
    path: Seq<char>,
    entries: Map<Seq<char>, Seq<char>>,
    name: Seq<char>,
    version: Seq<char>,
)
    ensures
        state.use_local(path, entries).update(name, Some(version)).default_versions
            == state.default_versions,
        state.use_local(path, entries).update(name, Some(version)).pointer == Some(path),
        state.use_local(path, entries).update(name, Some(version)).local_versions
            == entries.insert(name, version),
        state.use_local(path, entries).update(name, Some(version)).find(name) == Some(version),
{
}

/// What is written is found again, what is cleared is found no more, and no
/// other app's entry changes: reads and writes go to the same lockfile.
pub proof fn lemma_update_find(
    state: LockState,
    name: Seq<char>,
    version: Option<Seq<char>>,
    other: Seq<char>,
)
    ensures
        state.update(name, version).find(name) == version,
        other != name ==> state.update(name, version).find(other) == state.find(other),
{
}

/// With the pointer set, what the default lockfile holds is neither read nor
/// written: an entry cleared in the local lockfile is gone, whatever the
/// default one holds for the app.
pub proof fn lemma_pointer_hides_default(state: LockState, name: Seq<char>)
    requires
        state.pointer is Some,
    ensures
        state.find(name) is Some <==> state.local_versions.contains_key(name),
        state.update(name, None).find(name) is None,
        state.update(name, None).default_versions == state.default_versions,
{
}

/// The lockfiles in memory, and the place of the default one.
pub struct CyreneLockfileManager {
    lockfile_path: String,
    default_doc: CyreneLockfile,
    local_doc: Option<CyreneLockfile>,
}

impl View for CyreneLockfileManager {
    type V = LockState;

    closed spec fn view(&self) -> LockState {
        LockState {
            default_versions: self.default_doc.versions@,
            pointer: match self.default_doc.loaded_lockfile {
                Some(p) => Some(p@),
                None => None,
            },
            local_versions: match self.local_doc {
                Some(doc) => doc.versions@,
                None => Map::empty(),
            },
        }
    }
}

impl CyreneLockfileManager {
    /// The local lockfile is held exactly where the default one points to
    /// one.
    pub closed spec fn wf(&self) -> bool {
        &&& self.default_doc.versions.wf()
        &&& self.local_doc is Some <==> self.default_doc.loaded_lockfile is Some
        &&& self.local_doc matches Some(doc) ==> doc.versions.wf()
    }

    pub closed spec fn spec_lockfile_path(&self) -> Seq<char> {
        self.lockfile_path@
    }

    /// The place of the lockfile that is written to.
    pub open spec fn spec_active_path(&self) -> Seq<char> {
        match self@.pointer {
            Some(p) => p,
            None => self.spec_lockfile_path(),
        }
    }

    /// A manager for the lockfile at `lockfile_path`, which starts out
    /// without entries.
    pub fn new(lockfile_path: &str) -> (r: Self)
        ensures
            r.wf(),
            r.spec_lockfile_path() == lockfile_path@,
            r@.default_versions == Map::<Seq<char>, Seq<char>>::empty(),
            r@.pointer is None,
            r@.local_versions == Map::<Seq<char>, Seq<char>>::empty(),
    {
        CyreneLockfileManager {
            lockfile_path: lockfile_path.to_owned(),
            default_doc: CyreneLockfile::new(),
            local_doc: None,
        }
    }

    /// Takes over what was read from the default lockfile and, where that
    /// points to a local lockfile, from the local one. Fails, and takes
    /// nothing over, where the default lockfile points to a local one and
    /// none is given. A local lockfile that nothing points to is ignored.
    pub fn load(&mut self, default_doc: CyreneLockfile, local_doc: Option<CyreneLockfile>) -> (r:
        Result<(), CyreneError>)
        requires
            old(self).wf(),
            default_doc.versions.wf(),
            local_doc matches Some(doc) ==> doc.versions.wf(),
        ensures
            final(self).wf(),
            final(self).spec_lockfile_path() == old(self).spec_lockfile_path(),
            r is Err <==> default_doc.loaded_lockfile is Some && local_doc is None,
            r matches Err(e) ==> e@ == ErrorView::LockfileNotFoundError && final(self)@ == old(
                self,
            )@,
            r is Ok ==> final(self)@ == (LockState {
                default_versions: default_doc.versions@,
                pointer: match default_doc.loaded_lockfile {
                    Some(p) => Some(p@),
                    None => None,
                },
                local_versions: if default_doc.loaded_lockfile is Some {
                    local_doc.unwrap().versions@
                } else {
                    Map::empty()
                },
            }),
    {
        if default_doc.loaded_lockfile.is_some() {
            if local_doc.is_none() {
                return Err(CyreneError::LockfileNotFoundError);
            }
            self.default_doc = default_doc;
            self.local_doc = local_doc;
        } else {
            self.default_doc = default_doc;
            self.local_doc = None;
        }
        Ok(())
    }

    /// The place of the default lockfile.
    pub fn lockfile_path(&self) -> (r: &String)
        ensures
            r@ == self.spec_lockfile_path(),
    {
        &self.lockfile_path
    }

    /// The place of the lockfile that is written to.
    pub fn active_path(&self) -> (r: String)
        ensures
            r@ == self.spec_active_path(),
    {
        match &self.default_doc.loaded_lockfile {
            Some(p) => p.clone(),
            None => self.lockfile_path.clone(),
        }
    }

    /// The default lockfile as it is to be stored.
    pub fn default_lockfile(&self) -> (r: &CyreneLockfile)
        ensures
            r.versions@ == self@.default_versions,
            self.wf() ==> r.versions.wf(),
            match r.loaded_lockfile {
                Some(p) => Some(p@),
                None => None,
            } == self@.pointer,
    {
        &self.default_doc
    }

    /// The local lockfile as it is to be stored, where there is one.
    pub fn local_lockfile(&self) -> (r: Option<&CyreneLockfile>)
        requires
            self.wf(),
        ensures
            r is Some <==> self@.pointer is Some,
            r matches Some(doc) ==> doc.versions@ == self@.local_versions && doc.versions.wf(),
    {
        self.local_doc.as_ref()
    }

    /// The linked version of an app: its entry in the lockfile that is in
    /// force, which is the local one where the pointer is set.
    pub fn find_installed_version_from_lockfile(&self, name: &str) -> (r: Option<String>)
        requires
            self.wf(),
        ensures
            r is Some <==> self@.find(name@) is Some,
            r matches Some(v) ==> Some(v@) == self@.find(name@),
    {
        match self.load_version_map_from_current_lockfile().get(name) {
            Some(v) => Some(v.clone()),
            None => None,
        }
    }

    /// Writes the linked version of an app, or clears it, in the lockfile
    /// that is written to.
    pub fn update_lockfile(&mut self, name: &str, version: Option<&str>)
        requires
            old(self).wf(),
        ensures
            final(self).wf(),
            final(self).spec_lockfile_path() == old(self).spec_lockfile_path(),
            final(self)@ == old(self)@.update(
                name@,
                match version {
                    Some(v) => Some(v@),
                    None => None,
                },
            ),
    {
        if self.local_doc.is_some() {
            let mut doc = self.local_doc.take().unwrap();
            doc.set_version(name, version);
            self.local_doc = Some(doc);
        } else {
            self.default_doc.set_version(name, version);
        }
    }

    /// Takes the pointer to a local lockfile away.
    pub fn use_default_lockfile(&mut self)
        requires
            old(self).wf(),
        ensures
            final(self).wf(),
            final(self).spec_lockfile_path() == old(self).spec_lockfile_path(),
            final(self)@ == old(self)@.use_default(),
    {
        self.default_doc.loaded_lockfile = None;
        self.local_doc = None;
    }

    /// Points the default lockfile to the local lockfile at `loaded_lockfile`,
    /// whose content is `local`. Nothing is copied from one to the other.
    pub fn use_local_lockfile(&mut self, loaded_lockfile: &str, local: CyreneLockfile)
        requires
            old(self).wf(),
            local.versions.wf(),
        ensures
            final(self).wf(),
            final(self).spec_lockfile_path() == old(self).spec_lockfile_path(),
            final(self)@ == old(self)@.use_local(loaded_lockfile@, local.versions@),
    {
        self.default_doc.loaded_lockfile = Some(loaded_lockfile.to_owned());
        self.local_doc = Some(local);
    }

    /// Whether the default lockfile points to a local one.
    pub fn is_local_lockfile(&self) -> (r: bool)
        ensures
            r == self@.pointer is Some,
    {
        self.default_doc.loaded_lockfile.is_some()
    }

    /// The entries of the lockfile that is written to.
    pub fn load_version_map_from_current_lockfile(&self) -> (r: &StrMap<String>)
        requires
            self.wf(),
        ensures
            r.wf(),
            r@ == self@.active(),
    {
        match &self.local_doc {
            Some(doc) => &doc.versions,
            None => &self.default_doc.versions,
        }
    }

    /// The entries of the lockfile that is written to, in the order of the
    /// apps' names.
    pub fn load_versions_from_current_lockfile(&self) -> (r: Vec<CyreneAppItem>)
        requires
            self.wf(),
        ensures
            spec_lists(r.deep_view(), self@.active()),
    {
        let map = self.load_version_map_from_current_lockfile();
        let mut out: Vec<CyreneAppItem> = Vec::new();
        let mut i: usize = 0;
        proof {
            map.lemma_entries();
        }
        while i < map.len()
            invariant
                map.wf(),
                i <= map.keys().len(),
                map.keys().len() == map.values().len(),
                out.len() == i,
                forall|j: int|
                    0 <= j < i ==> (#[trigger] out.deep_view()[j]) == (
                        map.keys()[j],
                        map.values()[j],
                    ),
            decreases map.keys().len() - i,
        {
            let item = CyreneAppItem {
                name: map.key_at(i).clone(),
                version: map.value_at(i).clone(),
            };
            let ghost before = out.deep_view();
            out.push(item);
            proof {
                assert(out.deep_view() =~= before.push((map.keys()[i as int], map.values()[i as int])));
            }
            i += 1;
        }
        proof {
            map.lemma_entries();
            let items = out.deep_view();
            assert forall|a: int, b: int| 0 <= a < b < items.len() implies crate::text::text_less(
                items[a].0,
                items[b].0,
            ) by {
                assert(items[a] == (map.keys()[a], map.values()[a]));
                assert(items[b] == (map.keys()[b], map.values()[b]));
            }
            assert forall|k: Seq<char>| #[trigger] map@.contains_key(k) implies exists|j: int|
                0 <= j < items.len() && items[j] == (k, map@[k]) by {
                let j = choose|j: int| 0 <= j < map.keys().len() && map.keys()[j] == k;
                assert(items[j] == (map.keys()[j], map.values()[j]));
            }
            assert forall|j: int| 0 <= j < items.len() implies map@.contains_key(
                (#[trigger] items[j]).0,
            ) && map@[items[j].0] == items[j].1 by {
                assert(items[j] == (map.keys()[j], map.values()[j]));
            }
        }
        out
    }
}

/// `items` lists the entries of `map`: each entry once, in ascending order of
/// the names.
pub open spec fn spec_lists(items: Seq<(Seq<char>, Seq<char>)>, map: Map<Seq<char>, Seq<char>>) -> bool {
    &&& forall|a: int, b: int|
        0 <= a < b < items.len() ==> crate::text::text_less(items[a].0, items[b].0)
    &&& forall|j: int|
        0 <= j < items.len() ==> map.contains_key((#[trigger] items[j]).0) && map[items[j].0]
            == items[j].1
    &&& forall|k: Seq<char>| #[trigger]
        map.contains_key(k) ==> exists|j: int| 0 <= j < items.len() && items[j] == (k, map[k])
}

} // verus!
