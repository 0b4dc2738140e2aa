//! The rows of the lists that the tool shows.
use crate::manager::CyreneManager;
use crate::responses::CyreneAppItem;
use crate::text::same_text;
use vstd::prelude::*;
use vstd::string::*;

verus! {

/// One row of the list of an app's versions.
#[derive(Debug, PartialEq, Eq)]
pub struct CyreneAppVersionsRow {
    pub name: String,
    pub version: String,
}

/// One row of the list of what is installed.
#[derive(Debug, PartialEq, Eq)]
pub struct CyreneAppVersionsAllRow {
    pub name: String,
    pub version: String,
    pub linked: bool,
}

impl DeepView for CyreneAppVersionsRow {
    type V = (Seq<char>, Seq<char>);

    open spec fn deep_view(&self) -> (Seq<char>, Seq<char>) {
        (self.name@, self.version@)
    }
}

impl DeepView for CyreneAppVersionsAllRow {
    type V = (Seq<char>, Seq<char>, bool);

    open spec fn deep_view(&self) -> (Seq<char>, Seq<char>, bool) {
        (self.name@, self.version@, self.linked)
    }
}

impl CyreneAppVersionsRow {
    /// The row of a version of an app.
    pub fn from_pair(value: &(String, String)) -> (r: Self)
        ensures
            r.deep_view() == (value.0@, value.1@),
    {
        CyreneAppVersionsRow { name: value.0.clone(), version: value.1.clone() }
    }

    /// The row of an item.
    pub fn from_item(value: &CyreneAppItem) -> (r: Self)
        ensures
            r.deep_view() == value.deep_view(),
    {
        CyreneAppVersionsRow { name: value.name.clone(), version: value.version.clone() }
    }
}

impl CyreneAppVersionsAllRow {
    /// The row as one line: the app, a colon, and the version.
    pub fn line(&self) -> (r: String)
        ensures
            r@ == self.name@ + ": "@ + self.version@,
    {
        let mut s: String = self.name.clone();
        s.append(": ");
        s.append(self.version.as_str());
        s
    }
}

/// The rows of the versions of an app: one per version.
pub fn cyrene_app_versions(versions: &Vec<(String, String)>) -> (r: Vec<CyreneAppVersionsRow>)
    ensures
        r.deep_view() == versions.deep_view(),
{
    let mut out: Vec<CyreneAppVersionsRow> = Vec::new();
    let mut i: usize = 0;
    while i < versions.len()
        invariant
            i <= versions.len(),
            out.len() == i,
            forall|j: int| 0 <= j < i ==> (#[trigger] out[j]).deep_view() == versions[j].deep_view(),
        decreases versions.len() - i,
    {
        out.push(CyreneAppVersionsRow::from_pair(&versions[i]));
        i += 1;
    }
    assert(out.deep_view() =~= versions.deep_view());
    out
}

/// The row of an installed version: it is the linked one where the lockfile
/// names it for its app.
pub open spec fn spec_row(
    locked: Map<Seq<char>, Seq<char>>,
    item: (Seq<char>, Seq<char>),
) -> (Seq<char>, Seq<char>, bool) {
    (item.0, item.1, locked.contains_key(item.0) && locked[item.0] == item.1)
}

/// The rows of the installed versions of an app, highest first, each marked
/// where it is the linked one.
pub fn rows_of_app(manager: &CyreneManager, name: &str) -> (r: Vec<CyreneAppVersionsAllRow>)
    requires
        manager.wf(),
    ensures
        r.deep_view() == crate::app::spec_sort_versions(
            manager@.installed_versions(name@),
        ).map_values(|v: Seq<char>| spec_row(manager@.lock.active(), (name@, v))),
{
    let lockfile_versions = manager.get_app_version_map();
    let versions = manager.list_installed_app_versions(name);
    let mut out: Vec<CyreneAppVersionsAllRow> = Vec::new();
    let mut i: usize = 0;
    while i < versions.len()
        invariant
            i <= versions.len(),
            out.len() == i,
            lockfile_versions.wf(),
            lockfile_versions@ == manager@.lock.active(),
            forall|j: int|
                0 <= j < i ==> (#[trigger] out[j]).deep_view() == spec_row(
                    manager@.lock.active(),
                    versions[j].deep_view(),
                ),
        decreases versions.len() - i,
    {
        let f = &versions[i];
        let linked: bool = match lockfile_versions.get(f.name.as_str()) {
            Some(ver) => same_text(f.version.as_str(), ver.as_str()),
            None => false,
        };
        out.push(
            CyreneAppVersionsAllRow { name: f.name.clone(), version: f.version.clone(), linked },
        );
        i += 1;
    }
    proof {
        let sorted = crate::app::spec_sort_versions(manager@.installed_versions(name@));
        let items = sorted.map_values(|v: Seq<char>| (name@, v));
        assert(versions.deep_view() == items);
        assert(versions.deep_view().len() == versions.len());
        assert(items.len() == sorted.len());
        assert forall|j: int| 0 <= j < out.len() implies out.deep_view()[j] == spec_row(
            manager@.lock.active(),
            (name@, sorted[j]),
        ) by {
            assert(versions.deep_view()[j] == versions[j].deep_view());
            assert(items[j] == (name@, sorted[j]));
            assert(out.deep_view()[j] == out[j].deep_view());
        }
        assert(out.deep_view() =~= sorted.map_values(
            |v: Seq<char>| spec_row(manager@.lock.active(), (name@, v)),
        ));
    }
    out
}

/// The rows of the installed versions of the first `n` apps, app after app.
pub open spec fn spec_all_rows(w: crate::world::World, apps: Seq<Seq<char>>, n: int) -> Seq<
    (Seq<char>, Seq<char>, bool),
>
    decreases n,
{
    if n <= 0 {
        Seq::empty()
    } else {
        spec_all_rows(w, apps, n - 1) + crate::app::spec_sort_versions(
            w.installed_versions(apps[n - 1]),
        ).map_values(|v: Seq<char>| spec_row(w.lock.active(), (apps[n - 1], v)))
    }
}

/// The rows of everything that is installed: the apps in the order of their
/// names, the versions of each highest first, each marked where it is the
/// linked one.
pub fn cyrene_app_versions_all(manager: &CyreneManager) -> (r: Vec<CyreneAppVersionsAllRow>)
    requires
        manager.wf(),
    ensures
        r.deep_view() == spec_all_rows(
            manager@,
            manager.installed_keys(),
            manager.installed_keys().len() as int,
        ),
{
    let apps = manager.list_apps();
    let mut out: Vec<CyreneAppVersionsAllRow> = Vec::new();
    let mut i: usize = 0;
    assert(out.deep_view() =~= Seq::empty());
    while i < apps.len()
        invariant
            manager.wf(),
            i <= apps.len(),
            apps.deep_view() == manager.installed_keys(),
            out.deep_view() == spec_all_rows(manager@, manager.installed_keys(), i as int),
        decreases apps.len() - i,
    {
        assert(apps.deep_view()[i as int] == apps[i as int]@);
        let mut rows = rows_of_app(manager, apps[i].as_str());
        let ghost before = out.deep_view();
        let ghost added = rows.deep_view();
        out.append(&mut rows);
        assert(out.deep_view() =~= before + added);
        i += 1;
    }
    assert(apps.deep_view().len() == apps.len());
    out
}

} // verus!
