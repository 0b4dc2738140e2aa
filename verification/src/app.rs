//! What the host makes of a plugin: its name, and the list of versions that
//! its script reports.
use crate::errors::{CyreneError, ErrorView};
use crate::text::{file_stem, spec_file_stem};
use crate::version::{
    all_valid, core_descending, is_higher, semver_parse, spec_core, spec_core_less,
    spec_is_higher, SemVer,
};
use vstd::prelude::*;

verus! {

/// Where `x` goes into a list that descends: before the first entry, from
/// `from` on, that it is higher than.
pub open spec fn spec_insert_position(sorted: Seq<Seq<char>>, x: Seq<char>, from: int) -> int
    decreases sorted.len() - from,
{
    if from >= sorted.len() {
        sorted.len() as int
    } else if spec_is_higher(x, sorted[from]) {
        from
    } else {
        spec_insert_position(sorted, x, from + 1)
    }
}

/// The semantic versions of a list, in the order of the list.
pub open spec fn spec_valid_versions(items: Seq<Seq<char>>) -> Seq<Seq<char>>
    decreases items.len(),
{
    if items.len() == 0 {
        Seq::empty()
    } else {
        let rest = spec_valid_versions(items.drop_last());
        if semver_parse(items.last()) is Some {
            rest.push(items.last())
        } else {
            rest
        }
    }
}

/// The semantic versions of a list in descending order: each is put, in the
/// order of the list, before the first one that it is higher than.
pub open spec fn spec_sort_versions(items: Seq<Seq<char>>) -> Seq<Seq<char>>
    decreases items.len(),
{
    if items.len() == 0 {
        Seq::empty()
    } else {
        let rest = spec_sort_versions(items.drop_last());
        if semver_parse(items.last()) is Some {
            rest.insert(spec_insert_position(rest, items.last(), 0), items.last())
        } else {
            rest
        }
    }
}

/// The texts of a list that are no semantic versions, in the order of the
/// list.
pub open spec fn spec_other_texts(items: Seq<Seq<char>>) -> Seq<Seq<char>>
    decreases items.len(),
{
    if items.len() == 0 {
        Seq::empty()
    } else {
        let rest = spec_other_texts(items.drop_last());
        if semver_parse(items.last()) is Some {
            rest
        } else {
            rest.push(items.last())
        }
    }
}

/// The list of versions that the host makes of a script's report: every
/// reported text as it was reported, the semantic versions first and in
/// descending order, then the texts that are none, in the order of the
/// report.
pub open spec fn spec_normalize(reported: Seq<Seq<char>>) -> Seq<Seq<char>> {
    spec_sort_versions(reported) + spec_other_texts(reported)
}

/// The semantic versions of a list and its other texts make up the list.
pub proof fn lemma_valid_and_other(items: Seq<Seq<char>>)
    ensures
        spec_valid_versions(items).to_multiset().add(spec_other_texts(items).to_multiset())
            == items.to_multiset(),
        forall|i: int|
            0 <= i < spec_other_texts(items).len() ==> semver_parse(
                #[trigger] spec_other_texts(items)[i],
            ) is None,
    decreases items.len(),
{
    broadcast use vstd::multiset::group_multiset_axioms;

    if items.len() == 0 {
        assert(items.to_multiset() =~= vstd::multiset::Multiset::empty()) by {
            items.to_multiset_ensures();
        }
        assert(Seq::<Seq<char>>::empty().to_multiset() =~= vstd::multiset::Multiset::empty()) by {
            Seq::<Seq<char>>::empty().to_multiset_ensures();
        }
    } else {
        lemma_valid_and_other(items.drop_last());
        let t = items.last();
        assert(items.drop_last().push(t) =~= items);
        vstd::seq_lib::to_multiset_build(items.drop_last(), t);
        vstd::seq_lib::to_multiset_build(spec_valid_versions(items.drop_last()), t);
        vstd::seq_lib::to_multiset_build(spec_other_texts(items.drop_last()), t);
        assert(spec_valid_versions(items).to_multiset().add(
            spec_other_texts(items).to_multiset(),
        ) =~= items.to_multiset());
    }
}

/// The host's list holds every reported text, each as often as it was
/// reported, and nothing else.
pub proof fn lemma_normalize_permutes(reported: Seq<Seq<char>>)
    ensures
        spec_normalize(reported).to_multiset() == reported.to_multiset(),
        spec_normalize(reported).len() == reported.len(),
{
    lemma_sort_permutes(reported);
    lemma_valid_and_other(reported);
    vstd::seq_lib::lemma_multiset_commutative(
        spec_sort_versions(reported),
        spec_other_texts(reported),
    );
    spec_normalize(reported).to_multiset_ensures();
    reported.to_multiset_ensures();
}

pub proof fn lemma_insert_position_bounds(sorted: Seq<Seq<char>>, x: Seq<char>, from: int)
    requires
        0 <= from <= sorted.len(),
    ensures
        from <= spec_insert_position(sorted, x, from) <= sorted.len(),
    decreases sorted.len() - from,
{
    if from < sorted.len() && !spec_is_higher(x, sorted[from]) {
        lemma_insert_position_bounds(sorted, x, from + 1);
    }
}

/// The sorted list holds the semantic versions of the given one, each as
/// often as it occurs there, and nothing else.
pub proof fn lemma_sort_permutes(items: Seq<Seq<char>>)
    ensures
        spec_sort_versions(items).to_multiset() == spec_valid_versions(items).to_multiset(),
        spec_sort_versions(items).len() == spec_valid_versions(items).len(),
    decreases items.len(),
{
    if items.len() > 0 {
        lemma_sort_permutes(items.drop_last());
        let rest = spec_sort_versions(items.drop_last());
        let kept = spec_valid_versions(items.drop_last());
        let t = items.last();
        if semver_parse(t) is Some {
            let p = spec_insert_position(rest, t, 0);
            lemma_insert_position_bounds(rest, t, 0);
            vstd::seq_lib::to_multiset_insert(rest, p, t);
            vstd::seq_lib::to_multiset_build(kept, t);
            rest.insert_ensures(p, t);
        }
    }
}

/// Every version of the sorted list is a semantic version.
pub proof fn lemma_sort_valid(items: Seq<Seq<char>>, i: int)
    requires
        0 <= i < spec_sort_versions(items).len(),
    ensures
        semver_parse(spec_sort_versions(items)[i]) is Some,
    decreases items.len(),
{
    if items.len() > 0 {
        let rest = spec_sort_versions(items.drop_last());
        let t = items.last();
        if semver_parse(t) is Some {
            let p = spec_insert_position(rest, t, 0);
            lemma_insert_position_bounds(rest, t, 0);
            rest.insert_ensures(p, t);
            if i < p {
                lemma_sort_valid(items.drop_last(), i);
            } else if i > p {
                lemma_sort_valid(items.drop_last(), i - 1);
                assert(rest.insert(p, t)[(i - 1) + 1] == rest[i - 1]);
            }
        } else {
            lemma_sort_valid(items.drop_last(), i);
        }
    }
}

fn insert_position(sorted: &Vec<String>, x: &str) -> (r: usize)
    requires
        all_valid(sorted.deep_view()),
        semver_parse(x@) is Some,
    ensures
        r == spec_insert_position(sorted.deep_view(), x@, 0),
        r <= sorted.len(),
        forall|j: int|
            0 <= j < r ==> !spec_core_less(spec_core(#[trigger] sorted.deep_view()[j]), spec_core(x@)),
        r < sorted.len() ==> !spec_core_less(spec_core(x@), spec_core(sorted.deep_view()[r as int])),
{
    let mut p: usize = 0;
    while p < sorted.len()
        invariant
            p <= sorted.len(),
            all_valid(sorted.deep_view()),
            semver_parse(x@) is Some,
            spec_insert_position(sorted.deep_view(), x@, 0) == spec_insert_position(
                sorted.deep_view(),
                x@,
                p as int,
            ),
            forall|j: int|
                0 <= j < p ==> !spec_core_less(
                    spec_core(#[trigger] sorted.deep_view()[j]),
                    spec_core(x@),
                ),
        decreases sorted.len() - p,
    {
        assert(sorted.deep_view()[p as int] == sorted[p as int]@);
        if is_higher(x, sorted[p].as_str()) {
            return p;
        }
        p += 1;
    }
    p
}

/// Puts the semantic versions of a list in descending order and leaves the
/// rest out. Of two equal versions the one that came first stays first. The
/// numbers of the versions descend along the list.
pub fn sort_versions(items: &Vec<String>) -> (r: Vec<String>)
    ensures
        r.deep_view() == spec_sort_versions(items.deep_view()),
        all_valid(r.deep_view()),
        core_descending(r.deep_view()),
{
    let mut out: Vec<String> = Vec::new();
    let mut i: usize = 0;
    assert(items.deep_view().take(0) =~= Seq::<Seq<char>>::empty());
    while i < items.len()
        invariant
            i <= items.len(),
            out.deep_view() == spec_sort_versions(items.deep_view().take(i as int)),
            all_valid(out.deep_view()),
            core_descending(out.deep_view()),
        decreases items.len() - i,
    {
        proof {
            let next = items.deep_view().take(i + 1);
            assert(next.drop_last() =~= items.deep_view().take(i as int));
            assert(next.last() == items[i as int]@);
        }
        if SemVer::is_valid(items[i].as_str()) {
            let p = insert_position(&out, items[i].as_str());
            let ghost before = out.deep_view();
            out.insert(p, items[i].clone());
            proof {
                let x = items[i as int]@;
                let after = before.insert(p as int, x);
                assert(out.deep_view() =~= after);
                before.insert_ensures(p as int, x);
                assert forall|k: int| 0 <= k < after.len() implies semver_parse(
                    #[trigger] after[k],
                ) is Some by {
                    if k < p {
                        assert(after[k] == before[k]);
                    } else if k > p {
                        assert(after[(k - 1) + 1] == before[k - 1]);
                    }
                }
                assert forall|a: int, b: int| 0 <= a < b < after.len() implies !spec_core_less(
                    spec_core(#[trigger] after[a]),
                    spec_core(#[trigger] after[b]),
                ) by {
                    if b < p {
                        assert(after[a] == before[a] && after[b] == before[b]);
                    } else if b == p {
                        assert(after[a] == before[a]);
                    } else if a < p {
                        assert(after[a] == before[a]);
                        assert(after[(b - 1) + 1] == before[b - 1]);
                    } else if a == p {
                        assert(after[(b - 1) + 1] == before[b - 1]);
                        if b - 1 > p {
                            assert(!spec_core_less(spec_core(before[p as int]), spec_core(before[b - 1])));
                        }
                    } else {
                        assert(after[(a - 1) + 1] == before[a - 1]);
                        assert(after[(b - 1) + 1] == before[b - 1]);
                    }
                }
            }
        }
        i += 1;
    }
    assert(items.deep_view().take(items.len() as int) =~= items.deep_view());
    out
}

/// A plugin: the script of one app.
pub struct CyreneApp {
    plugin_name: String,
}

impl CyreneApp {
    pub closed spec fn spec_plugin_name(&self) -> Seq<char> {
        self.plugin_name@
    }

    /// The plugin whose script lies at `path`: it is named after the file,
    /// without the extension. Fails where the path names no file.
    pub fn new(path: &str) -> (r: Result<Self, CyreneError>)
        ensures
            r is Ok <==> spec_file_stem(path@) is Some,
            r matches Ok(app) ==> Some(app.spec_plugin_name()) == spec_file_stem(path@),
            r matches Err(e) ==> e@ == ErrorView::PluginPathError,
    {
        match file_stem(path) {
            Some(app_name) => Ok(CyreneApp { plugin_name: app_name }),
            None => Err(CyreneError::PluginPathError),
        }
    }

    /// The name of the plugin, which is the name of the app.
    pub fn plugin_name(&self) -> (r: String)
        ensures
            r@ == self.spec_plugin_name(),
    {
        self.plugin_name.clone()
    }

    /// The list of versions that the host makes of a script's report: every
    /// reported text as it was reported, the semantic versions first and in
    /// descending order, then the texts that are none, in the order of the
    /// report. Along the list the numbers of the versions never rise.
    pub fn normalize(reported: &Vec<String>) -> (r: Vec<String>)
        ensures
            r.deep_view() == spec_normalize(reported.deep_view()),
            r.deep_view().to_multiset() == reported.deep_view().to_multiset(),
            core_descending(r.deep_view()),
    {
        let mut out = sort_versions(reported);
        let ghost sorted = out.deep_view();
        let mut i: usize = 0;
        assert(reported.deep_view().take(0) =~= Seq::<Seq<char>>::empty());
        assert(sorted + Seq::<Seq<char>>::empty() =~= sorted);
        while i < reported.len()
            invariant
                i <= reported.len(),
                sorted == spec_sort_versions(reported.deep_view()),
                all_valid(sorted),
                core_descending(sorted),
                out.deep_view() == sorted + spec_other_texts(reported.deep_view().take(i as int)),
                forall|k: int|
                    sorted.len() <= k < out.deep_view().len() ==> semver_parse(
                        #[trigger] out.deep_view()[k],
                    ) is None,
            decreases reported.len() - i,
        {
            proof {
                let next = reported.deep_view().take(i + 1);
                assert(next.drop_last() =~= reported.deep_view().take(i as int));
                assert(next.last() == reported[i as int]@);
            }
            if !SemVer::is_valid(reported[i].as_str()) {
                let ghost before = out.deep_view();
                out.push(reported[i].clone());
                assert(out.deep_view() =~= before.push(reported[i as int]@));
                assert(out.deep_view() =~= sorted + spec_other_texts(
                    reported.deep_view().take(i as int),
                ).push(reported[i as int]@));
            }
            i += 1;
        }
        proof {
            assert(reported.deep_view().take(reported.len() as int) =~= reported.deep_view());
            lemma_normalize_permutes(reported.deep_view());
            let list = out.deep_view();
            assert forall|a: int, b: int| 0 <= a < b < list.len() implies !spec_core_less(
                spec_core(#[trigger] list[a]),
                spec_core(#[trigger] list[b]),
            ) by {
                if b < sorted.len() {
                    assert(list[a] == sorted[a] && list[b] == sorted[b]);
                } else {
                    assert(semver_parse(list[b]) is None);
                }
            }
        }
        out
    }

    /// Turns what the script's `get_versions` reported into the list that is
    /// cached: nothing is left out or changed; the semantic versions come
    /// first, in descending order, and what is no semantic version follows in
    /// the order of the report.
    pub fn get_versions(&self, reported: &Vec<String>) -> (r: Vec<String>)
        ensures
            r.deep_view() == spec_normalize(reported.deep_view()),
            r.deep_view().to_multiset() == reported.deep_view().to_multiset(),
            core_descending(r.deep_view()),
    {
        Self::normalize(reported)
    }
}

} // verus!
