//! What holds of linking and of the order of versions, whatever the world it
//! starts from.
use crate::app::{spec_insert_position, spec_sort_versions};
use crate::errors::ErrorView;
use crate::journal::StepView;
use crate::resolver::{lemma_first_match, spec_first_match, spec_search};
use crate::transaction::{lemma_plan_in_phase_order, spec_phase, spec_plan};
use crate::version::{
    core_descending, semver_accepts, spec_core, spec_core_less, spec_is_higher,
};
use crate::world::{
    lemma_hits_grows, spec_hits, spec_link_first, spec_unlink_first, spec_without, CommandView,
    World,
};
use vstd::prelude::*;

verus! {

/// No two pairs have their link at the same place.
pub open spec fn distinct_places(pairs: Seq<(Seq<char>, Seq<char>)>) -> bool {
    forall|i: int, j: int|
        0 <= i < j < pairs.len() ==> (#[trigger] pairs[i]).0 != (#[trigger] pairs[j]).0
}

/// This version of the app can be linked: it is installed, the plugin has
/// named its binaries, no two of them under one name, and none of the links
/// would lie where the running executable lies.
pub open spec fn linkable(w: World, app: Seq<char>, version: Seq<char>) -> bool {
    &&& w.is_installed(app, version)
    &&& w.binaries(app, version) is Some
    &&& distinct_places(w.link_pairs(app, version, w.binaries(app, version).unwrap()))
    &&& !spec_hits(
        w.link_pairs(app, version, w.binaries(app, version).unwrap()),
        w.current_exe,
        w.link_pairs(app, version, w.binaries(app, version).unwrap()).len() as int,
    )
}

/// Every binary of this version of the app has its link, and the link points
/// into the directory of this version.
pub open spec fn is_linked(w: World, app: Seq<char>, version: Seq<char>) -> bool {
    &&& w.binaries(app, version) is Some
    &&& forall|i: int|
        0 <= i < w.link_pairs(app, version, w.binaries(app, version).unwrap()).len() ==> {
            let pair = #[trigger] w.link_pairs(app, version, w.binaries(app, version).unwrap())[i];
            w.links.contains_key(pair.0) && w.links[pair.0] == pair.1
        }
}

/// One of the binaries of `other` has the place of a binary of `version`, and
/// points elsewhere.
pub open spec fn clashes(w: World, app: Seq<char>, version: Seq<char>, other: Seq<char>) -> bool {
    &&& w.binaries(app, version) is Some
    &&& w.binaries(app, other) is Some
    &&& exists|i: int, j: int|
        {
            &&& 0 <= i < w.link_pairs(app, version, w.binaries(app, version).unwrap()).len()
            &&& 0 <= j < w.link_pairs(app, other, w.binaries(app, other).unwrap()).len()
            &&& (#[trigger] w.link_pairs(app, version, w.binaries(app, version).unwrap())[i]).0
                == (#[trigger] w.link_pairs(app, other, w.binaries(app, other).unwrap())[j]).0
            &&& w.link_pairs(app, version, w.binaries(app, version).unwrap())[i].1 != w.link_pairs(
                app,
                other,
                w.binaries(app, other).unwrap(),
            )[j].1
        }
}

/// A link that would lie where the running executable lies is refused, and
/// nothing changes: no link, and no step in the journal.
pub proof fn lemma_self_link_rejected(
    w: World,
    app: Seq<char>,
    version: Seq<char>,
    overwrite: bool,
    i: int,
)
    requires
        w.is_installed(app, version),
        w.binaries(app, version) is Some,
        0 <= i < w.binaries(app, version).unwrap().len(),
        w.link_pairs(app, version, w.binaries(app, version).unwrap())[i].0 == w.current_exe,
    ensures
        w.link(app, version, overwrite) == (
            w,
            Err::<bool, ErrorView>(ErrorView::AppLinkingToItselfError),
        ),
{
    let pairs = w.link_pairs(app, version, w.binaries(app, version).unwrap());
    assert(spec_hits(pairs, w.current_exe, i + 1));
    lemma_hits_grows(pairs, w.current_exe, i + 1, pairs.len() as int);
}

/// What linking over what is there makes of the links: each of the first `n`
/// places holds its target, every other place is as it was, and no link is
/// left alone.
pub proof fn lemma_link_over(
    links: Map<Seq<char>, Seq<char>>,
    journal: Seq<StepView>,
    pairs: Seq<(Seq<char>, Seq<char>)>,
    n: int,
)
    requires
        0 <= n <= pairs.len(),
        distinct_places(pairs),
    ensures
        !spec_link_first(links, journal, pairs, true, n).2,
        forall|i: int|
            0 <= i < n ==> spec_link_first(links, journal, pairs, true, n).0.contains_key(
                (#[trigger] pairs[i]).0,
            ) && spec_link_first(links, journal, pairs, true, n).0[pairs[i].0] == pairs[i].1,
        forall|k: Seq<char>|
            !spec_hits(pairs, k, n) ==> (#[trigger] spec_link_first(
                links,
                journal,
                pairs,
                true,
                n,
            ).0.contains_key(k) <==> links.contains_key(k)),
        forall|k: Seq<char>|
            !spec_hits(pairs, k, n) && links.contains_key(k) ==> #[trigger] spec_link_first(
                links,
                journal,
                pairs,
                true,
                n,
            ).0[k] == links[k],
    decreases n,
{
    if n > 0 {
        lemma_link_over(links, journal, pairs, n - 1);
        let before = spec_link_first(links, journal, pairs, true, n - 1).0;
        let after = spec_link_first(links, journal, pairs, true, n).0;
        assert(after == before.insert(pairs[n - 1].0, pairs[n - 1].1));
        assert forall|i: int| 0 <= i < n implies after.contains_key((#[trigger] pairs[i]).0)
            && after[pairs[i].0] == pairs[i].1 by {
            if i < n - 1 {
                assert(pairs[i].0 != pairs[n - 1].0);
            }
        }
    }
}

/// Linking over links that already are what they are to be changes no link.
pub proof fn lemma_link_again(
    links: Map<Seq<char>, Seq<char>>,
    journal: Seq<StepView>,
    pairs: Seq<(Seq<char>, Seq<char>)>,
    n: int,
)
    requires
        0 <= n <= pairs.len(),
        forall|i: int|
            0 <= i < pairs.len() ==> links.contains_key((#[trigger] pairs[i]).0) && links[pairs[i].0]
                == pairs[i].1,
    ensures
        spec_link_first(links, journal, pairs, true, n).0 == links,
        !spec_link_first(links, journal, pairs, true, n).2,
    decreases n,
{
    if n > 0 {
        lemma_link_again(links, journal, pairs, n - 1);
        assert(links.contains_key(pairs[n - 1].0) && links[pairs[n - 1].0] == pairs[n - 1].1);
        assert(links.insert(pairs[n - 1].0, pairs[n - 1].1) =~= links);
    }
}

/// Linking a version over what is there, twice in a row, never fails, and the
/// second time changes no link: every binary's link points where the first
/// time left it, into the directory of the version.
pub proof fn lemma_link_is_idempotent(w: World, app: Seq<char>, version: Seq<char>)
    requires
        linkable(w, app, version),
    ensures
        w.link(app, version, true).1 == Ok::<bool, ErrorView>(false),
        w.link(app, version, true).0.link(app, version, true).1 == Ok::<bool, ErrorView>(false),
        w.link(app, version, true).0.link(app, version, true).0.links == w.link(
            app,
            version,
            true,
        ).0.links,
        is_linked(w.link(app, version, true).0, app, version),
        is_linked(w.link(app, version, true).0.link(app, version, true).0, app, version),
{
    let pairs = w.link_pairs(app, version, w.binaries(app, version).unwrap());
    let n = pairs.len() as int;
    lemma_link_over(w.links, w.journal, pairs, n);
    let w1 = w.link(app, version, true).0;
    assert(w1.link_pairs(app, version, w1.binaries(app, version).unwrap()) == pairs);
    lemma_link_again(w1.links, w1.journal, pairs, n);
    let w2 = w1.link(app, version, true).0;
    assert(w2.link_pairs(app, version, w2.binaries(app, version).unwrap()) == pairs);
}

/// After a version is linked over what is there and written to the lockfile,
/// links and lockfile agree on it: its binaries are all linked, and it is the
/// version that the lockfile names. Of a version whose binaries clash with
/// it, both are false: not all its binaries are linked, and the lockfile does
/// not name it.
pub proof fn lemma_links_match_lockfile(
    w: World,
    app: Seq<char>,
    version: Seq<char>,
    other: Seq<char>,
)
    requires
        linkable(w, app, version),
        other == version || clashes(w, app, version, other),
    ensures
        is_linked(w.link(app, version, true).0.update_lockfile(app, Some(version)), app, other)
            <==> w.link(app, version, true).0.update_lockfile(app, Some(version)).lock.find(app)
            == Some(other),
        w.link(app, version, true).0.update_lockfile(app, Some(version)).lock.find(app) == Some(
            version,
        ),
{
    let pairs = w.link_pairs(app, version, w.binaries(app, version).unwrap());
    let n = pairs.len() as int;
    lemma_link_over(w.links, w.journal, pairs, n);
    let w1 = w.link(app, version, true).0;
    let w2 = w1.update_lockfile(app, Some(version));
    assert(w2.link_pairs(app, version, w2.binaries(app, version).unwrap()) == pairs);
    assert(is_linked(w2, app, version));
    if other != version {
        let others = w.link_pairs(app, other, w.binaries(app, other).unwrap());
        assert(w2.link_pairs(app, other, w2.binaries(app, other).unwrap()) == others);
        let (i, j) = choose|i: int, j: int|
            {
                &&& 0 <= i < pairs.len()
                &&& 0 <= j < others.len()
                &&& (#[trigger] pairs[i]).0 == (#[trigger] others[j]).0
                &&& pairs[i].1 != others[j].1
            };
        assert(w2.links[others[j].0] == pairs[i].1);
        assert(!is_linked(w2, app, other));
    }
}

/// A transaction that links a version over what is there and writes it to
/// the lockfile succeeds wherever the version can be linked, in whichever
/// order the two commands were queued, and leaves links and lockfile in
/// agreement: the binaries of the version are all linked, and the lockfile
/// names it.
pub proof fn lemma_link_transaction(w: World, app: Seq<char>, version: Seq<char>, link_first: bool)
    requires
        linkable(w, app, version),
    ensures
        w.run(spec_plan(spec_link_commands(app, version, link_first))).1 is Ok,
        is_linked(w.run(spec_plan(spec_link_commands(app, version, link_first))).0, app, version),
        w.run(spec_plan(spec_link_commands(app, version, link_first))).0.lock.find(app) == Some(
            version,
        ),
{
    let link = CommandView::Link { app, version, overwrite: true };
    let lock = CommandView::LockfileUpdate { app, version: Some(version) };
    let commands = spec_link_commands(app, version, link_first);
    let first = if link_first { link } else { lock };
    let second = if link_first { lock } else { link };
    assert(commands.drop_last() =~= seq![first]);
    assert(seq![first].drop_last() =~= Seq::<CommandView>::empty());
    assert(commands.last() == second);
    assert(seq![first].last() == first);
    reveal_with_fuel(crate::transaction::spec_queue, 3);
    assert(crate::transaction::spec_queue(commands, 1) =~= Seq::<CommandView>::empty());
    assert(crate::transaction::spec_queue(commands, 2) =~= Seq::<CommandView>::empty());
    assert(crate::transaction::spec_queue(commands, 3) =~= Seq::<CommandView>::empty());
    assert(crate::transaction::spec_queue(commands, 4) =~= commands);
    let plan = spec_plan(commands);
    assert(plan =~= commands);
    reveal_with_fuel(World::run_first, 3);
    let pairs = w.link_pairs(app, version, w.binaries(app, version).unwrap());
    lemma_link_over(w.links, w.journal, pairs, pairs.len() as int);
    if link_first {
        let w1 = w.link(app, version, true).0;
        let w2 = w1.update_lockfile(app, Some(version));
        assert(w.run_first(plan, 1) == (w1, Ok::<(), ErrorView>(())));
        assert(w.run_first(plan, 2) == (w2, Ok::<(), ErrorView>(())));
        assert(w2.link_pairs(app, version, w2.binaries(app, version).unwrap()) == pairs);
    } else {
        let w1 = w.update_lockfile(app, Some(version));
        assert(w1.link_pairs(app, version, w1.binaries(app, version).unwrap()) == pairs);
        lemma_link_over(w1.links, w1.journal, pairs, pairs.len() as int);
        let w2 = w1.link(app, version, true).0;
        assert(w.run_first(plan, 1) == (w1, Ok::<(), ErrorView>(())));
        assert(w.run_first(plan, 2) == (w2, Ok::<(), ErrorView>(())));
        assert(w2.link_pairs(app, version, w2.binaries(app, version).unwrap()) == pairs);
    }
}

/// The two commands that link a version over what is there and write it to
/// the lockfile, in one order or the other.
pub open spec fn spec_link_commands(app: Seq<char>, version: Seq<char>, link_first: bool) -> Seq<
    CommandView,
> {
    if link_first {
        seq![
            CommandView::Link { app, version, overwrite: true },
            CommandView::LockfileUpdate { app, version: Some(version) },
        ]
    } else {
        seq![
            CommandView::LockfileUpdate { app, version: Some(version) },
            CommandView::Link { app, version, overwrite: true },
        ]
    }
}

/// "Higher" is an order on version texts: no two are each higher than the
/// other, and what is higher than something higher than a third is higher
/// than the third. The `semver` crate documents its order as total; nothing
/// here can prove it, so what follows from it says so.
pub open spec fn higher_is_an_order() -> bool {
    &&& forall|a: Seq<char>, b: Seq<char>| #[trigger] spec_is_higher(a, b) ==> !spec_is_higher(b, a)
    &&& forall|a: Seq<char>, b: Seq<char>, c: Seq<char>|
        #[trigger] spec_is_higher(a, b) && #[trigger] spec_is_higher(b, c) ==> spec_is_higher(
            a,
            c,
        )
}

/// No entry of the list is higher than one that stands before it.
pub open spec fn descending(list: Seq<Seq<char>>) -> bool {
    forall|i: int, j: int|
        0 <= i < j < list.len() ==> !spec_is_higher(#[trigger] list[j], #[trigger] list[i])
}

/// What the place of insertion is: nothing before it is lower than the new
/// entry, and the entry at it, if any, is lower.
pub proof fn lemma_insert_position(sorted: Seq<Seq<char>>, x: Seq<char>, from: int)
    requires
        0 <= from <= sorted.len(),
    ensures
        from <= spec_insert_position(sorted, x, from) <= sorted.len(),
        forall|j: int|
            from <= j < spec_insert_position(sorted, x, from) ==> !spec_is_higher(
                x,
                #[trigger] sorted[j],
            ),
        spec_insert_position(sorted, x, from) < sorted.len() ==> spec_is_higher(
            x,
            sorted[spec_insert_position(sorted, x, from)],
        ),
    decreases sorted.len() - from,
{
    if from < sorted.len() && !spec_is_higher(x, sorted[from]) {
        lemma_insert_position(sorted, x, from + 1);
    }
}

/// Where "higher" is an order, the sorted list descends: the first entry is
/// the highest, and no entry is higher than one before it.
pub proof fn lemma_sort_descends(items: Seq<Seq<char>>)
    ensures
        higher_is_an_order() ==> descending(spec_sort_versions(items)),
    decreases items.len(),
{
    if higher_is_an_order() && items.len() > 0 {
        lemma_sort_descends(items.drop_last());
        let rest = spec_sort_versions(items.drop_last());
        let x = items.last();
        if crate::version::semver_parse(x) is Some {
            let p = spec_insert_position(rest, x, 0);
            lemma_insert_position(rest, x, 0);
            let out = rest.insert(p, x);
            rest.insert_ensures(p, x);
            assert forall|i: int, j: int| 0 <= i < j < out.len() implies !spec_is_higher(
                #[trigger] out[j],
                #[trigger] out[i],
            ) by {
                if j < p {
                    assert(out[i] == rest[i] && out[j] == rest[j]);
                } else if j == p {
                    assert(out[i] == rest[i]);
                } else if i < p {
                    assert(out[i] == rest[i]);
                    assert(out[(j - 1) + 1] == rest[j - 1]);
                } else if i == p {
                    assert(out[(j - 1) + 1] == rest[j - 1]);
                    // x is higher than rest[p], and rest[j - 1] is not higher
                    // than rest[p]: were it higher than x, it would be.
                    if j - 1 > p {
                        assert(!spec_is_higher(rest[j - 1], rest[p]));
                    }
                } else {
                    assert(out[(i - 1) + 1] == rest[i - 1]);
                    assert(out[(j - 1) + 1] == rest[j - 1]);
                }
            }
        }
    }
}

/// Where "higher" is an order and the list descends, the version that a
/// search gives is the highest of those that meet the requirement: none of
/// them is higher.
pub proof fn lemma_search_finds_highest(list: Seq<Seq<char>>, range: Seq<char>, j: int)
    requires
        descending(list),
        0 <= j < list.len(),
        semver_accepts(range, list[j]) == Some(true),
    ensures
        spec_search(list, range) is Some,
        higher_is_an_order() ==> !spec_is_higher(list[j], spec_search(list, range).unwrap()),
{
    lemma_first_match(list, range, 0);
    let i = spec_first_match(list, range, 0);
    if i >= list.len() {
        assert(semver_accepts(range, list[j]) != Some(true));
    }
}

/// In a list whose numbers descend, the version that a search gives has the
/// highest numbers of all that meet the requirement: none of them has higher
/// ones.
pub proof fn lemma_search_finds_highest_numbers(list: Seq<Seq<char>>, range: Seq<char>, j: int)
    requires
        core_descending(list),
        0 <= j < list.len(),
        semver_accepts(range, list[j]) == Some(true),
    ensures
        spec_search(list, range) is Some,
        !spec_core_less(spec_core(spec_search(list, range).unwrap()), spec_core(list[j])),
{
    lemma_first_match(list, range, 0);
    let i = spec_first_match(list, range, 0);
    if i >= list.len() {
        assert(semver_accepts(range, list[j]) != Some(true));
    }
}

/// The rank of a step: making a directory and installing into it come first,
/// finishing an installation second, everything else after that.
pub open spec fn step_rank(step: StepView) -> int {
    match step {
        StepView::CreateDirAll { .. } => 1,
        StepView::InstallApp { .. } => 1,
        StepView::PostInstall { .. } => 2,
        _ => 3,
    }
}

/// The rank of the steps that a command of a phase writes down.
pub open spec fn phase_rank(phase: int) -> int {
    if phase <= 1 {
        1
    } else if phase == 2 {
        2
    } else {
        3
    }
}

/// `after` is `before` with steps of one rank added at its end.
pub open spec fn grows_by(before: Seq<StepView>, after: Seq<StepView>, rank: int) -> bool {
    &&& before.len() <= after.len()
    &&& forall|i: int| 0 <= i < before.len() ==> #[trigger] after[i] == before[i]
    &&& forall|i: int| before.len() <= i < after.len() ==> step_rank(#[trigger] after[i]) == rank
}

/// From `base` on, the ranks of the steps never fall, and none is above
/// `top`.
pub open spec fn ranked_from(journal: Seq<StepView>, base: int, top: int) -> bool {
    &&& forall|i: int| base <= i < journal.len() ==> step_rank(#[trigger] journal[i]) <= top
    &&& forall|i: int, j: int|
        base <= i <= j < journal.len() ==> step_rank(#[trigger] journal[i]) <= step_rank(
            #[trigger] journal[j],
        )
}

pub proof fn lemma_link_grows(
    links: Map<Seq<char>, Seq<char>>,
    journal: Seq<StepView>,
    pairs: Seq<(Seq<char>, Seq<char>)>,
    overwrite: bool,
    n: int,
)
    ensures
        grows_by(journal, spec_link_first(links, journal, pairs, overwrite, n).1, 3),
    decreases n,
{
    if n > 0 {
        lemma_link_grows(links, journal, pairs, overwrite, n - 1);
    }
}

pub proof fn lemma_unlink_grows(
    links: Map<Seq<char>, Seq<char>>,
    journal: Seq<StepView>,
    pairs: Seq<(Seq<char>, Seq<char>)>,
    n: int,
)
    ensures
        grows_by(journal, spec_unlink_first(links, journal, pairs, n).1, 3),
    decreases n,
{
    if n > 0 {
        lemma_unlink_grows(links, journal, pairs, n - 1);
    }
}

/// Linking writes down nothing but removals of links and links.
pub proof fn lemma_world_link_grows(w: World, app: Seq<char>, version: Seq<char>, overwrite: bool)
    ensures
        grows_by(w.journal, w.link(app, version, overwrite).0.journal, 3),
{
    if w.is_installed(app, version) && w.binaries(app, version) is Some {
        let pairs = w.link_pairs(app, version, w.binaries(app, version).unwrap());
        lemma_link_grows(w.links, w.journal, pairs, overwrite, pairs.len() as int);
    }
}

/// Unlinking writes down nothing but removals of links.
pub proof fn lemma_world_unlink_grows(w: World, app: Seq<char>)
    ensures
        grows_by(w.journal, w.unlink(app).0.journal, 3),
{
    if w.lock.find(app) is Some {
        let version = w.lock.find(app).unwrap();
        if w.is_installed(app, version) && w.binaries(app, version) is Some {
            let pairs = w.link_pairs(app, version, w.binaries(app, version).unwrap());
            lemma_unlink_grows(w.links, w.journal, pairs, pairs.len() as int);
        }
    }
}

/// Uninstalling a version writes down no step of an installation.
pub proof fn lemma_world_uninstall_grows(w: World, app: Seq<char>, version: Seq<char>)
    ensures
        grows_by(w.journal, w.uninstall(app, version).0.journal, 3),
{
    if w.is_installed(app, version) && w.lock.find(app) is Some {
        if w.lock.find(app).unwrap() == version {
            lemma_world_unlink_grows(w, app);
            let w1 = w.unlink(app).0;
            if w.unlink(app).1 is Ok {
                let w2 = w1.drop_version(app, version);
                assert(grows_by(w.journal, w2.journal, 3));
                match w2.find_installed_major_release(app, "*"@) {
                    Some(release) => {
                        lemma_world_link_grows(w2, app, release, true);
                        let w3 = w2.link(app, release, true).0;
                        assert(grows_by(w.journal, w3.journal, 3));
                    },
                    None => {},
                }
            }
        }
    }
}

/// Uninstalling an app writes down no step of an installation.
pub proof fn lemma_world_uninstall_all_grows(w: World, app: Seq<char>)
    ensures
        grows_by(w.journal, w.uninstall_all(app).0.journal, 3),
{
    if w.installed.contains_key(app) {
        lemma_world_unlink_grows(w, app);
    }
}

/// What a command writes down has the rank of its phase.
pub proof fn lemma_apply_grows(w: World, command: CommandView)
    ensures
        grows_by(w.journal, w.apply(command).0.journal, phase_rank(spec_phase(command))),
{
    match command {
        CommandView::Install { app, version } => {},
        CommandView::PostInstall { app, version } => {},
        CommandView::Remove { app, version } => {
            lemma_world_uninstall_grows(w, app, version);
        },
        CommandView::RemoveAll { app } => {
            lemma_world_uninstall_all_grows(w, app);
        },
        CommandView::LockfileUpdate { app, version } => {},
        CommandView::Link { app, version, overwrite } => {
            lemma_world_link_grows(w, app, version, overwrite);
        },
        CommandView::Unlink { app } => {
            lemma_world_unlink_grows(w, app);
        },
    }
}

/// The journal after the first `n` steps of a plan: what was there stays,
/// and what was added is in the order of the ranks.
pub proof fn lemma_run_first_ranked(w: World, commands: Seq<CommandView>, n: int)
    requires
        0 <= n <= spec_plan(commands).len(),
    ensures
        w.journal.len() <= w.run_first(spec_plan(commands), n).0.journal.len(),
        forall|i: int|
            0 <= i < w.journal.len() ==> #[trigger] w.run_first(
                spec_plan(commands),
                n,
            ).0.journal[i] == w.journal[i],
        ranked_from(
            w.run_first(spec_plan(commands), n).0.journal,
            w.journal.len() as int,
            if n == 0 {
                1
            } else {
                phase_rank(spec_phase(spec_plan(commands)[n - 1]))
            },
        ),
    decreases n,
{
    let plan = spec_plan(commands);
    if n > 0 {
        lemma_run_first_ranked(w, commands, n - 1);
        let (w1, r1) = w.run_first(plan, n - 1);
        if n > 1 {
            lemma_plan_in_phase_order(commands, n - 2, n - 1);
        }
        if r1 is Ok {
            lemma_apply_grows(w1, plan[n - 1]);
        }
    }
}

/// Whatever the order in which the commands of a transaction were queued, and
/// whether it succeeds or fails on the way: in what it writes down, every
/// directory is made and every installation run before any installation is
/// finished, and every installation is finished before anything is removed,
/// linked or written to a lockfile. What the journal held before stays as it
/// was.
pub proof fn lemma_transaction_installs_first(w: World, commands: Seq<CommandView>, i: int, j: int)
    requires
        w.journal.len() <= i <= j < w.run(spec_plan(commands)).0.journal.len(),
    ensures
        step_rank(w.run(spec_plan(commands)).0.journal[i]) <= step_rank(
            w.run(spec_plan(commands)).0.journal[j],
        ),
        forall|k: int|
            0 <= k < w.journal.len() ==> #[trigger] w.run(spec_plan(commands)).0.journal[k]
                == w.journal[k],
{
    lemma_run_first_ranked(w, commands, spec_plan(commands).len() as int);
}

/// This version of the app can be given its links: the plugin has named its
/// binaries, and none of the links would lie where the running executable
/// lies.
pub open spec fn can_link(w: World, app: Seq<char>, version: Seq<char>) -> bool {
    &&& w.binaries(app, version) is Some
    &&& !spec_hits(
        w.link_pairs(app, version, w.binaries(app, version).unwrap()),
        w.current_exe,
        w.link_pairs(app, version, w.binaries(app, version).unwrap()).len() as int,
    )
}

/// What the last of the first `n` pairs with its link at `place` points to.
pub open spec fn spec_last_target(pairs: Seq<(Seq<char>, Seq<char>)>, place: Seq<char>, n: int) -> Seq<
    char,
>
    decreases n,
{
    if n <= 0 {
        Seq::empty()
    } else if pairs[n - 1].0 == place {
        pairs[n - 1].1
    } else {
        spec_last_target(pairs, place, n - 1)
    }
}

/// Whether one of the first `n` places holds a link.
pub open spec fn spec_any_taken(
    links: Map<Seq<char>, Seq<char>>,
    pairs: Seq<(Seq<char>, Seq<char>)>,
    n: int,
) -> bool
    decreases n,
{
    if n <= 0 {
        false
    } else {
        links.contains_key(pairs[n - 1].0) || spec_any_taken(links, pairs, n - 1)
    }
}

/// What linking over what is there makes of the links, whatever the pairs: a
/// place that a pair names holds what the last such pair points to, every
/// other place is as it was, and no link is left alone.
pub proof fn lemma_link_over_any(
    links: Map<Seq<char>, Seq<char>>,
    journal: Seq<StepView>,
    pairs: Seq<(Seq<char>, Seq<char>)>,
    n: int,
)
    ensures
        !spec_link_first(links, journal, pairs, true, n).2,
        forall|k: Seq<char>|
            spec_hits(pairs, k, n) ==> #[trigger] spec_link_first(
                links,
                journal,
                pairs,
                true,
                n,
            ).0.contains_key(k) && spec_link_first(links, journal, pairs, true, n).0[k]
                == spec_last_target(pairs, k, n),
        forall|k: Seq<char>|
            !spec_hits(pairs, k, n) ==> (#[trigger] spec_link_first(
                links,
                journal,
                pairs,
                true,
                n,
            ).0.contains_key(k) <==> links.contains_key(k)),
        forall|k: Seq<char>|
            !spec_hits(pairs, k, n) && links.contains_key(k) ==> #[trigger] spec_link_first(
                links,
                journal,
                pairs,
                true,
                n,
            ).0[k] == links[k],
    decreases n,
{
    if n > 0 {
        lemma_link_over_any(links, journal, pairs, n - 1);
    }
}

/// Linking a version over what is there, twice in a row, never fails where it
/// is installed and can be given its links, and the second time changes no
/// link: every link points where the first time left it.
pub proof fn lemma_link_twice(w: World, app: Seq<char>, version: Seq<char>)
    requires
        w.is_installed(app, version),
        can_link(w, app, version),
    ensures
        w.link(app, version, true).1 == Ok::<bool, ErrorView>(false),
        w.link(app, version, true).0.link(app, version, true).1 == Ok::<bool, ErrorView>(false),
        w.link(app, version, true).0.link(app, version, true).0.links == w.link(
            app,
            version,
            true,
        ).0.links,
{
    let pairs = w.link_pairs(app, version, w.binaries(app, version).unwrap());
    let n = pairs.len() as int;
    lemma_link_over_any(w.links, w.journal, pairs, n);
    let w1 = w.link(app, version, true).0;
    assert(w1.link_pairs(app, version, w1.binaries(app, version).unwrap()) == pairs);
    lemma_link_over_any(w1.links, w1.journal, pairs, n);
    let w2 = w1.link(app, version, true).0;
    assert forall|k: Seq<char>|
        (w2.links.contains_key(k) <==> w1.links.contains_key(k)) && (w1.links.contains_key(k)
            ==> w2.links[k] == w1.links[k]) by {
        if spec_hits(pairs, k, n) {
            assert(w2.links.contains_key(k) && w1.links.contains_key(k));
        } else {
            assert(w2.links.contains_key(k) <==> w1.links.contains_key(k));
        }
    }
    assert(w2.links =~= w1.links);
}

/// What linking beside what is there makes of the links, where no two pairs
/// name one place: a place that was free holds its link, every link that was
/// there is as it was, and a link was left alone exactly where a place was
/// taken.
pub proof fn lemma_link_beside(
    links: Map<Seq<char>, Seq<char>>,
    journal: Seq<StepView>,
    pairs: Seq<(Seq<char>, Seq<char>)>,
    n: int,
)
    requires
        0 <= n <= pairs.len(),
        distinct_places(pairs),
    ensures
        spec_link_first(links, journal, pairs, false, n).2 == spec_any_taken(links, pairs, n),
        forall|k: Seq<char>|
            links.contains_key(k) ==> #[trigger] spec_link_first(
                links,
                journal,
                pairs,
                false,
                n,
            ).0.contains_key(k) && spec_link_first(links, journal, pairs, false, n).0[k]
                == links[k],
        forall|i: int|
            0 <= i < n && !links.contains_key((#[trigger] pairs[i]).0) ==> spec_link_first(
                links,
                journal,
                pairs,
                false,
                n,
            ).0.contains_key(pairs[i].0) && spec_link_first(links, journal, pairs, false, n).0[pairs[i].0]
                == pairs[i].1,
        forall|k: Seq<char>|
            !spec_hits(pairs, k, n) ==> (#[trigger] spec_link_first(
                links,
                journal,
                pairs,
                false,
                n,
            ).0.contains_key(k) <==> links.contains_key(k)),
    decreases n,
{
    if n > 0 {
        lemma_link_beside(links, journal, pairs, n - 1);
        let before = spec_link_first(links, journal, pairs, false, n - 1).0;
        let after = spec_link_first(links, journal, pairs, false, n).0;
        let place = pairs[n - 1].0;
        lemma_place_not_before(pairs, n - 1);
        assert(before.contains_key(place) <==> links.contains_key(place));
        assert forall|i: int| 0 <= i < n && !links.contains_key((#[trigger] pairs[i]).0) implies
            after.contains_key(pairs[i].0) && after[pairs[i].0] == pairs[i].1 by {
            if i < n - 1 {
                assert(pairs[i].0 != pairs[n - 1].0);
            }
        }
    }
}

/// Where no two pairs name one place, the place of a pair is not among those
/// of the pairs before it.
pub proof fn lemma_place_not_before(pairs: Seq<(Seq<char>, Seq<char>)>, i: int)
    requires
        0 <= i < pairs.len(),
        distinct_places(pairs),
    ensures
        forall|n: int| 0 <= n <= i ==> !#[trigger] spec_hits(pairs, pairs[i].0, n),
{
    assert forall|n: int| 0 <= n <= i implies !#[trigger] spec_hits(pairs, pairs[i].0, n) by {
        lemma_no_hit(pairs, pairs[i].0, n, i);
    }
}

pub proof fn lemma_no_hit(pairs: Seq<(Seq<char>, Seq<char>)>, place: Seq<char>, n: int, i: int)
    requires
        0 <= n <= i < pairs.len(),
        forall|j: int| 0 <= j < i ==> (#[trigger] pairs[j]).0 != place,
    ensures
        !spec_hits(pairs, place, n),
    decreases n,
{
    if n > 0 {
        lemma_no_hit(pairs, place, n - 1, i);
    }
}

/// Installing a version of an app, where it can be given its links and no
/// two of its binaries share a name, never fails, and links and lockfile stay
/// in agreement. Where every place of its binaries was free, each binary is
/// linked into the version's directory and the lockfile names the version.
/// Where a place was taken, the lockfiles are as they were. Either way every
/// link that was there is as it was.
pub proof fn lemma_install_links_or_keeps(w: World, app: Seq<char>, version: Seq<char>)
    requires
        can_link(w, app, version),
        distinct_places(w.link_pairs(app, version, w.binaries(app, version).unwrap())),
    ensures
        w.install(app, version).1 is Ok,
        w.install(app, version).0.is_installed(app, version),
        !spec_any_taken(
            w.links,
            w.link_pairs(app, version, w.binaries(app, version).unwrap()),
            w.binaries(app, version).unwrap().len() as int,
        ) ==> is_linked(w.install(app, version).0, app, version) && w.install(
            app,
            version,
        ).0.lock.find(app) == Some(version),
        spec_any_taken(
            w.links,
            w.link_pairs(app, version, w.binaries(app, version).unwrap()),
            w.binaries(app, version).unwrap().len() as int,
        ) ==> w.install(app, version).0.lock == w.lock,
        forall|k: Seq<char>|
            w.links.contains_key(k) ==> #[trigger] w.install(app, version).0.links.contains_key(k)
                && w.install(app, version).0.links[k] == w.links[k],
{
    let pairs = w.link_pairs(app, version, w.binaries(app, version).unwrap());
    let n = pairs.len() as int;
    let w1 = w.install_specific_version(app, version);
    lemma_installed_after(w, app, version);
    assert(w1.link_pairs(app, version, w1.binaries(app, version).unwrap()) == pairs);
    lemma_link_beside(w1.links, w1.journal, pairs, n);
    let w2 = w1.link(app, version, false).0;
    if !spec_any_taken(w.links, pairs, n) {
        lemma_none_taken(w.links, pairs, n);
        let w3 = w2.update_lockfile(app, Some(version));
        assert(w3.link_pairs(app, version, w3.binaries(app, version).unwrap()) == pairs);
        assert(is_linked(w3, app, version));
    }
}

/// Where none of the first `n` places is taken, each of them is free.
pub proof fn lemma_none_taken(
    links: Map<Seq<char>, Seq<char>>,
    pairs: Seq<(Seq<char>, Seq<char>)>,
    n: int,
)
    requires
        !spec_any_taken(links, pairs, n),
    ensures
        forall|i: int| 0 <= i < n ==> !links.contains_key((#[trigger] pairs[i]).0),
    decreases n,
{
    if n > 0 {
        lemma_none_taken(links, pairs, n - 1);
    }
}

/// A version is installed once it has been installed.
pub proof fn lemma_installed_after(w: World, app: Seq<char>, version: Seq<char>)
    ensures
        w.install_version(app, version).is_installed(app, version),
        w.install_specific_version(app, version).is_installed(app, version),
{
    if !w.is_installed(app, version) {
        let list = w.installed_versions(app).push(version);
        assert(list[list.len() - 1] == version);
    }
}

/// What removing links makes of the links: none of the first `n` places holds
/// one, and every link that is left is as it was.
pub proof fn lemma_unlink_removes(
    links: Map<Seq<char>, Seq<char>>,
    journal: Seq<StepView>,
    pairs: Seq<(Seq<char>, Seq<char>)>,
    n: int,
)
    requires
        0 <= n <= pairs.len(),
    ensures
        forall|i: int|
            0 <= i < n ==> !spec_unlink_first(links, journal, pairs, n).0.contains_key(
                (#[trigger] pairs[i]).0,
            ),
        forall|k: Seq<char>|
            (#[trigger] spec_unlink_first(links, journal, pairs, n).0.contains_key(k))
                ==> links.contains_key(k) && spec_unlink_first(links, journal, pairs, n).0[k]
                == links[k],
    decreases n,
{
    if n > 0 {
        lemma_unlink_removes(links, journal, pairs, n - 1);
        let before = spec_unlink_first(links, journal, pairs, n - 1).0;
        let after = spec_unlink_first(links, journal, pairs, n).0;
        assert(after == if before.contains_key(pairs[n - 1].0) {
            before.remove(pairs[n - 1].0)
        } else {
            before
        });
        assert forall|k: Seq<char>| #[trigger] after.contains_key(k) implies links.contains_key(k)
            && after[k] == links[k] by {
            assert(before.contains_key(k));
        }
        assert forall|i: int| 0 <= i < n implies !after.contains_key((#[trigger] pairs[i]).0) by {
            if i < n - 1 {
                assert(!before.contains_key(pairs[i].0));
            }
        }
    }
}

/// What is taken out of a list is not in it.
pub proof fn lemma_without_absent(list: Seq<Seq<char>>, item: Seq<char>)
    ensures
        forall|i: int|
            0 <= i < spec_without(list, item).len() ==> #[trigger] spec_without(list, item)[i]
                != item,
        !spec_without(list, item).contains(item),
    decreases list.len(),
{
    if list.len() > 0 {
        lemma_without_absent(list.drop_last(), item);
    }
}

/// The world once the linked version of an app has lost its links and its
/// directory.
pub open spec fn spec_after_removal(w: World, app: Seq<char>, version: Seq<char>) -> World {
    w.unlink(app).0.drop_version(app, version)
}

/// Uninstalling the linked version of an app, where that succeeds, leaves
/// links and lockfile in agreement. The version is installed no more. Where
/// another version is linked in its place, each of that version's binaries is
/// linked into its directory and the lockfile names it. Where none is left,
/// no binary of the version has a link any more, and the app has neither a
/// lockfile entry nor a directory.
pub proof fn lemma_uninstall_of_linked(w: World, app: Seq<char>, version: Seq<char>)
    requires
        w.is_installed(app, version),
        w.lock.find(app) == Some(version),
        w.uninstall(app, version).1 is Ok,
        spec_after_removal(w, app, version).find_installed_major_release(app, "*"@) matches Some(
            release,
        ) ==> distinct_places(w.link_pairs(app, release, w.binaries(app, release).unwrap())),
    ensures
        !w.uninstall(app, version).0.is_installed(app, version),
        spec_after_removal(w, app, version).find_installed_major_release(app, "*"@) matches Some(
            release,
        ) ==> is_linked(w.uninstall(app, version).0, app, release) && w.uninstall(
            app,
            version,
        ).0.lock.find(app) == Some(release) && w.uninstall(app, version).0.is_installed(
            app,
            release,
        ),
        spec_after_removal(w, app, version).find_installed_major_release(app, "*"@) is None ==> {
            &&& w.uninstall(app, version).0.lock.find(app) is None
            &&& !w.uninstall(app, version).0.installed.contains_key(app)
            &&& forall|i: int|
                0 <= i < w.binaries(app, version).unwrap().len() ==> !w.uninstall(
                    app,
                    version,
                ).0.links.contains_key(
                    (#[trigger] w.link_pairs(app, version, w.binaries(app, version).unwrap())[i]).0,
                )
        },
{
    let pairs = w.link_pairs(app, version, w.binaries(app, version).unwrap());
    lemma_unlink_removes(w.links, w.journal, pairs, pairs.len() as int);
    let w1 = w.unlink(app).0;
    let w2 = w1.drop_version(app, version);
    lemma_without_absent(w1.installed_versions(app), version);
    assert(!w2.is_installed(app, version));
    match w2.find_installed_major_release(app, "*"@) {
        Some(release) => {
            let others = w2.link_pairs(app, release, w2.binaries(app, release).unwrap());
            assert(others == w.link_pairs(app, release, w.binaries(app, release).unwrap()));
            lemma_link_over(w2.links, w2.journal, others, others.len() as int);
            let w3 = w2.link(app, release, true).0;
            let w4 = w3.update_lockfile(app, Some(release));
            assert(w4.link_pairs(app, release, w4.binaries(app, release).unwrap()) == others);
            assert(is_linked(w4, app, release));
        },
        None => {},
    }
}

/// The three commands that install a version, link it over what is there and
/// write it to the lockfile, in any of their six orders: the installation
/// stands at `install_at`, and the link before or after the lockfile.
pub open spec fn spec_install_commands(
    app: Seq<char>,
    version: Seq<char>,
    install_at: int,
    link_first: bool,
) -> Seq<CommandView> {
    let install = CommandView::Install { app, version };
    let link = CommandView::Link { app, version, overwrite: true };
    let lock = CommandView::LockfileUpdate { app, version: Some(version) };
    let first = if link_first {
        link
    } else {
        lock
    };
    let second = if link_first {
        lock
    } else {
        link
    };
    if install_at <= 0 {
        seq![install, first, second]
    } else if install_at == 1 {
        seq![first, install, second]
    } else {
        seq![first, second, install]
    }
}

/// A transaction that installs a version, links it over what is there and
/// writes it to the lockfile succeeds wherever the version can be given its
/// links and no two of its binaries share a name, in whichever order the
/// three commands were queued; and then the version is installed, each of its
/// binaries is linked into its directory, and the lockfile names it.
pub proof fn lemma_install_transaction(
    w: World,
    app: Seq<char>,
    version: Seq<char>,
    install_at: int,
    link_first: bool,
)
    requires
        can_link(w, app, version),
        distinct_places(w.link_pairs(app, version, w.binaries(app, version).unwrap())),
    ensures
        w.run(spec_plan(spec_install_commands(app, version, install_at, link_first))).1 is Ok,
        w.run(spec_plan(spec_install_commands(app, version, install_at, link_first))).0.is_installed(
            app,
            version,
        ),
        is_linked(
            w.run(spec_plan(spec_install_commands(app, version, install_at, link_first))).0,
            app,
            version,
        ),
        w.run(spec_plan(spec_install_commands(app, version, install_at, link_first))).0.lock.find(
            app,
        ) == Some(version),
{
    let install = CommandView::Install { app, version };
    let post = CommandView::PostInstall { app, version };
    let link = CommandView::Link { app, version, overwrite: true };
    let lock = CommandView::LockfileUpdate { app, version: Some(version) };
    let first = if link_first { link } else { lock };
    let second = if link_first { lock } else { link };
    let commands = spec_install_commands(app, version, install_at, link_first);
    let plan = spec_plan(commands);
    lemma_install_plan(app, version, install_at, link_first);
    assert(plan == seq![install, post, first, second]);
    let pairs = w.link_pairs(app, version, w.binaries(app, version).unwrap());
    lemma_installed_after(w, app, version);
    let wi = w.install_version(app, version).post_install_version(app, version);
    assert(w.run_first(plan, 0) == (w, Ok::<(), ErrorView>(())));
    assert(w.run_first(plan, 1) == (w.install_version(app, version), Ok::<(), ErrorView>(())));
    assert(w.run_first(plan, 2) == (wi, Ok::<(), ErrorView>(())));
    assert(wi.link_pairs(app, version, wi.binaries(app, version).unwrap()) == pairs);
    lemma_link_over(wi.links, wi.journal, pairs, pairs.len() as int);
    if link_first {
        let w1 = wi.link(app, version, true).0;
        let w2 = w1.update_lockfile(app, Some(version));
        assert(w.run_first(plan, 3) == (w1, Ok::<(), ErrorView>(())));
        assert(w.run_first(plan, 4) == (w2, Ok::<(), ErrorView>(())));
        assert(w2.link_pairs(app, version, w2.binaries(app, version).unwrap()) == pairs);
    } else {
        let w1 = wi.update_lockfile(app, Some(version));
        assert(w1.link_pairs(app, version, w1.binaries(app, version).unwrap()) == pairs);
        lemma_link_over(w1.links, w1.journal, pairs, pairs.len() as int);
        let w2 = w1.link(app, version, true).0;
        assert(w.run_first(plan, 3) == (w1, Ok::<(), ErrorView>(())));
        assert(w.run_first(plan, 4) == (w2, Ok::<(), ErrorView>(())));
        assert(w2.link_pairs(app, version, w2.binaries(app, version).unwrap()) == pairs);
    }
}

/// The steps that three commands bring to a phase.
pub proof fn lemma_queue_of_three(c0: CommandView, c1: CommandView, c2: CommandView, phase: int)
    ensures
        crate::transaction::spec_queue(seq![c0, c1, c2], phase) == spec_steps_in(c0, phase)
            + spec_steps_in(c1, phase) + spec_steps_in(c2, phase),
{
    let none = Seq::<CommandView>::empty();
    assert(crate::transaction::spec_queue(none, phase) =~= none);
    crate::transaction::lemma_queue_push(none, c0, phase);
    crate::transaction::lemma_queue_push(none.push(c0), c1, phase);
    crate::transaction::lemma_queue_push(none.push(c0).push(c1), c2, phase);
    assert(none.push(c0).push(c1).push(c2) =~= seq![c0, c1, c2]);
    assert(crate::transaction::spec_queue(seq![c0, c1, c2], phase) =~= spec_steps_in(c0, phase)
        + spec_steps_in(c1, phase) + spec_steps_in(c2, phase));
}

/// The steps that a command brings to a phase, as a list of at most one.
pub open spec fn spec_steps_in(command: CommandView, phase: int) -> Seq<CommandView> {
    match crate::transaction::spec_step_in(command, phase) {
        Some(step) => seq![step],
        None => Seq::empty(),
    }
}

/// The plan of the three commands, whatever their order: the installation,
/// its finishing, and then link and lockfile in the order in which they were
/// queued.
pub proof fn lemma_install_plan(
    app: Seq<char>,
    version: Seq<char>,
    install_at: int,
    link_first: bool,
)
    ensures
        spec_plan(spec_install_commands(app, version, install_at, link_first)) == seq![
            CommandView::Install { app, version },
            CommandView::PostInstall { app, version },
            if link_first {
                CommandView::Link { app, version, overwrite: true }
            } else {
                CommandView::LockfileUpdate { app, version: Some(version) }
            },
            if link_first {
                CommandView::LockfileUpdate { app, version: Some(version) }
            } else {
                CommandView::Link { app, version, overwrite: true }
            },
        ],
{
    let commands = spec_install_commands(app, version, install_at, link_first);
    let c0 = commands[0];
    let c1 = commands[1];
    let c2 = commands[2];
    assert(commands =~= seq![c0, c1, c2]);
    lemma_queue_of_three(c0, c1, c2, 1);
    lemma_queue_of_three(c0, c1, c2, 2);
    lemma_queue_of_three(c0, c1, c2, 3);
    lemma_queue_of_three(c0, c1, c2, 4);
    let install = CommandView::Install { app, version };
    let post = CommandView::PostInstall { app, version };
    let link = CommandView::Link { app, version, overwrite: true };
    let lock = CommandView::LockfileUpdate { app, version: Some(version) };
    let first = if link_first { link } else { lock };
    let second = if link_first { lock } else { link };
    assert(crate::transaction::spec_queue(commands, 1) =~= seq![install]);
    assert(crate::transaction::spec_queue(commands, 2) =~= seq![post]);
    assert(crate::transaction::spec_queue(commands, 3) =~= Seq::<CommandView>::empty());
    assert(crate::transaction::spec_queue(commands, 4) =~= seq![first, second]);
    assert(spec_plan(commands) =~= seq![install, post, first, second]);
}

} // verus!
