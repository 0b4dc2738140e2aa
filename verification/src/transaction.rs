//! Transactions: commands are queued in any order and carried out in four
//! phases: installing, finishing the installations, removing, and then the
//! changes to lockfile and links.
use crate::errors::{same_result, CyreneError, ErrorView};
use crate::manager::{CyreneManager, TransactionStep};
use crate::world::{CommandView, World};
use vstd::prelude::*;

verus! {

/// What can be asked of a transaction.
#[derive(Debug, PartialEq, Eq)]
#[allow(inconsistent_fields)]
pub enum TransactionCommands {
    Install { app: String, version: String },
    Remove { app: String, version: String },
    RemoveAll { app: String },
    LockfileUpdate { app: String, version: Option<String> },
    Link { app: String, version: String, overwrite: bool },
    Unlink { app: String },
}

impl DeepView for TransactionCommands {
    type V = CommandView;

    open spec fn deep_view(&self) -> CommandView {
        match self {
            TransactionCommands::Install { app, version } => CommandView::Install {
                app: app@,
                version: version@,
            },
            TransactionCommands::Remove { app, version } => CommandView::Remove {
                app: app@,
                version: version@,
            },
            TransactionCommands::RemoveAll { app } => CommandView::RemoveAll { app: app@ },
            TransactionCommands::LockfileUpdate { app, version } => CommandView::LockfileUpdate {
                app: app@,
                version: version.deep_view(),
            },
            TransactionCommands::Link { app, version, overwrite } => CommandView::Link {
                app: app@,
                version: version@,
                overwrite: *overwrite,
            },
            TransactionCommands::Unlink { app } => CommandView::Unlink { app: app@ },
        }
    }
}

/// The phase in which a step is carried out.
pub open spec fn spec_phase(step: CommandView) -> int {
    match step {
        CommandView::Install { .. } => 1,
        CommandView::PostInstall { .. } => 2,
        CommandView::Remove { .. } => 3,
        CommandView::RemoveAll { .. } => 3,
        CommandView::LockfileUpdate { .. } => 4,
        CommandView::Link { .. } => 4,
        CommandView::Unlink { .. } => 4,
    }
}

/// The step that a command brings to a phase, if any. An installation brings
/// one to the first phase and its finishing to the second; every other
/// command brings itself to its own phase.
pub open spec fn spec_step_in(command: CommandView, phase: int) -> Option<CommandView> {
    match command {
        CommandView::Install { app, version } => if phase == 1 {
            Some(command)
        } else if phase == 2 {
            Some(CommandView::PostInstall { app, version })
        } else {
            None
        },
        CommandView::PostInstall { .. } => None,
        _ => if phase == spec_phase(command) {
            Some(command)
        } else {
            None
        },
    }
}

/// The steps of one phase: those that the commands bring to it, in the order
/// in which the commands were queued.
pub open spec fn spec_queue(commands: Seq<CommandView>, phase: int) -> Seq<CommandView>
    decreases commands.len(),
{
    if commands.len() == 0 {
        Seq::empty()
    } else {
        let rest = spec_queue(commands.drop_last(), phase);
        match spec_step_in(commands.last(), phase) {
            Some(step) => rest.push(step),
            None => rest,
        }
    }
}

/// The steps of a transaction in the order in which they are carried out:
/// phase after phase.
pub open spec fn spec_plan(commands: Seq<CommandView>) -> Seq<CommandView> {
    spec_queue(commands, 1) + spec_queue(commands, 2) + spec_queue(commands, 3) + spec_queue(
        commands,
        4,
    )
}

/// Every step of a phase's queue belongs to that phase.
pub proof fn lemma_queue_phase(commands: Seq<CommandView>, phase: int, i: int)
    requires
        0 <= i < spec_queue(commands, phase).len(),
    ensures
        spec_phase(spec_queue(commands, phase)[i]) == phase,
    decreases commands.len(),
{
    if commands.len() > 0 {
        let rest = spec_queue(commands.drop_last(), phase);
        if i < rest.len() {
            lemma_queue_phase(commands.drop_last(), phase, i);
        }
    }
}

/// Whatever the order in which the commands were queued, the plan goes
/// through the phases in their order: no step stands before a step of an
/// earlier phase. So everything is installed before any installation is
/// finished, every installation is finished before anything is removed, and
/// lockfile and links change only after that.
pub proof fn lemma_plan_in_phase_order(commands: Seq<CommandView>, i: int, j: int)
    requires
        0 <= i <= j < spec_plan(commands).len(),
    ensures
        spec_phase(spec_plan(commands)[i]) <= spec_phase(spec_plan(commands)[j]),
{
    lemma_plan_phase_at(commands, i);
    lemma_plan_phase_at(commands, j);
}

/// The phase of the step at a place of the plan, by the lengths of the
/// queues.
pub proof fn lemma_plan_phase_at(commands: Seq<CommandView>, i: int)
    requires
        0 <= i < spec_plan(commands).len(),
    ensures
        spec_phase(spec_plan(commands)[i]) == spec_phase_at(commands, i),
        1 <= spec_phase_at(commands, i) <= 4,
{
    let q1 = spec_queue(commands, 1);
    let q2 = spec_queue(commands, 2);
    let q3 = spec_queue(commands, 3);
    let q4 = spec_queue(commands, 4);
    if i < q1.len() {
        lemma_queue_phase(commands, 1, i);
    } else if i < q1.len() + q2.len() {
        lemma_queue_phase(commands, 2, i - q1.len());
    } else if i < q1.len() + q2.len() + q3.len() {
        lemma_queue_phase(commands, 3, i - q1.len() - q2.len());
    } else {
        lemma_queue_phase(commands, 4, i - q1.len() - q2.len() - q3.len());
    }
}

/// The phase that the place `i` of the plan falls into.
pub open spec fn spec_phase_at(commands: Seq<CommandView>, i: int) -> int {
    if i < spec_queue(commands, 1).len() {
        1
    } else if i < spec_queue(commands, 1).len() + spec_queue(commands, 2).len() {
        2
    } else if i < spec_queue(commands, 1).len() + spec_queue(commands, 2).len() + spec_queue(
        commands,
        3,
    ).len() {
        3
    } else {
        4
    }
}

/// A command that is queued last has its steps last in their phases.
pub proof fn lemma_queue_push(commands: Seq<CommandView>, command: CommandView, phase: int)
    ensures
        spec_queue(commands.push(command), phase) == match spec_step_in(command, phase) {
            Some(step) => spec_queue(commands, phase).push(step),
            None => spec_queue(commands, phase),
        },
{
    assert(commands.push(command).drop_last() =~= commands);
}

/// Once a command of a run has failed, the run has ended: the world and the
/// error stay what they are.
pub proof fn lemma_run_stops(w: World, commands: Seq<CommandView>, n: int, m: int)
    requires
        n <= m,
        w.run_first(commands, n).1 is Err,
    ensures
        w.run_first(commands, m) == w.run_first(commands, n),
    decreases m - n,
{
    if n < m {
        lemma_run_stops(w, commands, n, m - 1);
    }
}

fn copy_option(o: &Option<String>) -> (r: Option<String>)
    ensures
        r.deep_view() == o.deep_view(),
{
    match o {
        Some(s) => Some(s.clone()),
        None => None,
    }
}

fn copy_step(step: &TransactionStep) -> (r: TransactionStep)
    ensures
        r.deep_view() == step.deep_view(),
{
    match step {
        TransactionStep::Install { app, version } => TransactionStep::Install {
            app: app.clone(),
            version: version.clone(),
        },
        TransactionStep::PostInstall { app, version } => TransactionStep::PostInstall {
            app: app.clone(),
            version: version.clone(),
        },
        TransactionStep::Remove { app, version } => TransactionStep::Remove {
            app: app.clone(),
            version: version.clone(),
        },
        TransactionStep::RemoveAll { app } => TransactionStep::RemoveAll { app: app.clone() },
        TransactionStep::LockfileUpdate { app, version } => TransactionStep::LockfileUpdate {
            app: app.clone(),
            version: copy_option(version),
        },
        TransactionStep::Link { app, version, overwrite } => TransactionStep::Link {
            app: app.clone(),
            version: version.clone(),
            overwrite: *overwrite,
        },
        TransactionStep::Unlink { app } => TransactionStep::Unlink { app: app.clone() },
    }
}

fn push_copies(out: &mut Vec<TransactionStep>, queue: &Vec<TransactionStep>)
    ensures
        final(out).deep_view() == old(out).deep_view() + queue.deep_view(),
{
    let mut i: usize = 0;
    assert(queue.deep_view().take(0) =~= Seq::<CommandView>::empty());
    assert(old(out).deep_view() + Seq::<CommandView>::empty() =~= old(out).deep_view());
    while i < queue.len()
        invariant
            i <= queue.len(),
            out.deep_view() == old(out).deep_view() + queue.deep_view().take(i as int),
        decreases queue.len() - i,
    {
        let ghost before = out.deep_view();
        let step = copy_step(&queue[i]);
        out.push(step);
        proof {
            assert(queue.deep_view()[i as int] == queue[i as int].deep_view());
            assert(out.deep_view() =~= before.push(queue[i as int].deep_view()));
            assert(queue.deep_view().take(i + 1) =~= queue.deep_view().take(i as int).push(
                queue.deep_view()[i as int],
            ));
        }
        i += 1;
    }
    assert(queue.deep_view().take(queue.len() as int) =~= queue.deep_view());
}

fn push_command(queue: &mut Vec<TransactionStep>, step: TransactionStep)
    ensures
        final(queue).deep_view() == old(queue).deep_view().push(step.deep_view()),
{
    let ghost before = queue.deep_view();
    let ghost sv = step.deep_view();
    queue.push(step);
    assert(queue.deep_view() =~= before.push(sv));
}

/// A transaction: the manager that it works on, and the queued steps, one
/// queue per phase.
pub struct TransactionExecutor {
    manager: CyreneManager,
    // Installation commands are run first
    install: Vec<TransactionStep>,
    // Then post installs
    post_install: Vec<TransactionStep>,
    // Then removes (for upgrading)
    remove: Vec<TransactionStep>,
    // Update lockfiles here
    finish: Vec<TransactionStep>,
    commands: Ghost<Seq<CommandView>>,
}

impl TransactionExecutor {
    /// The commands that were queued, in the order in which they came.
    pub closed spec fn commands(&self) -> Seq<CommandView> {
        self.commands@
    }

    /// The world as the manager of the transaction sees it.
    pub closed spec fn world(&self) -> World {
        self.manager@
    }

    /// The queues hold what the commands have brought to their phases.
    pub closed spec fn wf(&self) -> bool {
        &&& self.manager.wf()
        &&& self.install.deep_view() == spec_queue(self.commands@, 1)
        &&& self.post_install.deep_view() == spec_queue(self.commands@, 2)
        &&& self.remove.deep_view() == spec_queue(self.commands@, 3)
        &&& self.finish.deep_view() == spec_queue(self.commands@, 4)
    }

    /// A transaction on `manager` with nothing queued.
    pub fn new(manager: CyreneManager) -> (r: Self)
        requires
            manager.wf(),
        ensures
            r.wf(),
            r.world() == manager@,
            r.commands() == Seq::<CommandView>::empty(),
    {
        let r = TransactionExecutor {
            manager,
            install: Vec::new(),
            post_install: Vec::new(),
            remove: Vec::new(),
            finish: Vec::new(),
            commands: Ghost(Seq::empty()),
        };
        assert(r.install.deep_view() =~= Seq::<CommandView>::empty());
        assert(r.post_install.deep_view() =~= Seq::<CommandView>::empty());
        assert(r.remove.deep_view() =~= Seq::<CommandView>::empty());
        assert(r.finish.deep_view() =~= Seq::<CommandView>::empty());
        r
    }

    /// The manager of the transaction.
    pub fn manager(&self) -> (r: &CyreneManager)
        ensures
            r@ == self.world(),
            self.wf() ==> r.wf(),
    {
        &self.manager
    }

    /// Ends the transaction and hands its manager back.
    pub fn into_manager(self) -> (r: CyreneManager)
        ensures
            r@ == self.world(),
            self.wf() ==> r.wf(),
    {
        self.manager
    }

    /// Queues a command: its steps go to the end of the queues of their
    /// phases.
    pub fn add(&mut self, cmd: TransactionCommands)
        requires
            old(self).wf(),
        ensures
            final(self).wf(),
            final(self).world() == old(self).world(),
            final(self).commands() == old(self).commands().push(cmd.deep_view()),
    {
        proof {
            lemma_queue_push(self.commands@, cmd.deep_view(), 1);
            lemma_queue_push(self.commands@, cmd.deep_view(), 2);
            lemma_queue_push(self.commands@, cmd.deep_view(), 3);
            lemma_queue_push(self.commands@, cmd.deep_view(), 4);
            self.commands@ = self.commands@.push(cmd.deep_view());
        }
        match cmd {
            TransactionCommands::Install { app, version } => {
                push_command(
                    &mut self.install,
                    TransactionStep::Install { app: app.clone(), version: version.clone() },
                );
                push_command(&mut self.post_install, TransactionStep::PostInstall { app, version });
            },
            TransactionCommands::Remove { app, version } => {
                push_command(&mut self.remove, TransactionStep::Remove { app, version });
            },
            TransactionCommands::RemoveAll { app } => {
                push_command(&mut self.remove, TransactionStep::RemoveAll { app });
            },
            TransactionCommands::LockfileUpdate { app, version } => {
                push_command(&mut self.finish, TransactionStep::LockfileUpdate { app, version });
            },
            TransactionCommands::Link { app, version, overwrite } => {
                push_command(&mut self.finish, TransactionStep::Link { app, version, overwrite });
            },
            TransactionCommands::Unlink { app } => {
                push_command(&mut self.finish, TransactionStep::Unlink { app });
            },
        };
    }

    /// The steps of the transaction in the order in which they are carried
    /// out.
    pub fn plan(&self) -> (r: Vec<TransactionStep>)
        requires
            self.wf(),
        ensures
            r.deep_view() == spec_plan(self.commands()),
    {
        let mut out: Vec<TransactionStep> = Vec::new();
        assert(out.deep_view() =~= Seq::<CommandView>::empty());
        push_copies(&mut out, &self.install);
        push_copies(&mut out, &self.post_install);
        push_copies(&mut out, &self.remove);
        push_copies(&mut out, &self.finish);
        assert(out.deep_view() =~= spec_plan(self.commands()));
        out
    }

    /// Carries the transaction out: the steps of the plan, one after the
    /// other, on the manager. The first step that fails ends it with its
    /// error; what was done before stays done, and nothing is rolled back.
    /// The queues stay as they are.
    pub fn execute(&mut self) -> (r: Result<bool, CyreneError>)
        requires
            old(self).wf(),
        ensures
            final(self).wf(),
            final(self).commands() == old(self).commands(),
            final(self).world() == old(self).world().run(spec_plan(old(self).commands())).0,
            r matches Ok(b) ==> b && old(self).world().run(spec_plan(old(self).commands())).1
                is Ok,
            r matches Err(e) ==> old(self).world().run(spec_plan(old(self).commands())).1 == Err::<
                (),
                ErrorView,
            >(e@),
    {
        let plan = self.plan();
        let mut i: usize = 0;
        while i < plan.len()
            invariant
                self.wf(),
                i <= plan.len(),
                self.commands() == old(self).commands(),
                plan.deep_view() == spec_plan(old(self).commands()),
                self.world() == old(self).world().run_first(plan.deep_view(), i as int).0,
                old(self).world().run_first(plan.deep_view(), i as int).1 is Ok,
            decreases plan.len() - i,
        {
            assert(plan.deep_view()[i as int] == plan[i as int].deep_view());
            match self.manager.apply(&plan[i]) {
                Err(e) => {
                    proof {
                        lemma_run_stops(
                            old(self).world(),
                            plan.deep_view(),
                            i + 1,
                            plan.len() as int,
                        );
                    }
                    return Err(e);
                },
                Ok(_) => {},
            }
            i += 1;
        }
        Ok(true)
    }
}

} // verus!
