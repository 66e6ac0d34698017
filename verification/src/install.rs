//! The install orchestrator: a prioritized, source-aware fallback across
//! external installer programs. The decisions live here as a state
//! machine; the caller performs the probes and the process spawns and
//! feeds the outcomes back in.

use vstd::prelude::*;

use crate::candidate::Source;

verus! {

/// An external installer program the orchestrator can delegate to.
#[derive(Clone, Copy, Debug, PartialEq, Eq, Structural)]
pub enum Installer {
    Pacman,
    Yay,
    Paru,
}

/// One step of the fallback plan: which installer to try, and whether its
/// presence on the host must be probed first. The primary manager is
/// assumed present and invoked unconditionally.
#[derive(Clone, Copy, Debug, PartialEq, Eq, Structural)]
pub struct PlanEntry {
    pub installer: Installer,
    pub probe_first: bool,
}

/// The prioritized plan for a package of the given source: for `official`
/// and `unknown` the primary manager first, then the helpers; a package
/// known to come from the community catalog skips the primary manager.
/// A failed primary attempt still falls through to the helpers, so a
/// misclassified package can be rescued.
pub open spec fn plan_spec(source: Source) -> Seq<PlanEntry> {
    match source {
        Source::Aur => seq![
            (PlanEntry { installer: Installer::Yay, probe_first: true }),
            (PlanEntry { installer: Installer::Paru, probe_first: true }),
        ],
        _ => seq![
            (PlanEntry { installer: Installer::Pacman, probe_first: false }),
            (PlanEntry { installer: Installer::Yay, probe_first: true }),
            (PlanEntry { installer: Installer::Paru, probe_first: true }),
        ],
    }
}

/// Where the orchestrator stands: waiting on a presence probe, waiting on
/// an invoked attempt, or finished one way or the other.
#[derive(Clone, Copy, Debug, PartialEq, Eq, Structural)]
pub enum Phase {
    Probing,
    Attempting,
    Succeeded(Installer),
    Exhausted,
}

/// The mathematical state of a flow: the plan, the current position, the
/// phase, and every installer actually invoked so far, in order.
pub struct FlowModel {
    pub plan: Seq<PlanEntry>,
    pub pos: int,
    pub phase: Phase,
    pub attempted: Seq<Installer>,
}

pub open spec fn model_wf(m: FlowModel) -> bool {
    &&& 0 <= m.pos <= m.plan.len()
    &&& (m.phase is Probing ==> m.pos < m.plan.len() && m.plan[m.pos].probe_first)
    &&& (m.phase is Attempting ==> m.pos < m.plan.len())
}

/// Settles at entry `pos`: past the end the flow is exhausted; a
/// probe-first entry waits for its probe; any other entry is invoked at
/// once, which records it as attempted.
pub open spec fn settle(plan: Seq<PlanEntry>, pos: int, attempted: Seq<Installer>) -> FlowModel {
    if pos >= plan.len() {
        FlowModel { plan, pos, phase: Phase::Exhausted, attempted }
    } else if plan[pos].probe_first {
        FlowModel { plan, pos, phase: Phase::Probing, attempted }
    } else {
        FlowModel {
            plan,
            pos,
            phase: Phase::Attempting,
            attempted: attempted.push(plan[pos].installer),
        }
    }
}

/// The state a fresh flow starts in.
pub open spec fn init_model(source: Source) -> FlowModel {
    settle(plan_spec(source), 0, Seq::empty())
}

/// The effect of a probe answer: a present installer is invoked (and
/// recorded); an absent one is skipped without being recorded.
pub open spec fn probe_step(m: FlowModel, present: bool) -> FlowModel {
    if present {
        FlowModel {
            plan: m.plan,
            pos: m.pos,
            phase: Phase::Attempting,
            attempted: m.attempted.push(m.plan[m.pos].installer),
        }
    } else {
        settle(m.plan, m.pos + 1, m.attempted)
    }
}

/// The effect of an attempt outcome: success ends the flow; any failure
/// merely advances to the next entry of the plan.
pub open spec fn attempt_step(m: FlowModel, success: bool) -> FlowModel {
    if success {
        FlowModel {
            plan: m.plan,
            pos: m.pos,
            phase: Phase::Succeeded(m.plan[m.pos].installer),
            attempted: m.attempted,
        }
    } else {
        settle(m.plan, m.pos + 1, m.attempted)
    }
}

fn settle_exec(plan: &Vec<PlanEntry>, pos: usize, attempted: &mut Vec<Installer>) -> (ph: Phase)
    ensures
        ({
            let m = settle(plan@, pos as int, old(attempted)@);
            ph == m.phase && final(attempted)@ == m.attempted
        }),
{
    if pos >= plan.len() {
        Phase::Exhausted
    } else if plan[pos].probe_first {
        Phase::Probing
    } else {
        attempted.push(plan[pos].installer);
        Phase::Attempting
    }
}

fn plan_for(source: Source) -> (p: Vec<PlanEntry>)
    ensures
        p@ == plan_spec(source),
{
    let mut p: Vec<PlanEntry> = Vec::new();
    match source {
        Source::Aur => (),
        _ => p.push(PlanEntry { installer: Installer::Pacman, probe_first: false }),
    }
    p.push(PlanEntry { installer: Installer::Yay, probe_first: true });
    p.push(PlanEntry { installer: Installer::Paru, probe_first: true });
    proof {
        assert(p@ =~= plan_spec(source));
    }
    p
}

/// One installation flow, run once per request. The caller asks for the
/// phase, performs the probe or the attempt it names, and feeds the
/// outcome back until the flow is finished.
pub struct InstallFlow {
    plan: Vec<PlanEntry>,
    pos: usize,
    phase: Phase,
    attempted: Vec<Installer>,
}

impl View for InstallFlow {
    type V = FlowModel;

    closed spec fn view(&self) -> FlowModel {
        FlowModel {
            plan: self.plan@,
            pos: self.pos as int,
            phase: self.phase,
            attempted: self.attempted@,
        }
    }
}

impl InstallFlow {
    pub open spec fn wf(&self) -> bool {
        model_wf(self@)
    }

    /// Starts the flow for a package of the given source.
    pub fn new(source: Source) -> (flow: InstallFlow)
        ensures
            flow@ == init_model(source),
            flow.wf(),
    {
        let plan = plan_for(source);
        let mut attempted: Vec<Installer> = Vec::new();
        let phase = settle_exec(&plan, 0, &mut attempted);
        InstallFlow { plan, pos: 0, phase, attempted }
    }

    /// Where the flow stands; tells the caller what to do next.
    pub fn current_phase(&self) -> (p: Phase)
        ensures
            p == self@.phase,
    {
        self.phase
    }

    /// Which installer the pending probe or attempt concerns.
    pub fn current_installer(&self) -> (i: Installer)
        requires
            self.wf(),
            self@.phase is Probing || self@.phase is Attempting,
        ensures
            i == self@.plan[self@.pos].installer,
    {
        self.plan[self.pos].installer
    }

    /// Every installer actually invoked so far, in invocation order —
    /// probed-but-absent programs are not in it.
    pub fn attempted(&self) -> (a: &Vec<Installer>)
        ensures
            a@ == self@.attempted,
    {
        &self.attempted
    }

    /// Feeds back the presence probe the flow is waiting on.
    pub fn probe_done(&mut self, present: bool)
        requires
            old(self).wf(),
            old(self)@.phase is Probing,
        ensures
            final(self)@ == probe_step(old(self)@, present),
            final(self).wf(),
    {
        if present {
            let inst = self.plan[self.pos].installer;
            self.attempted.push(inst);
            self.phase = Phase::Attempting;
        } else {
            let n: usize = self.plan.len();
            assert(self.pos < n);
            self.pos = self.pos + 1;
            self.phase = settle_exec(&self.plan, self.pos, &mut self.attempted);
        }
    }

    /// Feeds back the outcome of the attempt the flow is waiting on: any
    /// failure (a non-zero exit as well as a spawn that never ran) only
    /// advances the fallback; success ends it.
    pub fn attempt_done(&mut self, success: bool)
        requires
            old(self).wf(),
            old(self)@.phase is Attempting,
        ensures
            final(self)@ == attempt_step(old(self)@, success),
            final(self).wf(),
    {
        if success {
            let inst = self.plan[self.pos].installer;
            self.phase = Phase::Succeeded(inst);
        } else {
            let n: usize = self.plan.len();
            assert(self.pos < n);
            self.pos = self.pos + 1;
            self.phase = settle_exec(&self.plan, self.pos, &mut self.attempted);
        }
    }
}

/// The program name of an installer, as probed for and invoked.
pub fn installer_name(i: Installer) -> (r: &'static str)
    ensures
        r@ == installer_name_spec(i),
{
    match i {
        Installer::Pacman => "pacman",
        Installer::Yay => "yay",
        Installer::Paru => "paru",
    }
}

pub open spec fn installer_name_spec(i: Installer) -> Seq<char> {
    match i {
        Installer::Pacman => "pacman"@,
        Installer::Yay => "yay"@,
        Installer::Paru => "paru"@,
    }
}

/// The words of the command an attempt runs: the primary manager through
/// `sudo` with its non-interactive flag, the helpers with their standard
/// install flag.
pub open spec fn command_line_spec(i: Installer, package: Seq<char>) -> Seq<Seq<char>> {
    match i {
        Installer::Pacman => seq!["sudo"@, "pacman"@, "-S"@, package, "--noconfirm"@],
        Installer::Yay => seq!["yay"@, "-S"@, package],
        Installer::Paru => seq!["paru"@, "-S"@, package],
    }
}

/// How far a phase still is from needing a new plan entry; probes come
/// before attempts at the same entry.
pub open spec fn phase_rank(p: Phase) -> int {
    match p {
        Phase::Probing => 1,
        _ => 0,
    }
}

/// Runs a flow to completion against a fixed host environment: `present`
/// says which probed programs are on the host, `works` which invocations
/// would report success.
pub open spec fn drive(
    m: FlowModel,
    present: spec_fn(Installer) -> bool,
    works: spec_fn(Installer) -> bool,
) -> FlowModel
    decreases m.plan.len() - m.pos, phase_rank(m.phase)
        when model_wf(m)
{
    match m.phase {
        Phase::Probing => drive(probe_step(m, present(m.plan[m.pos].installer)), present, works),
        Phase::Attempting => if works(m.plan[m.pos].installer) {
            attempt_step(m, true)
        } else {
            drive(attempt_step(m, false), present, works)
        },
        _ => m,
    }
}

/// The programs a completed run invokes when no attempt succeeds: the
/// primary manager unconditionally whenever the plan starts with it, each
/// helper exactly when present, in plan order.
pub open spec fn all_failing_attempts(source: Source, present: spec_fn(Installer) -> bool) -> Seq<
    Installer,
> {
    let helpers = (if present(Installer::Yay) {
        seq![Installer::Yay]
    } else {
        Seq::<Installer>::empty()
    }) + (if present(Installer::Paru) {
        seq![Installer::Paru]
    } else {
        Seq::<Installer>::empty()
    });
    match source {
        Source::Aur => helpers,
        _ => seq![Installer::Pacman] + helpers,
    }
}

/// With a package of the official catalog, a failing primary manager, and
/// some present fallback helper whose invocation succeeds, the flow still
/// ends in success — and the primary manager is in the attempted list,
/// first.
#[verifier::rlimit(50)]
pub proof fn lemma_fallback_rescues_official(
    present: spec_fn(Installer) -> bool,
    works: spec_fn(Installer) -> bool,
)
    requires
        !works(Installer::Pacman),
        (present(Installer::Yay) && works(Installer::Yay)) || (present(Installer::Paru) && works(
            Installer::Paru,
        )),
    ensures
        ({
            let end = drive(init_model(Source::Official), present, works);
            &&& end.phase is Succeeded
            &&& end.attempted.len() > 0
            &&& end.attempted[0] == Installer::Pacman
        }),
{
    reveal_with_fuel(drive, 8);
}

/// With no invocation succeeding — helpers absent or every invoked
/// program failing — the flow ends exhausted, and its attempted list
/// names exactly the programs that were invoked, in invocation order.
#[verifier::rlimit(100)]
pub proof fn lemma_exhaustion_names_attempted(
    source: Source,
    present: spec_fn(Installer) -> bool,
    works: spec_fn(Installer) -> bool,
)
    requires
        forall|i: Installer| !(#[trigger] works(i)),
    ensures
        ({
            let end = drive(init_model(source), present, works);
            &&& end.phase is Exhausted
            &&& end.attempted == all_failing_attempts(source, present)
        }),
{
    reveal_with_fuel(drive, 8);
    let end = drive(init_model(source), present, works);
    assert(end.attempted =~= all_failing_attempts(source, present));
}

/// Builds the argument vector an attempt must spawn, word for word.
pub fn command_line(i: Installer, package: &str) -> (argv: Vec<String>)
    ensures
        argv@.map_values(|s: String| s@) == command_line_spec(i, package@),
{
    let mut argv: Vec<String> = Vec::new();
    match i {
        Installer::Pacman => {
            argv.push(String::from_str("sudo"));
            argv.push(String::from_str("pacman"));
            argv.push(String::from_str("-S"));
            argv.push(String::from_str(package));
            argv.push(String::from_str("--noconfirm"));
        },
        Installer::Yay => {
            argv.push(String::from_str("yay"));
            argv.push(String::from_str("-S"));
            argv.push(String::from_str(package));
        },
        Installer::Paru => {
            argv.push(String::from_str("paru"));
            argv.push(String::from_str("-S"));
            argv.push(String::from_str(package));
        },
    }
    proof {
        assert(argv@.map_values(|s: String| s@) =~= command_line_spec(i, package@));
    }
    argv
}

} // verus!
