use vstd::prelude::*;

verus! {

/// Whether and how the simulation advances on update ticks.
#[derive(Clone, Copy, Debug, PartialEq, Eq, Structural)]
pub enum RunMode {
    /// One simulation step per update tick.
    Running,
    /// No step until the mode is changed from outside.
    Stop,
    /// One step on the next update tick, then `Stop`.
    Step,
}

/// The state of the frame loop.
#[derive(Clone, Copy, Debug, PartialEq, Eq, Structural)]
pub struct TestbedState {
    pub running: RunMode,
}

/// What the frame loop hands to the library.
#[derive(Clone, Copy, Debug, PartialEq, Eq, Structural)]
pub enum FrameEvent {
    Update,
    Render,
    Other,
}

/// What the frame loop has to do for one event.
#[derive(Clone, Copy, Debug, PartialEq, Eq, Structural)]
pub enum FrameAction {
    /// Advance the simulation by one fixed time step.
    Step,
    /// Refresh the scene, clear the surface, then draw the scene.
    Redraw,
    /// Nothing.
    Idle,
}

/// What the command line asks for.
#[derive(Clone, Copy, Debug, PartialEq, Eq, Structural)]
pub enum Startup {
    /// Print the usage text and run nothing.
    Usage,
    /// Run the simulation, starting in the given mode.
    Run(RunMode),
}

/// Whether the simulation advances on an update tick in mode `m`.
pub open spec fn steps_in(m: RunMode) -> bool {
    m != RunMode::Stop
}

/// The mode after an update tick in mode `m`.
pub open spec fn mode_after(m: RunMode) -> RunMode {
    if m == RunMode::Step {
        RunMode::Stop
    } else {
        m
    }
}

/// The mode after `n` update ticks from mode `m`.
pub open spec fn mode_after_ticks(m: RunMode, n: nat) -> RunMode
    decreases n,
{
    if n == 0 {
        m
    } else {
        mode_after_ticks(mode_after(m), (n - 1) as nat)
    }
}

/// The number of simulation steps in `n` update ticks from mode `m`.
pub open spec fn steps_in_ticks(m: RunMode, n: nat) -> nat
    decreases n,
{
    if n == 0 {
        0
    } else {
        (if steps_in(m) { 1nat } else { 0nat }) + steps_in_ticks(mode_after(m), (n - 1) as nat)
    }
}

/// Whether some argument after the program name is `s`.
pub open spec fn has_flag(args: Seq<String>, s: Seq<char>) -> bool {
    exists|i: int| 1 <= i < args.len() && (#[trigger] args[i])@ == s
}

/// What the arguments `args`, the program name first, ask for: the usage
/// text if any later argument is `--help` or `-h`; otherwise a paused start
/// if one is `--pause`; otherwise a running start. Other arguments are
/// ignored.
pub open spec fn startup_of(args: Seq<String>) -> Startup {
    if has_flag(args, "--help"@) || has_flag(args, "-h"@) {
        Startup::Usage
    } else if has_flag(args, "--pause"@) {
        Startup::Run(RunMode::Stop)
    } else {
        Startup::Run(RunMode::Running)
    }
}

/// From a single step, one update tick advances the simulation once and
/// stops it.
pub proof fn lemma_single_step()
    ensures
        steps_in_ticks(RunMode::Step, 1) == 1,
        mode_after_ticks(RunMode::Step, 1) == RunMode::Stop,
{
    assert(steps_in_ticks(RunMode::Stop, 0) == 0);
    assert(mode_after_ticks(RunMode::Stop, 0) == RunMode::Stop);
}

/// A stopped loop stays stopped and never advances the simulation.
pub proof fn lemma_stopped_never_steps(n: nat)
    ensures
        steps_in_ticks(RunMode::Stop, n) == 0,
        mode_after_ticks(RunMode::Stop, n) == RunMode::Stop,
    decreases n,
{
    if n > 0 {
        lemma_stopped_never_steps((n - 1) as nat);
    }
}

/// A running loop advances the simulation once per update tick and keeps
/// running.
pub proof fn lemma_running_steps_every_tick(n: nat)
    ensures
        steps_in_ticks(RunMode::Running, n) == n,
        mode_after_ticks(RunMode::Running, n) == RunMode::Running,
    decreases n,
{
    if n > 0 {
        lemma_running_steps_every_tick((n - 1) as nat);
    }
}

impl TestbedState {
    /// A loop that runs from the start.
    pub fn new() -> (res: TestbedState)
        ensures
            res.running == RunMode::Running,
    {
        TestbedState { running: RunMode::Running }
    }

    /// A loop that starts in mode `running`.
    pub fn with_mode(running: RunMode) -> (res: TestbedState)
        ensures
            res.running == running,
    {
        TestbedState { running }
    }

    /// One update tick: whether the simulation advances by one step, and
    /// the mode afterwards. A single step stops after it has run.
    pub fn progress_world(&mut self) -> (step: bool)
        ensures
            step == steps_in(old(self).running),
            final(self).running == mode_after(old(self).running),
    {
        let step = self.running != RunMode::Stop;
        if self.running == RunMode::Step {
            self.running = RunMode::Stop;
        }
        step
    }

    /// What the frame loop does for event `e`.
    pub fn run_loop(&mut self, e: FrameEvent) -> (res: FrameAction)
        ensures
            e == FrameEvent::Update ==> final(self).running == mode_after(old(self).running) && res == (
            if steps_in(old(self).running) {
                FrameAction::Step
            } else {
                FrameAction::Idle
            }),
            e == FrameEvent::Render ==> *final(self) == *old(self) && res == FrameAction::Redraw,
            e == FrameEvent::Other ==> *final(self) == *old(self) && res == FrameAction::Idle,
    {
        match e {
            FrameEvent::Update => {
                if self.progress_world() {
                    FrameAction::Step
                } else {
                    FrameAction::Idle
                }
            },
            FrameEvent::Render => FrameAction::Redraw,
            FrameEvent::Other => FrameAction::Idle,
        }
    }
}

/// Reads the command line `args`, the program name first.
pub fn run(args: &Vec<String>) -> (res: Startup)
    ensures
        res == startup_of(args@),
{
    let help = "--help".to_owned();
    let short_help = "-h".to_owned();
    let pause = "--pause".to_owned();
    let mut paused = false;
    let mut i: usize = 1;
    while i < args.len()
        invariant
            1 <= i,
            i <= args@.len() || i == 1,
            help@ == "--help"@,
            short_help@ == "-h"@,
            pause@ == "--pause"@,
            forall|j: int| 1 <= j < i ==> (#[trigger] args@[j])@ != "--help"@ && args@[j]@ != "-h"@,
            paused == exists|j: int| 1 <= j < i && (#[trigger] args@[j])@ == "--pause"@,
        decreases args@.len() - i,
    {
        let arg: &String = &args[i];
        let is_help = *arg == help;
        let is_short_help = *arg == short_help;
        assert(arg@ == args@[i as int]@);
        if is_help || is_short_help {
            assert(args@[i as int]@ == "--help"@ || args@[i as int]@ == "-h"@);
            assert(has_flag(args@, "--help"@) || has_flag(args@, "-h"@));
            return Startup::Usage;
        }
        if *arg == pause {
            paused = true;
        }
        i = i + 1;
    }
    if paused {
        Startup::Run(RunMode::Stop)
    } else {
        Startup::Run(RunMode::Running)
    }
}

} // verus!
