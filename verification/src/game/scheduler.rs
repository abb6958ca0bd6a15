use vstd::arithmetic::div_mod::lemma_fundamental_div_mod;
use vstd::prelude::*;

verus! {

/// The three phases of a scheduler's life.
#[derive(Clone, Copy, Debug, PartialEq, Eq, Structural)]
pub enum Phase {
    /// Nothing has been asked of the driver yet.
    Idle,
    /// The loop is running, or its teardown is.
    Running,
    /// The teardown is over.
    Exited,
}

/// What the scheduler asks its driver to do next.
#[derive(Clone, Copy, Debug, PartialEq, Eq, Structural)]
pub enum Action {
    /// Call the enter hook of every plugin.
    EnterPlugins,
    /// Report whether the surface is still open, and the time.
    Poll,
    /// Clear the canvas for the new frame.
    Clear,
    /// Call the pre-update hook of every plugin.
    PreUpdate,
    /// Call the scene's variable-rate update.
    Update,
    /// Call the post-update hook of every plugin.
    PostUpdate,
    /// Call the scene's fixed-rate update.
    FixedUpdate,
    /// Hand the buffer to the surface.
    Present,
    /// Call the scene's exit hook.
    ExitScene,
    /// Call the exit hook of every plugin.
    ExitPlugins,
    /// Nothing is left to do.
    Finished,
}

/// What the driver reports of the action that it was asked for.
#[derive(Clone, Copy, Debug, PartialEq, Eq, Structural)]
pub enum Event {
    /// The action was performed.
    Done,
    /// The answer to [Action::Poll]: whether the surface is open, and the
    /// time in nanoseconds.
    Polled { open: bool, now: u64 },
    /// The action failed. Only presenting can fail.
    Failed,
}

/// Where the scheduler stands: the action that it has asked for and whose
/// outcome it waits for.
#[derive(Clone, Copy, Debug, PartialEq, Eq, Structural)]
pub enum Stage {
    Idle,
    EnterPlugins,
    Poll,
    Clear,
    PreUpdate,
    Update,
    PostUpdate,
    FixedUpdate,
    Present,
    ExitScene,
    ExitPlugins,
    Exited,
}

/// The state of a scheduler. Times are in nanoseconds.
pub struct SchedulerState {
    /// The action in flight.
    pub stage: Stage,
    /// The time of the last poll that found the surface open.
    pub last_time: u64,
    /// The elapsed time that no fixed-rate step has consumed yet.
    pub accumulated: u128,
    /// The length of one fixed-rate step.
    pub fixed_step: u64,
}

/// The time that passed from `last` to `now`; none where the clock went
/// back.
pub open spec fn elapsed(last: u64, now: u64) -> u64 {
    if now >= last {
        (now - last) as u64
    } else {
        0
    }
}

impl SchedulerState {
    /// The state before anything was asked of the driver.
    pub open spec fn initial(fixed_step: u64, now: u64) -> SchedulerState {
        SchedulerState { stage: Stage::Idle, last_time: now, accumulated: 0, fixed_step }
    }

    /// The step is positive, and outside a frame's updates the accumulator
    /// is below it.
    pub open spec fn wf(self) -> bool {
        &&& self.fixed_step > 0
        &&& self.accumulated < self.fixed_step + u64::MAX
        &&& self.in_frame() || self.accumulated < self.fixed_step
    }

    /// The stage lies between a frame's poll and the end of its catch-up
    /// loop.
    pub open spec fn in_frame(self) -> bool {
        self.stage == Stage::Clear || self.stage == Stage::PreUpdate || self.stage == Stage::Update
            || self.stage == Stage::PostUpdate || self.stage == Stage::FixedUpdate
    }

    /// The phase that the stage belongs to.
    pub open spec fn phase(self) -> Phase {
        match self.stage {
            Stage::Idle => Phase::Idle,
            Stage::Exited => Phase::Exited,
            _ => Phase::Running,
        }
    }

    /// This state at another stage.
    pub open spec fn at(self, stage: Stage) -> SchedulerState {
        SchedulerState { stage, ..self }
    }

    /// One turn of the catch-up loop: while the accumulator holds a whole
    /// step, the step is taken out of it and a fixed-rate update is asked
    /// for; after that the frame is presented.
    pub open spec fn catch_up(self) -> (SchedulerState, Action) {
        if self.accumulated >= self.fixed_step {
            (
                SchedulerState {
                    stage: Stage::FixedUpdate,
                    accumulated: (self.accumulated - self.fixed_step) as u128,
                    ..self
                },
                Action::FixedUpdate,
            )
        } else {
            (self.at(Stage::Present), Action::Present)
        }
    }

    /// The state after the driver's report, and the action asked for next.
    ///
    /// Before the loop the plugins are entered. Each turn of the loop polls;
    /// where the surface is open, the elapsed time goes into the
    /// accumulator, and then come, in this order, the clearing of the
    /// canvas, the plugins' pre-update hooks, the scene's update, the
    /// plugins' post-update hooks, one fixed-rate update for each whole step
    /// in the accumulator, and the presentation. Where the surface is closed
    /// or the presentation fails, the scene is exited, then the plugins, and
    /// the scheduler has finished.
    pub open spec fn next(self, event: Event) -> (SchedulerState, Action) {
        match self.stage {
            Stage::Idle => (self.at(Stage::EnterPlugins), Action::EnterPlugins),
            Stage::EnterPlugins => (self.at(Stage::Poll), Action::Poll),
            Stage::Poll => match event {
                Event::Polled { open, now } => if open {
                    (
                        SchedulerState {
                            stage: Stage::Clear,
                            last_time: now,
                            accumulated: (self.accumulated + elapsed(self.last_time, now)) as u128,
                            ..self
                        },
                        Action::Clear,
                    )
                } else {
                    (self.at(Stage::ExitScene), Action::ExitScene)
                },
                _ => (self, Action::Poll),
            },
            Stage::Clear => (self.at(Stage::PreUpdate), Action::PreUpdate),
            Stage::PreUpdate => (self.at(Stage::Update), Action::Update),
            Stage::Update => (self.at(Stage::PostUpdate), Action::PostUpdate),
            Stage::PostUpdate => self.catch_up(),
            Stage::FixedUpdate => self.catch_up(),
            Stage::Present => if event == Event::Failed {
                (self.at(Stage::ExitScene), Action::ExitScene)
            } else {
                (self.at(Stage::Poll), Action::Poll)
            },
            Stage::ExitScene => (self.at(Stage::ExitPlugins), Action::ExitPlugins),
            Stage::ExitPlugins => (self.at(Stage::Exited), Action::Finished),
            Stage::Exited => (self, Action::Finished),
        }
    }

    /// The state after `n` reports that an action was performed.
    pub open spec fn after(self, n: nat) -> SchedulerState
        decreases n,
    {
        if n == 0 {
            self
        } else {
            self.after((n - 1) as nat).next(Event::Done).0
        }
    }
}

/// The scheduler of the game loop: it keeps the clock of the fixed-rate
/// updates and says, action by action, what the driver is to do. The driver
/// performs each action and reports its outcome.
#[derive(Debug)]
pub struct Scheduler {
    stage: Stage,
    last_time: u64,
    accumulated: u128,
    fixed_step: u64,
}

impl View for Scheduler {
    type V = SchedulerState;

    closed spec fn view(&self) -> SchedulerState {
        SchedulerState {
            stage: self.stage,
            last_time: self.last_time,
            accumulated: self.accumulated,
            fixed_step: self.fixed_step,
        }
    }
}

impl Scheduler {
    /// What holds of every scheduler: its state is well formed.
    #[verifier::type_invariant]
    pub closed spec fn inv(&self) -> bool {
        self@.wf()
    }

    /// Every scheduler is in a well-formed state.
    pub proof fn lemma_wf(&self)
        requires
            self.inv(),
        ensures
            self@.wf(),
    {
    }

    /// A scheduler with the given fixed step, made at the time `now`, both
    /// in nanoseconds. A step of zero is refused.
    pub fn new(fixed_step: u64, now: u64) -> (s: Option<Scheduler>)
        ensures
            fixed_step == 0 <==> s.is_none(),
            s matches Some(sched) ==> sched@ == SchedulerState::initial(fixed_step, now),
    {
        if fixed_step == 0 {
            None
        } else {
            Some(Scheduler { stage: Stage::Idle, last_time: now, accumulated: 0, fixed_step })
        }
    }

    /// Takes the driver's report of the action asked for last, and says
    /// which action comes next.
    pub fn step(&mut self, event: Event) -> (action: Action)
        ensures
            (final(self)@, action) == old(self)@.next(event),
            final(self)@.wf(),
            action == Action::Present ==> final(self)@.accumulated < final(self)@.fixed_step,
    {
        proof {
            use_type_invariant(&*self);
        }
        match self.stage {
            Stage::Idle => {
                self.stage = Stage::EnterPlugins;
                Action::EnterPlugins
            },
            Stage::EnterPlugins => {
                self.stage = Stage::Poll;
                Action::Poll
            },
            Stage::Poll => match event {
                Event::Polled { open, now } => {
                    if open {
                        let delta = if now >= self.last_time {
                            now - self.last_time
                        } else {
                            0
                        };
                        let total = self.accumulated + delta as u128;
                        *self = Scheduler {
                            stage: Stage::Clear,
                            last_time: now,
                            accumulated: total,
                            fixed_step: self.fixed_step,
                        };
                        Action::Clear
                    } else {
                        self.stage = Stage::ExitScene;
                        Action::ExitScene
                    }
                },
                Event::Done => Action::Poll,
                Event::Failed => Action::Poll,
            },
            Stage::Clear => {
                self.stage = Stage::PreUpdate;
                Action::PreUpdate
            },
            Stage::PreUpdate => {
                self.stage = Stage::Update;
                Action::Update
            },
            Stage::Update => {
                self.stage = Stage::PostUpdate;
                Action::PostUpdate
            },
            Stage::PostUpdate => self.catch_up(),
            Stage::FixedUpdate => self.catch_up(),
            Stage::Present => {
                match event {
                    Event::Failed => {
                        self.stage = Stage::ExitScene;
                        Action::ExitScene
                    },
                    _ => {
                        self.stage = Stage::Poll;
                        Action::Poll
                    },
                }
            },
            Stage::ExitScene => {
                self.stage = Stage::ExitPlugins;
                Action::ExitPlugins
            },
            Stage::ExitPlugins => {
                self.stage = Stage::Exited;
                Action::Finished
            },
            Stage::Exited => Action::Finished,
        }
    }

    /// One turn of the catch-up loop.
    fn catch_up(&mut self) -> (action: Action)
        requires
            old(self)@.in_frame(),
        ensures
            (final(self)@, action) == old(self)@.catch_up(),
            final(self)@.wf(),
    {
        proof {
            use_type_invariant(&*self);
        }
        if self.accumulated >= self.fixed_step as u128 {
            *self = Scheduler {
                stage: Stage::FixedUpdate,
                last_time: self.last_time,
                accumulated: self.accumulated - self.fixed_step as u128,
                fixed_step: self.fixed_step,
            };
            Action::FixedUpdate
        } else {
            self.stage = Stage::Present;
            Action::Present
        }
    }

    /// The phase of the scheduler's life.
    pub fn phase(&self) -> (p: Phase)
        ensures
            p == self@.phase(),
    {
        match self.stage {
            Stage::Idle => Phase::Idle,
            Stage::Exited => Phase::Exited,
            _ => Phase::Running,
        }
    }

    /// The action in flight.
    pub fn stage(&self) -> (s: Stage)
        ensures
            s == self@.stage,
    {
        self.stage
    }

    /// The elapsed time, in nanoseconds, that no fixed-rate step has
    /// consumed yet.
    pub fn accumulated(&self) -> (a: u128)
        ensures
            a == self@.accumulated,
    {
        self.accumulated
    }

    /// The length of one fixed-rate step, in nanoseconds.
    pub fn fixed_step(&self) -> (step: u64)
        ensures
            step == self@.fixed_step,
            step > 0,
    {
        proof {
            use_type_invariant(self);
        }
        self.fixed_step
    }

    /// The time of the last poll that found the surface open, in
    /// nanoseconds.
    pub fn last_time(&self) -> (t: u64)
        ensures
            t == self@.last_time,
    {
        self.last_time
    }
}

/// Every step keeps the state well formed, and when the catch-up loop of a
/// frame is over and the frame is to be presented, the accumulator is below
/// the fixed step.
pub proof fn lemma_next_wf(s: SchedulerState, event: Event)
    requires
        s.wf(),
    ensures
        s.next(event).0.wf(),
        s.next(event).0.fixed_step == s.fixed_step,
        s.next(event).1 == Action::Present ==> 0 <= s.next(event).0.accumulated < s.fixed_step,
{
}

/// The whole catch-up loop of a frame: with `n` whole steps in the
/// accumulator, each of the next `n` turns asks for a fixed-rate update and
/// takes one step out of the accumulator, and the turn after them asks for
/// the presentation, with the remainder of the division in the accumulator.
pub proof fn lemma_catch_up(s: SchedulerState, j: nat)
    requires
        s.wf(),
        s.stage == Stage::PostUpdate || s.stage == Stage::FixedUpdate,
        j <= s.accumulated / (s.fixed_step as u128),
    ensures
        s.after(j).accumulated == s.accumulated - j * s.fixed_step,
        s.after(j).fixed_step == s.fixed_step,
        s.after(j).last_time == s.last_time,
        s.after(j).stage == (if j == 0 {
            s.stage
        } else {
            Stage::FixedUpdate
        }),
        j < s.accumulated / (s.fixed_step as u128) ==> s.after(j).next(Event::Done).1
            == Action::FixedUpdate,
        j == s.accumulated / (s.fixed_step as u128) ==> s.after(j).next(Event::Done) == (
            SchedulerState {
                stage: Stage::Present,
                accumulated: s.accumulated % (s.fixed_step as u128),
                ..s
            },
            Action::Present,
        ),
    decreases j,
{
    let step = s.fixed_step as int;
    let acc = s.accumulated as int;
    let n = acc / step;
    lemma_fundamental_div_mod(acc, step);
    assert(step * n == n * step) by (nonlinear_arith);
    assert(j * step <= n * step) by (nonlinear_arith)
        requires
            0 <= j <= n,
            0 < step,
    ;
    if j > 0 {
        lemma_catch_up(s, (j - 1) as nat);
        assert((j - 1) * step + step == j * step) by (nonlinear_arith);
    }
    if j < n {
        assert((j + 1) * step <= n * step) by (nonlinear_arith)
            requires
                j + 1 <= n,
                0 < step,
        ;
        assert((j + 1) * step == j * step + step) by (nonlinear_arith);
    } else {
        assert(acc - j * step == acc % step);
    }
}

/// A frame whose poll finds the surface open adds the time since the last
/// poll to the accumulator and makes the poll's time the last time.
pub proof fn lemma_poll_accumulates(s: SchedulerState, now: u64)
    requires
        s.wf(),
        s.stage == Stage::Poll,
    ensures
        s.next(Event::Polled { open: true, now }).1 == Action::Clear,
        s.next(Event::Polled { open: true, now }).0.accumulated == s.accumulated + elapsed(
            s.last_time,
            now,
        ),
        s.next(Event::Polled { open: true, now }).0.last_time == now,
{
}

} // verus!
