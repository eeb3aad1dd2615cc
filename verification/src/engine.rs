//! The order of work around the script engine: loading a script, testing one, drawing frames.
//!
//! Each state machine names a step; the step is performed outside and its result fed back.
use vstd::prelude::*;

verus! {

/// Frames from one garbage collection to the next.
pub const GC_FRAMES: u32 = 16;

/// Frames from one memory report to the next.
pub const STATS_FRAMES: u32 = 60;

// ---------------------------------------------------------------------------
// Loading a script
// ---------------------------------------------------------------------------

/// A step of loading a script.
#[derive(Clone, Copy, Debug, PartialEq, Eq, Structural)]
pub enum LoadStep {
    /// Drop what the script before has defined.
    Reset,
    /// Evaluate the built-in library, which a reset drops too. It must not fail.
    EvalPrelude,
    /// Evaluate the script.
    EvalScript,
    /// Compile the call that draws a frame.
    CompileCall,
    /// Nothing: the compiled call is ready.
    Loaded,
    /// Nothing: the script was refused.
    Rejected,
}

impl LoadStep {
    /// The step that follows when this one went well (`ok`) or failed.
    pub open spec fn following(self, ok: bool) -> LoadStep {
        match self {
            LoadStep::Reset => LoadStep::EvalPrelude,
            LoadStep::EvalPrelude => LoadStep::EvalScript,
            LoadStep::EvalScript => if ok {
                LoadStep::CompileCall
            } else {
                LoadStep::Rejected
            },
            _ => if ok {
                LoadStep::Loaded
            } else {
                LoadStep::Rejected
            },
        }
    }
}

/// The step that follows `step` when it went well (`ok`) or failed.
pub fn next_load_step(step: LoadStep, ok: bool) -> (next: LoadStep)
    requires
        !(step is Loaded) && !(step is Rejected),
        step is Reset || step is EvalPrelude ==> ok,
    ensures
        next == step.following(ok),
        next == (match step {
            LoadStep::Reset => LoadStep::EvalPrelude,
            LoadStep::EvalPrelude => LoadStep::EvalScript,
            LoadStep::EvalScript => if ok {
                LoadStep::CompileCall
            } else {
                LoadStep::Rejected
            },
            _ => if ok {
                LoadStep::Loaded
            } else {
                LoadStep::Rejected
            },
        }),
{
    if !ok {
        return LoadStep::Rejected;
    }
    match step {
        LoadStep::Reset => LoadStep::EvalPrelude,
        LoadStep::EvalPrelude => LoadStep::EvalScript,
        LoadStep::EvalScript => LoadStep::CompileCall,
        _ => LoadStep::Loaded,
    }
}

// ---------------------------------------------------------------------------
// Testing a script
// ---------------------------------------------------------------------------

/// A step of testing a script.
#[derive(Clone, Copy, Debug, PartialEq, Eq, Structural)]
pub enum TestStep {
    /// Reset the engine and evaluate the script.
    Load,
    /// Compile the call that draws a frame.
    CompileCall,
    /// Run the call for this frame.
    Run { frame: usize },
    /// Send the frame to the strip, log it if `report` is set, and pause. It must not fail.
    Show { frame: usize, report: bool },
    /// Nothing: every frame was shown.
    Passed,
    /// Nothing: the step before failed.
    Failed,
}

/// A test of a script over a number of frames.
#[derive(Clone, Copy, Debug, PartialEq, Eq, Structural)]
pub struct TestRun {
    pub frames: usize,
    pub step: TestStep,
}

impl TestRun {
    pub open spec fn wf(self) -> bool {
        match self.step {
            TestStep::Run { frame } => frame < self.frames,
            TestStep::Show { frame, .. } => frame < self.frames,
            _ => true,
        }
    }

    pub open spec fn ended(self) -> bool {
        self.step is Passed || self.step is Failed
    }

    /// The step that draws `frame`, or the end when there is no such frame.
    pub open spec fn at_frame(self, frame: int) -> TestStep {
        if frame < self.frames {
            TestStep::Run { frame: frame as usize }
        } else {
            TestStep::Passed
        }
    }

    /// The step that follows. The first and the last frame are logged.
    pub open spec fn following(self, ok: bool) -> TestStep {
        match self.step {
            TestStep::Load => if ok {
                TestStep::CompileCall
            } else {
                TestStep::Failed
            },
            TestStep::CompileCall => if ok {
                self.at_frame(0)
            } else {
                TestStep::Failed
            },
            TestStep::Run { frame } => if ok {
                TestStep::Show { frame, report: frame == 0 || frame == self.frames - 1 }
            } else {
                TestStep::Failed
            },
            TestStep::Show { frame, .. } => self.at_frame(frame + 1),
            _ => self.step,
        }
    }

    /// A test over `frames` frames, before its first step.
    pub fn new(frames: usize) -> (t: TestRun)
        ensures
            t == (TestRun { frames, step: TestStep::Load }),
            t.wf(),
    {
        TestRun { frames, step: TestStep::Load }
    }

    fn frame_step(&self, frame: usize) -> (step: TestStep)
        ensures
            step == self.at_frame(frame as int),
    {
        if frame < self.frames {
            TestStep::Run { frame }
        } else {
            TestStep::Passed
        }
    }

    /// Moves on once the step has been performed.
    pub fn next(&mut self, ok: bool)
        requires
            old(self).wf(),
            !old(self).ended(),
            old(self).step is Show ==> ok,
        ensures
            final(self).wf(),
            *final(self) == (TestRun { step: old(self).following(ok), ..*old(self) }),
    {
        if !ok {
            self.step = TestStep::Failed;
            return;
        }
        self.step = match self.step {
            TestStep::Load => TestStep::CompileCall,
            TestStep::CompileCall => self.frame_step(0),
            TestStep::Run { frame } => TestStep::Show {
                frame,
                report: frame == 0 || frame == self.frames - 1,
            },
            TestStep::Show { frame, .. } => self.frame_step(frame + 1),
            step => step,
        };
    }
}

// ---------------------------------------------------------------------------
// Drawing frames
// ---------------------------------------------------------------------------

/// A step of the main loop.
#[derive(Clone, Copy, Debug, PartialEq, Eq, Structural)]
pub enum Step {
    /// Advertise until a connection can be served.
    Advertise,
    /// Load the script that has arrived. When that succeeds, collect garbage and report memory.
    LoadScript,
    /// Let the BLE server work.
    Serve,
    /// Close the connection, as the script that came over it is in use.
    HangUp,
    /// Run the script for a frame.
    RunFrame,
    /// Collect garbage.
    CollectGarbage,
    /// Report memory.
    ReportMemory,
    /// Send the frame to the strip and pause.
    ShowFrame,
    /// Run the script for a frame, send the frame to the strip and pause, over and over: there is
    /// no BLE.
    DrawAlone,
}

/// The result of a step.
#[derive(Clone, Copy, Debug, PartialEq, Eq, Structural)]
pub enum Event {
    /// Of [`Step::Advertise`]; `script_ready` tells whether a script waits to be loaded.
    Connected { script_ready: bool },
    /// Of [`Step::Advertise`]: BLE could not be set up.
    NoBle,
    /// Of [`Step::LoadScript`].
    ScriptLoaded,
    /// Of [`Step::LoadScript`].
    ScriptRejected,
    /// Of [`Step::Serve`], also when the server reported an error.
    Served,
    /// Of [`Step::Serve`].
    Disconnected,
    /// Of the steps that have one result, also when the script failed.
    Done,
    /// Of [`Step::ShowFrame`]; `script_ready` tells whether a script waits to be loaded.
    Shown { script_ready: bool },
}

/// The main loop.
#[derive(Clone, Copy, Debug, PartialEq, Eq, Structural)]
pub struct Session {
    /// What is to be done.
    pub step: Step,
    /// Frames since the last garbage collection.
    pub gc_frames: u32,
    /// Frames since the last memory report.
    pub stats_frames: u32,
    /// Whether the connection is to be closed.
    pub hang_up: bool,
}

/// A frame counter after one frame more, back to 0 when it reaches `period`.
pub open spec fn counted(frames: u32, period: u32) -> u32 {
    let n = (frames + 1) % 0x1_0000_0000;
    if n >= period {
        0
    } else {
        n as u32
    }
}

/// Whether one frame more brings a counter to `period`.
pub open spec fn comes_due(frames: u32, period: u32) -> bool {
    (frames + 1) % 0x1_0000_0000 >= period
}

impl Session {
    /// The counters stay below their periods.
    pub open spec fn wf(self) -> bool {
        self.gc_frames < GC_FRAMES && self.stats_frames < STATS_FRAMES
    }

    /// The events that can come of the step.
    pub open spec fn expects(self, event: Event) -> bool {
        match self.step {
            Step::Advertise => event is Connected || event is NoBle,
            Step::LoadScript => event is ScriptLoaded || event is ScriptRejected,
            Step::Serve => event is Served || event is Disconnected,
            Step::ShowFrame => event is Shown,
            _ => event is Done,
        }
    }

    /// A new round: a waiting script is loaded first.
    pub open spec fn round(self, script_ready: bool) -> Session {
        Session {
            step: if script_ready {
                Step::LoadScript
            } else {
                Step::Serve
            },
            ..self
        }
    }

    /// A frame has been run and garbage seen to: the memory report if it is due, then the strip.
    pub open spec fn collected(self) -> Session {
        Session {
            step: if comes_due(self.stats_frames, STATS_FRAMES) {
                Step::ReportMemory
            } else {
                Step::ShowFrame
            },
            stats_frames: counted(self.stats_frames, STATS_FRAMES),
            ..self
        }
    }

    /// The loop after the step has led to `event`.
    pub open spec fn after(self, event: Event) -> Session {
        match event {
            Event::Connected { script_ready } => (Session { hang_up: false, ..self }).round(
                script_ready,
            ),
            Event::NoBle => Session { step: Step::DrawAlone, ..self },
            Event::ScriptLoaded => Session {
                step: Step::Serve,
                gc_frames: 0,
                stats_frames: 0,
                hang_up: true,
            },
            Event::ScriptRejected => Session { step: Step::Serve, ..self },
            Event::Served => if self.hang_up {
                Session { step: Step::HangUp, hang_up: false, ..self }
            } else {
                Session { step: Step::RunFrame, ..self }
            },
            Event::Disconnected => Session { step: Step::Advertise, ..self },
            Event::Shown { script_ready } => self.round(script_ready),
            Event::Done => match self.step {
                Step::HangUp => Session { step: Step::RunFrame, ..self },
                Step::RunFrame => if comes_due(self.gc_frames, GC_FRAMES) {
                    Session { step: Step::CollectGarbage, gc_frames: 0, ..self }
                } else {
                    (Session { gc_frames: counted(self.gc_frames, GC_FRAMES), ..self }).collected()
                },
                Step::CollectGarbage => self.collected(),
                Step::ReportMemory => Session { step: Step::ShowFrame, ..self },
                _ => self,
            },
        }
    }

    /// Before the first connection.
    pub fn new() -> (s: Session)
        ensures
            s == (Session {
                step: Step::Advertise,
                gc_frames: 0,
                stats_frames: 0,
                hang_up: false,
            }),
            s.wf(),
    {
        Session { step: Step::Advertise, gc_frames: 0, stats_frames: 0, hang_up: false }
    }

    fn begin_round(&mut self, script_ready: bool)
        ensures
            *final(self) == old(self).round(script_ready),
    {
        self.step = if script_ready {
            Step::LoadScript
        } else {
            Step::Serve
        };
    }

    fn count_stats(&mut self)
        ensures
            *final(self) == old(self).collected(),
    {
        self.stats_frames = self.stats_frames.wrapping_add(1);
        if self.stats_frames >= STATS_FRAMES {
            self.stats_frames = 0;
            self.step = Step::ReportMemory;
        } else {
            self.step = Step::ShowFrame;
        }
    }

    /// Moves on once the step has been performed.
    pub fn next(&mut self, event: Event)
        requires
            old(self).expects(event),
        ensures
            *final(self) == old(self).after(event),
            old(self).wf() ==> final(self).wf(),
    {
        match event {
            Event::Connected { script_ready } => {
                self.hang_up = false;
                self.begin_round(script_ready);
            },
            Event::NoBle => {
                self.step = Step::DrawAlone;
            },
            Event::ScriptLoaded => {
                self.gc_frames = 0;
                self.stats_frames = 0;
                self.hang_up = true;
                self.step = Step::Serve;
            },
            Event::ScriptRejected => {
                self.step = Step::Serve;
            },
            Event::Served => {
                if self.hang_up {
                    self.hang_up = false;
                    self.step = Step::HangUp;
                } else {
                    self.step = Step::RunFrame;
                }
            },
            Event::Disconnected => {
                self.step = Step::Advertise;
            },
            Event::Shown { script_ready } => {
                self.begin_round(script_ready);
            },
            Event::Done => match self.step {
                Step::HangUp => {
                    self.step = Step::RunFrame;
                },
                Step::RunFrame => {
                    self.gc_frames = self.gc_frames.wrapping_add(1);
                    if self.gc_frames >= GC_FRAMES {
                        self.gc_frames = 0;
                        self.step = Step::CollectGarbage;
                    } else {
                        self.count_stats();
                    }
                },
                Step::CollectGarbage => {
                    self.count_stats();
                },
                Step::ReportMemory => {
                    self.step = Step::ShowFrame;
                },
                _ => {},
            },
        }
    }
}

} // verus!
