//! Laws of the order of work.
use crate::engine::{Event, LoadStep, Session, Step, TestRun, TestStep};
use vstd::prelude::*;

verus! {

/// A test after `n` steps that went well.
pub open spec fn after_steps(t: TestRun, n: nat) -> TestRun
    decreases n,
{
    if n == 0 {
        t
    } else {
        let s = after_steps(t, (n - 1) as nat);
        TestRun { step: s.following(true), ..s }
    }
}

proof fn lemma_test_reaches_frame(frames: usize, frame: nat)
    requires
        frame <= frames,
    ensures
        ({
            let t = TestRun { frames, step: TestStep::Load };
            after_steps(t, 2 + 2 * frame) == (TestRun { frames, step: t.at_frame(frame as int) })
        }),
    decreases frame,
{
    let t = TestRun { frames, step: TestStep::Load };
    if frame == 0 {
        reveal_with_fuel(after_steps, 3);
    } else {
        let f = (frame - 1) as nat;
        lemma_test_reaches_frame(frames, f);
        let a = after_steps(t, 2 + 2 * f);
        let b = after_steps(t, 3 + 2 * f);
        assert(b == (TestRun { step: a.following(true), ..a }));
        assert(after_steps(t, 4 + 2 * f) == (TestRun { step: b.following(true), ..b }));
    }
}

/// A test in which nothing fails runs and shows every frame once, in order, logs the first and the
/// last, and then passes.
pub proof fn law_test_covers_every_frame(frames: usize, frame: nat)
    ensures
        ({
            let t = TestRun { frames, step: TestStep::Load };
            &&& frame < frames ==> after_steps(t, 2 + 2 * frame).step == (TestStep::Run {
                frame: frame as usize,
            })
            &&& frame < frames ==> after_steps(t, 3 + 2 * frame).step == (TestStep::Show {
                frame: frame as usize,
                report: frame == 0 || frame == frames - 1,
            })
            &&& after_steps(t, 2 + 2 * frames as nat).step is Passed
        }),
{
    let t = TestRun { frames, step: TestStep::Load };
    lemma_test_reaches_frame(frames, frames as nat);
    if frame < frames {
        lemma_test_reaches_frame(frames, frame);
        let a = after_steps(t, 2 + 2 * frame);
        assert(after_steps(t, 3 + 2 * frame) == (TestRun { step: a.following(true), ..a }));
    }
}

/// Every expected event keeps the counters below their periods.
pub proof fn law_session_stays_well_formed(s: Session, event: Event)
    requires
        s.wf(),
    ensures
        s.after(event).wf(),
{
}

/// The loop once garbage has been seen to after a frame has been run.
pub open spec fn collected(s: Session) -> Session {
    let a = s.after(Event::Done);
    if a.step is CollectGarbage {
        a.after(Event::Done)
    } else {
        a
    }
}

/// The loop once a frame that has just been run is ready for the strip.
pub open spec fn frame_run(s: Session) -> Session {
    let b = collected(s);
    if b.step is ReportMemory {
        b.after(Event::Done)
    } else {
        b
    }
}

/// Each frame that is run comes to the strip and moves both counters on by one, around their
/// periods; garbage is collected, and memory reported, exactly when its counter comes round.
pub proof fn law_frames_are_counted(s: Session)
    requires
        s.wf(),
        s.step is RunFrame,
    ensures
        frame_run(s).step is ShowFrame,
        frame_run(s).gc_frames == (s.gc_frames + 1) % 16,
        frame_run(s).stats_frames == (s.stats_frames + 1) % 60,
        s.after(Event::Done).step is CollectGarbage <==> frame_run(s).gc_frames == 0,
        collected(s).step is ReportMemory <==> frame_run(s).stats_frames == 0,
{
}

/// A frame with no script waiting and no trouble on the connection leads to the next frame.
#[verifier::opaque]
pub open spec fn quiet_frame(s: Session) -> Session {
    frame_run(s).after(Event::Shown { script_ready: false }).after(Event::Served)
}

/// The loop after `n` quiet frames.
pub open spec fn quiet_frames(s: Session, n: nat) -> Session
    decreases n,
{
    if n == 0 {
        s
    } else {
        quiet_frame(quiet_frames(s, (n - 1) as nat))
    }
}

proof fn lemma_quiet_frame(s: Session)
    requires
        s.wf(),
        s.step is RunFrame,
        !s.hang_up,
    ensures
        quiet_frame(s).wf(),
        quiet_frame(s).step is RunFrame,
        !quiet_frame(s).hang_up,
        quiet_frame(s).gc_frames == (s.gc_frames + 1) % 16,
        quiet_frame(s).stats_frames == (s.stats_frames + 1) % 60,
{
    reveal(quiet_frame);
    law_frames_are_counted(s);
}

proof fn lemma_counters_go_round(x: int, y: int)
    ensures
        (x % 16 + 1) % 16 == (x + 1) % 16,
        (y % 60 + 1) % 60 == (y + 1) % 60,
{
}

/// Over any number of quiet frames both counters move on by one a frame, around their periods.
#[verifier::spinoff_prover]
pub proof fn law_quiet_frames_are_counted(s: Session, n: nat)
    requires
        s.wf(),
        s.step is RunFrame,
        !s.hang_up,
    ensures
        quiet_frames(s, n).wf(),
        quiet_frames(s, n).step is RunFrame,
        !quiet_frames(s, n).hang_up,
        quiet_frames(s, n).gc_frames == (s.gc_frames + n) % 16,
        quiet_frames(s, n).stats_frames == (s.stats_frames + n) % 60,
    decreases n,
{
    if n > 0 {
        let before = quiet_frames(s, (n - 1) as nat);
        law_quiet_frames_are_counted(s, (n - 1) as nat);
        lemma_quiet_frame(before);
        lemma_counters_go_round(s.gc_frames + n - 1, s.stats_frames + n - 1);
        assert(quiet_frames(s, n) == quiet_frame(before));
        assert(before.gc_frames == (s.gc_frames + n - 1) % 16);
        assert(before.stats_frames == (s.stats_frames + n - 1) % 60);
    }
}

proof fn lemma_due(t: Session, gc: int, stats: int)
    requires
        t.wf(),
        t.step is RunFrame,
        0 <= gc,
        0 <= stats,
        t.gc_frames == gc % 16,
        t.stats_frames == stats % 60,
    ensures
        t.after(Event::Done).step is CollectGarbage <==> (gc + 1) % 16 == 0,
        collected(t).step is ReportMemory <==> (stats + 1) % 60 == 0,
{
    assert((gc + 1) % 16 == 0 <==> t.gc_frames == 15);
    assert((stats + 1) % 60 == 0 <==> t.stats_frames == 59);
}

/// Over any number of quiet frames garbage is collected with every 16th and memory reported with
/// every 60th.
pub proof fn law_upkeep_is_periodic(s: Session, n: nat)
    requires
        s.wf(),
        s.step is RunFrame,
        !s.hang_up,
    ensures
        quiet_frames(s, n).after(Event::Done).step is CollectGarbage <==> (s.gc_frames + n + 1)
            % 16 == 0,
        collected(quiet_frames(s, n)).step is ReportMemory <==> (s.stats_frames + n + 1) % 60 == 0,
{
    law_quiet_frames_are_counted(s, n);
    lemma_due(quiet_frames(s, n), s.gc_frames + n, s.stats_frames + n);
}

/// A script that was loaded closes the connection before its first frame, once; one that was
/// refused does not.
pub proof fn law_loaded_script_hangs_up_once(s: Session)
    requires
        s.step is LoadScript,
    ensures
        ({
            let a = s.after(Event::ScriptLoaded).after(Event::Served);
            &&& a.step is HangUp
            &&& a.after(Event::Done).step is RunFrame
            &&& !a.after(Event::Done).hang_up
        }),
        !s.hang_up ==> s.after(Event::ScriptRejected).after(Event::Served).step is RunFrame,
{
}

/// Without BLE the loop draws frames for good and never comes back to connections, scripts or
/// upkeep.
pub proof fn law_drawing_alone_is_for_good(s: Session, event: Event)
    requires
        s.step is Advertise,
        s.after(Event::NoBle).expects(event),
    ensures
        s.after(Event::NoBle).step is DrawAlone,
        s.after(Event::NoBle).after(event) == s.after(Event::NoBle),
{
}

/// A script that waits is loaded before anything else in a round.
pub proof fn law_waiting_script_comes_first(s: Session)
    ensures
        s.after(Event::Connected { script_ready: true }).step is LoadScript,
        s.after(Event::Shown { script_ready: true }).step is LoadScript,
{
}

/// A script is loaded only after a reset, the built-in library, its own evaluation and the
/// compiled call, in this order and with nothing left out, and it is refused exactly when its
/// evaluation or the call fails.
pub proof fn law_script_loads_in_order(step: LoadStep, ok: bool)
    requires
        !(step is Loaded),
        !(step is Rejected),
        step is Reset || step is EvalPrelude ==> ok,
    ensures
        step.following(ok) is EvalPrelude <==> step is Reset,
        step.following(ok) is EvalScript <==> step is EvalPrelude,
        step.following(ok) is CompileCall <==> step is EvalScript && ok,
        step.following(ok) is Loaded <==> step is CompileCall && ok,
        step.following(ok) is Rejected <==> !ok,
        !(step.following(ok) is Reset),
{
}

/// A test ends as failed exactly at a step that fails; a frame is shown only right after it was
/// run, and logged if it is the first or the last; after it comes the next one, and after the last
/// the test has passed.
pub proof fn law_test_goes_frame_by_frame(t: TestRun, ok: bool)
    requires
        t.wf(),
        !t.ended(),
        t.step is Show ==> ok,
    ensures
        t.following(ok) is Failed <==> !ok,
        t.following(ok) is CompileCall <==> t.step is Load && ok,
        !(t.following(ok) is Load),
        t.following(ok) matches TestStep::Show { frame, report } ==> {
            &&& t.step == (TestStep::Run { frame })
            &&& ok
            &&& report <==> frame == 0 || frame + 1 == t.frames
        },
        t.step is Run && ok ==> t.following(ok) is Show,
        t.following(ok) matches TestStep::Run { frame } ==> frame < t.frames && (if frame == 0 {
            t.step is CompileCall
        } else {
            t.step is Show && t.step->Show_frame + 1 == frame
        }),
        t.step is CompileCall && ok && t.frames > 0 ==> t.following(ok) is Run,
        t.step is Show && t.step->Show_frame + 1 < t.frames ==> t.following(ok) is Run,
        t.following(ok) is Passed ==> ok && (t.frames == 0 && t.step is CompileCall || t.step is Show
            && t.step->Show_frame + 1 == t.frames),
{
}

/// Two states of the loop with the same counters and the same mind about hanging up.
pub open spec fn same_counts(s: Session, t: Session) -> bool {
    s.gc_frames == t.gc_frames && s.stats_frames == t.stats_frames && s.hang_up == t.hang_up
}

/// A connection that is lost leads to advertising, whatever else goes on, and before any further
/// frame; the counters stay.
pub proof fn law_lost_connection_is_advertised(s: Session)
    requires
        s.step is Serve,
    ensures
        s.after(Event::Disconnected).step is Advertise,
        same_counts(s.after(Event::Disconnected), s),
{
}

/// A connection starts with no hang-up pending; a round starts with a script that waits, and else
/// with the server. The counters go on from one connection, and from one round, to the next.
pub proof fn law_rounds_begin(s: Session, script_ready: bool)
    ensures
        ({
            let t = s.after(Event::Connected { script_ready });
            &&& t.step == if script_ready {
                Step::LoadScript
            } else {
                Step::Serve
            }
            &&& !t.hang_up
            &&& t.gc_frames == s.gc_frames
            &&& t.stats_frames == s.stats_frames
        }),
        ({
            let t = s.after(Event::Shown { script_ready });
            &&& t.step == if script_ready {
                Step::LoadScript
            } else {
                Step::Serve
            }
            &&& same_counts(t, s)
        }),
{
}

/// A script that was loaded starts both counters anew and has the connection closed; one that was
/// refused changes nothing. Either way the server comes next.
pub proof fn law_load_leads_to_server(s: Session)
    requires
        s.step is LoadScript,
    ensures
        s.after(Event::ScriptLoaded) == (Session {
            step: Step::Serve,
            gc_frames: 0,
            stats_frames: 0,
            hang_up: true,
        }),
        s.after(Event::ScriptRejected).step is Serve,
        same_counts(s.after(Event::ScriptRejected), s),
{
}

/// The server is followed by a frame, with the connection closed before it if that is pending and
/// then pending no longer.
pub proof fn law_server_is_followed_by_frame(s: Session)
    ensures
        s.step is Serve ==> {
            let t = s.after(Event::Served);
            &&& t.step == if s.hang_up {
                Step::HangUp
            } else {
                Step::RunFrame
            }
            &&& !t.hang_up
            &&& t.gc_frames == s.gc_frames
            &&& t.stats_frames == s.stats_frames
        },
        s.step is HangUp ==> s.after(Event::Done).step is RunFrame && same_counts(
            s.after(Event::Done),
            s,
        ),
{
}

/// After a frame the garbage counter goes up by 1; when that makes 16 or more, garbage is
/// collected and the counter is back at 0. Then the memory counter goes up by 1; when that makes 60
/// or more, memory is reported and the counter is back at 0. Then the frame is shown. A counter at
/// the largest `u32` goes on from 0.
pub proof fn law_upkeep_follows_frame(s: Session)
    ensures
        ({
            let gc = if s.gc_frames == u32::MAX {
                0
            } else {
                s.gc_frames + 1
            };
            let stats = if s.stats_frames == u32::MAX {
                0
            } else {
                s.stats_frames + 1
            };
            let t = s.after(Event::Done);
            let upkept = if stats >= 60 {
                t.step is ReportMemory && t.stats_frames == 0
            } else {
                t.step is ShowFrame && t.stats_frames == stats
            };
            &&& s.step is RunFrame ==> t.hang_up == s.hang_up && if gc >= 16 {
                t.step is CollectGarbage && t.gc_frames == 0 && t.stats_frames == s.stats_frames
            } else {
                t.gc_frames == gc && upkept
            }
            &&& s.step is CollectGarbage ==> t.hang_up == s.hang_up && t.gc_frames == s.gc_frames
                && upkept
            &&& s.step is ReportMemory ==> t.step is ShowFrame && same_counts(t, s)
        }),
{
}

} // verus!
