use uavled::engine::{
    next_load_step, Event, LoadStep, Session, Step, TestRun, TestStep, GC_FRAMES, STATS_FRAMES,
};

#[test]
fn script_loads_after_the_prelude() {
    let mut step = LoadStep::Reset;
    let mut seen = vec![step];
    while step != LoadStep::Loaded {
        step = next_load_step(step, true);
        seen.push(step);
    }
    assert_eq!(
        seen,
        [
            LoadStep::Reset,
            LoadStep::EvalPrelude,
            LoadStep::EvalScript,
            LoadStep::CompileCall,
            LoadStep::Loaded
        ]
    );
}

#[test]
fn script_errors_reject_the_script() {
    assert_eq!(next_load_step(LoadStep::EvalScript, false), LoadStep::Rejected);
    assert_eq!(next_load_step(LoadStep::CompileCall, false), LoadStep::Rejected);
}

#[test]
fn test_run_shows_every_frame() {
    let mut t = TestRun::new(3);
    let mut seen = vec![];
    while t.step != TestStep::Passed {
        seen.push(t.step);
        t.next(true);
    }
    assert_eq!(
        seen,
        [
            TestStep::Load,
            TestStep::CompileCall,
            TestStep::Run { frame: 0 },
            TestStep::Show { frame: 0, report: true },
            TestStep::Run { frame: 1 },
            TestStep::Show { frame: 1, report: false },
            TestStep::Run { frame: 2 },
            TestStep::Show { frame: 2, report: true },
        ]
    );
}

#[test]
fn test_run_without_frames_passes() {
    let mut t = TestRun::new(0);
    t.next(true);
    t.next(true);
    assert_eq!(t.step, TestStep::Passed);
}

#[test]
fn test_run_stops_at_the_first_failure() {
    for good in 0..3 {
        let mut t = TestRun::new(5);
        for _ in 0..good {
            t.next(true);
        }
        t.next(false);
        assert_eq!(t.step, TestStep::Failed);
    }
}

/// Runs the loop until the next frame has been shown and returns the steps taken.
fn frame(s: &mut Session) -> Vec<Step> {
    let mut seen = vec![];
    loop {
        seen.push(s.step);
        match s.step {
            Step::Serve => s.next(Event::Served),
            Step::ShowFrame => {
                s.next(Event::Shown { script_ready: false });
                return seen;
            }
            _ => s.next(Event::Done),
        }
    }
}

#[test]
fn upkeep_comes_round() {
    let mut s = Session::new();
    s.next(Event::Connected { script_ready: false });
    for n in 1..=300u32 {
        let seen = frame(&mut s);
        assert_eq!(seen.contains(&Step::CollectGarbage), n % GC_FRAMES == 0);
        assert_eq!(seen.contains(&Step::ReportMemory), n % STATS_FRAMES == 0);
    }
}

#[test]
fn upkeep_order_is_garbage_then_report() {
    let mut s = Session::new();
    s.gc_frames = GC_FRAMES - 1;
    s.stats_frames = STATS_FRAMES - 1;
    s.next(Event::Connected { script_ready: false });
    assert_eq!(
        frame(&mut s),
        [
            Step::Serve,
            Step::RunFrame,
            Step::CollectGarbage,
            Step::ReportMemory,
            Step::ShowFrame
        ]
    );
}

#[test]
fn loaded_script_hangs_up_and_resets_the_counters() {
    let mut s = Session::new();
    s.gc_frames = 5;
    s.stats_frames = 6;
    s.next(Event::Connected { script_ready: true });
    assert_eq!(s.step, Step::LoadScript);
    s.next(Event::ScriptLoaded);
    assert_eq!((s.gc_frames, s.stats_frames), (0, 0));
    assert_eq!(frame(&mut s), [Step::Serve, Step::HangUp, Step::RunFrame, Step::ShowFrame]);
    assert_eq!(frame(&mut s), [Step::Serve, Step::RunFrame, Step::ShowFrame]);
}

#[test]
fn rejected_script_keeps_the_connection() {
    let mut s = Session::new();
    s.gc_frames = 5;
    s.next(Event::Connected { script_ready: true });
    s.next(Event::ScriptRejected);
    assert_eq!(s.gc_frames, 5);
    assert_eq!(frame(&mut s), [Step::Serve, Step::RunFrame, Step::ShowFrame]);
}

#[test]
fn waiting_script_is_loaded_in_the_next_round() {
    let mut s = Session::new();
    s.next(Event::Connected { script_ready: false });
    s.next(Event::Served);
    s.next(Event::Done);
    s.next(Event::Shown { script_ready: true });
    assert_eq!(s.step, Step::LoadScript);
}

#[test]
fn disconnection_forgets_the_pending_hang_up() {
    let mut s = Session::new();
    s.next(Event::Connected { script_ready: true });
    s.next(Event::ScriptLoaded);
    s.next(Event::Disconnected);
    assert_eq!(s.step, Step::Advertise);
    s.next(Event::Connected { script_ready: false });
    assert_eq!(frame(&mut s), [Step::Serve, Step::RunFrame, Step::ShowFrame]);
}

#[test]
fn without_ble_frames_are_drawn_for_good() {
    let mut s = Session::new();
    s.next(Event::NoBle);
    for _ in 0..100 {
        assert_eq!(s.step, Step::DrawAlone);
        s.next(Event::Done);
    }
    assert_eq!((s.gc_frames, s.stats_frames), (0, 0));
}
