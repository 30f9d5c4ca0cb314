use chromabridge::frame_loop::{
    elapsed, FrameLoop, FramePacing, FrameSample, FrameStats, FrameWindow, LoopAction, LoopInput,
    LoopPhase, PacingMode,
};
use chromabridge::noise::NoiseError;
use chromabridge::overlay::{
    LoadedAssets, OverlayManager, SessionSettings, SessionState, StartError, StartOutcome,
    StartStep, StopStep, ToggleStep,
};
use chromabridge::render::{test_pattern, SpectrumParams};
use chromabridge::spectrum::{
    Spectrum, SpectrumError, SpectrumFile, SpectrumFileError, SpectrumNode,
};
use chromabridge::state::AppState;
use std::io::Cursor;

fn node(position: i64, color: &str) -> SpectrumNode {
    SpectrumNode { position, color: color.to_string(), hue: None, saturation: None, value: None }
}

fn spectrum_file() -> SpectrumFile {
    SpectrumFile {
        spectra: vec![Spectrum { nodes: vec![node(0, "#FF0000"), node(500_000, "#0000FF")] }],
    }
}

fn dual_file() -> SpectrumFile {
    SpectrumFile {
        spectra: vec![
            Spectrum { nodes: vec![node(0, "#FF0000")] },
            Spectrum { nodes: vec![node(0, "#00FF00")] },
        ],
    }
}

fn settings(spectrum: Option<&str>, noise: Option<&str>) -> SessionSettings {
    SessionSettings {
        spectrum_name: spectrum.map(|s| s.to_string()),
        noise_texture: noise.map(|s| s.to_string()),
        strength: 750_000,
        last_monitor: Some(1),
        vsync_enabled: true,
        target_fps: None,
    }
}

fn png() -> Vec<u8> {
    let img = image::GrayImage::from_raw(2, 1, vec![255, 0]).unwrap();
    let mut out = Cursor::new(Vec::new());
    img.write_to(&mut out, image::ImageFormat::Png).unwrap();
    out.into_inner()
}

fn running_manager() -> OverlayManager {
    let mut m = OverlayManager::new();
    let s = settings(Some("deuteranopia"), None);
    assert_eq!(m.start(&s), StartStep::LoadAssets);
    let outcome = m.finish_start(&s, LoadedAssets { spectrum: Some(spectrum_file()), noise: None });
    assert!(matches!(outcome, StartOutcome::Started(_)));
    m
}

#[test]
fn new_manager_is_stopped() {
    let m = OverlayManager::new();
    assert_eq!(m.state(), SessionState::Stopped);
    assert!(!m.is_running());
    assert_eq!(m.get_frame_stats(), None);
    assert_eq!(m.last_monitor(), None);
}

#[test]
fn start_without_spectrum_fails() {
    let mut m = OverlayManager::new();
    assert_eq!(m.start(&settings(None, None)), StartStep::Failed(StartError::NoSpectrumSelected));
    assert_eq!(m.state(), SessionState::Stopped);
    assert!(!m.is_running());
}

#[test]
fn start_with_missing_spectrum_file_fails() {
    let mut m = OverlayManager::new();
    let s = settings(Some("gone"), None);
    assert_eq!(m.start(&s), StartStep::LoadAssets);
    assert_eq!(m.state(), SessionState::Starting);
    assert!(!m.is_running());
    let outcome = m.finish_start(&s, LoadedAssets { spectrum: None, noise: None });
    assert!(matches!(outcome, StartOutcome::Failed(StartError::SpectrumUnreadable)));
    assert_eq!(m.state(), SessionState::Stopped);
    assert!(!m.is_running());
    assert_eq!(m.get_frame_stats(), None);
}

#[test]
fn start_with_invalid_spectrum_file_fails() {
    let mut m = OverlayManager::new();
    let s = settings(Some("bad"), None);
    m.start(&s);
    let file = SpectrumFile { spectra: vec![Spectrum { nodes: vec![] }] };
    let outcome = m.finish_start(&s, LoadedAssets { spectrum: Some(file), noise: None });
    assert!(matches!(
        outcome,
        StartOutcome::Failed(StartError::SpectrumInvalid(SpectrumFileError::Invalid {
            index: 0,
            error: SpectrumError::Empty
        }))
    ));
    assert!(!m.is_running());

    m.start(&s);
    let outcome =
        m.finish_start(&s, LoadedAssets { spectrum: Some(SpectrumFile { spectra: vec![] }), noise: None });
    assert!(matches!(
        outcome,
        StartOutcome::Failed(StartError::SpectrumInvalid(SpectrumFileError::NoSpectrum))
    ));
}

#[test]
fn start_with_missing_or_broken_mask_fails() {
    let mut m = OverlayManager::new();
    let s = settings(Some("ok"), Some("mask"));
    m.start(&s);
    let outcome = m.finish_start(&s, LoadedAssets { spectrum: Some(spectrum_file()), noise: None });
    assert!(matches!(outcome, StartOutcome::Failed(StartError::NoiseUnreadable)));
    assert_eq!(m.state(), SessionState::Stopped);

    m.start(&s);
    let outcome = m.finish_start(
        &s,
        LoadedAssets { spectrum: Some(spectrum_file()), noise: Some(vec![1, 2, 3]) },
    );
    assert!(matches!(outcome, StartOutcome::Failed(StartError::NoiseInvalid(NoiseError::Decode))));
    assert!(!m.is_running());
}

#[test]
fn spectrum_is_judged_before_the_mask() {
    let mut m = OverlayManager::new();
    let s = settings(Some("gone"), Some("mask"));
    m.start(&s);
    let outcome = m.finish_start(&s, LoadedAssets { spectrum: None, noise: None });
    assert!(matches!(outcome, StartOutcome::Failed(StartError::SpectrumUnreadable)));
}

#[test]
fn start_hands_out_the_worker_state() {
    let mut m = OverlayManager::new();
    let mut s = settings(Some("ok"), Some("mask"));
    s.strength = 2_000_000;
    s.last_monitor = None;
    s.vsync_enabled = false;
    s.target_fps = Some(30_000);
    assert_eq!(m.start(&s), StartStep::LoadAssets);
    let outcome =
        m.finish_start(&s, LoadedAssets { spectrum: Some(dual_file()), noise: Some(png()) });
    let state = match outcome {
        StartOutcome::Started(state) => state,
        _ => panic!("the session should have started"),
    };
    assert!(m.is_running());
    assert_eq!(m.state(), SessionState::Running);
    assert_eq!(m.last_monitor(), Some(0));
    assert_eq!(m.get_frame_stats(), None);
    assert_eq!(state.monitor_index, 0);
    assert_eq!(state.hue_mapper.get_strength(), 1_000_000);
    assert!(!state.vsync_enabled);
    assert_eq!(state.target_fps, Some(30_000));
    assert!(state.spectrum_pair.has_dual_spectrum());
    assert_eq!(state.spectrum_pair.spectrum1.nodes[0].color, "#FF0000");
    let mask = state.noise_texture.as_ref().unwrap();
    assert_eq!((mask.width(), mask.height()), (2, 1));
    assert_eq!(state.pacing(), FramePacing { vsync_enabled: false, target_fps: Some(30_000) });
    assert_eq!(
        state.shader_params(),
        SpectrumParams { strength: 1_000_000, use_dual_spectrum: 1, use_noise_texture: 1 }
    );
    let textures = state.textures().unwrap();
    assert_eq!(textures.spectrum1.len(), 360);
    assert_eq!(textures.spectrum2.as_ref().unwrap().len(), 360);
    assert_eq!(textures.spectrum1[17].r, 255);
    assert_eq!(textures.spectrum2.unwrap()[200].g, 255);
    assert_eq!(textures.noise, Some((2, 1, vec![255, 0])));
    assert_eq!(textures.params, state.shader_params());
}

#[test]
fn mask_is_ignored_unless_selected() {
    let mut m = OverlayManager::new();
    let s = settings(Some("ok"), None);
    m.start(&s);
    let outcome = m.finish_start(
        &s,
        LoadedAssets { spectrum: Some(spectrum_file()), noise: Some(vec![9, 9, 9]) },
    );
    match outcome {
        StartOutcome::Started(state) => {
            assert!(state.noise_texture.is_none());
            assert_eq!(state.monitor_index, 1);
            assert_eq!(state.shader_params().use_noise_texture, 0);
            assert_eq!(state.shader_params().use_dual_spectrum, 0);
            assert_eq!(state.textures().unwrap().noise, None);
        }
        _ => panic!("the session should have started"),
    }
}

#[test]
fn second_start_is_a_no_op() {
    let mut m = running_manager();
    m.publish_stats(FrameStats { fps_milli: 60_000, frame_time_us: 900 });
    let s = settings(Some("other"), None);
    assert_eq!(m.start(&s), StartStep::AlreadyRunning);
    assert!(m.is_running());
    assert_eq!(m.last_monitor(), Some(1));
    assert_eq!(m.get_frame_stats(), Some(FrameStats { fps_milli: 60_000, frame_time_us: 900 }));
    let outcome = m.finish_start(&s, LoadedAssets { spectrum: None, noise: None });
    assert!(matches!(outcome, StartOutcome::NotStarting));
    assert!(m.is_running());
}

#[test]
fn start_then_stop_ends_stopped_without_statistics() {
    let mut m = running_manager();
    m.publish_stats(FrameStats { fps_milli: 144_000, frame_time_us: 500 });
    assert_eq!(m.get_frame_stats(), Some(FrameStats { fps_milli: 144_000, frame_time_us: 500 }));
    assert_eq!(m.stop(), StopStep::JoinWorker);
    assert_eq!(m.state(), SessionState::Stopping);
    assert!(!m.is_running());
    assert_eq!(m.get_frame_stats(), None);
    m.publish_stats(FrameStats { fps_milli: 1, frame_time_us: 1 });
    assert_eq!(m.get_frame_stats(), None);
    assert_eq!(m.finish_stop(), Some(1));
    assert_eq!(m.state(), SessionState::Stopped);
    assert_eq!(m.last_monitor(), None);
    assert_eq!(m.get_frame_stats(), None);
}

#[test]
fn stop_without_session_is_a_no_op() {
    let mut m = OverlayManager::new();
    assert_eq!(m.stop(), StopStep::NotRunning);
    assert_eq!(m.finish_stop(), None);
    assert_eq!(m.state(), SessionState::Stopped);
}

#[test]
fn start_while_busy_is_refused() {
    let mut m = OverlayManager::new();
    let s = settings(Some("ok"), None);
    assert_eq!(m.start(&s), StartStep::LoadAssets);
    assert_eq!(m.start(&s), StartStep::Busy);
    assert_eq!(m.stop(), StopStep::NotRunning);
    assert_eq!(m.state(), SessionState::Starting);
    let mut m = running_manager();
    m.stop();
    assert_eq!(m.start(&s), StartStep::Busy);
    assert_eq!(m.state(), SessionState::Stopping);
}

#[test]
fn toggle_stops_a_running_session_and_starts_otherwise() {
    let mut m = OverlayManager::new();
    let s = settings(Some("ok"), None);
    assert_eq!(m.toggle(&s), ToggleStep::Start(StartStep::LoadAssets));
    m.finish_start(&s, LoadedAssets { spectrum: Some(spectrum_file()), noise: None });
    assert!(m.is_running());
    assert_eq!(m.toggle(&s), ToggleStep::Stop(StopStep::JoinWorker));
    m.finish_stop();
    assert_eq!(
        m.toggle(&settings(None, None)),
        ToggleStep::Start(StartStep::Failed(StartError::NoSpectrumSelected))
    );
}

#[test]
fn worker_exit_ends_the_session() {
    let mut m = running_manager();
    m.publish_stats(FrameStats { fps_milli: 60_000, frame_time_us: 900 });
    m.worker_exited();
    assert_eq!(m.state(), SessionState::Stopped);
    assert_eq!(m.get_frame_stats(), None);
    assert_eq!(m.last_monitor(), None);
    m.worker_exited();
    assert_eq!(m.state(), SessionState::Stopped);
}

#[test]
fn statistics_are_dropped_unless_running() {
    let mut m = OverlayManager::new();
    m.publish_stats(FrameStats { fps_milli: 60_000, frame_time_us: 900 });
    assert_eq!(m.get_frame_stats(), None);
}

#[test]
fn app_state_defaults() {
    let state = AppState::default();
    assert_eq!(state.strength, 1_000_000);
    assert!(state.keep_running_in_tray);
    assert!(state.open_gui_on_launch);
    assert!(state.vsync_enabled);
    assert_eq!(state.target_fps, None);
    assert_eq!(state.log_retention_count, 10);
    assert!(!state.overlay_enabled);
    assert!(chromabridge::state::default_vsync_enabled());
    assert!(chromabridge::state::default_open_gui_on_launch());
    assert_eq!(chromabridge::state::default_target_fps(), None);
}

#[test]
fn session_settings_come_from_the_state() {
    let mut state = AppState::default();
    state.spectrum_name = Some("protanopia".to_string());
    state.noise_texture = Some("blue".to_string());
    state.strength = 400_000;
    state.last_monitor = Some(2);
    state.vsync_enabled = false;
    state.target_fps = Some(59_940);
    let s = state.session_settings();
    assert_eq!(s.spectrum_name.as_deref(), Some("protanopia"));
    assert_eq!(s.noise_texture.as_deref(), Some("blue"));
    assert_eq!((s.strength, s.last_monitor, s.vsync_enabled, s.target_fps), (400_000, Some(2), false, Some(59_940)));
    state.set_overlay_enabled(true);
    assert!(state.overlay_enabled && state.last_overlay_enabled);
    state.set_overlay_enabled(false);
    assert!(!state.overlay_enabled && !state.last_overlay_enabled);
}

#[test]
fn window_keeps_the_newest_sixty_samples() {
    let mut w = FrameWindow::new();
    assert_eq!(w.len(), 0);
    assert_eq!(w.stats(), None);
    for i in 1..=60u64 {
        w.push(FrameSample { render_us: i, total_us: 10 * i });
    }
    assert_eq!(w.len(), 60);
    // Sum of 1..=60 is 1830.
    assert_eq!(
        w.stats(),
        Some(FrameStats { fps_milli: 60 * 1_000_000_000 / 18_300, frame_time_us: 1830 / 60 })
    );
    for i in 61..=100u64 {
        w.push(FrameSample { render_us: i, total_us: 10 * i });
    }
    assert_eq!(w.len(), 60);
    // Sum of 41..=100 is 4230.
    assert_eq!(
        w.stats(),
        Some(FrameStats { fps_milli: 60 * 1_000_000_000 / 42_300, frame_time_us: 4230 / 60 })
    );
}

#[test]
fn statistics_of_a_steady_sixty_hertz() {
    let mut w = FrameWindow::new();
    for _ in 0..10 {
        w.push(FrameSample { render_us: 2_000, total_us: 16_667 });
    }
    assert_eq!(w.stats(), Some(FrameStats { fps_milli: 59_998, frame_time_us: 2_000 }));
}

#[test]
fn statistics_without_elapsed_time_show_no_rate() {
    let mut w = FrameWindow::new();
    w.push(FrameSample { render_us: 5, total_us: 0 });
    assert_eq!(w.stats(), Some(FrameStats { fps_milli: 0, frame_time_us: 5 }));
}

#[test]
fn window_takes_the_largest_samples() {
    let mut w = FrameWindow::new();
    for _ in 0..130 {
        w.push(FrameSample { render_us: u64::MAX, total_us: u64::MAX });
    }
    assert_eq!(w.stats(), Some(FrameStats { fps_milli: 0, frame_time_us: u64::MAX }));
}

#[test]
fn pacing_modes() {
    let vsync = FramePacing { vsync_enabled: true, target_fps: None };
    assert_eq!(vsync.mode(), PacingMode::DisplaySync);
    assert_eq!(vsync.sync_interval(), 1);
    assert!(!vsync.waits_for_frame_signal());
    assert_eq!(vsync.frame_budget(), None);
    let signal = FramePacing { vsync_enabled: false, target_fps: None };
    assert_eq!(signal.mode(), PacingMode::FrameSignal);
    assert_eq!(signal.sync_interval(), 0);
    assert!(signal.waits_for_frame_signal());
    let cap = FramePacing { vsync_enabled: false, target_fps: Some(60_000) };
    assert_eq!(cap.mode(), PacingMode::FrameCap);
    assert_eq!(cap.frame_budget(), Some(16_666));
    let zero = FramePacing { vsync_enabled: true, target_fps: Some(0) };
    assert_eq!(zero.mode(), PacingMode::DisplaySync);
    assert_eq!(zero.frame_budget(), None);
    assert_eq!(FramePacing { vsync_enabled: true, target_fps: Some(1) }.frame_budget(), Some(1_000_000_000));
}

#[test]
fn elapsed_never_goes_negative() {
    assert_eq!(elapsed(10, 25), 15);
    assert_eq!(elapsed(25, 10), 0);
    assert_eq!(elapsed(0, u64::MAX), u64::MAX);
}

#[test]
fn frame_errors_are_reported_once_per_second() {
    let mut l = FrameLoop::new(FramePacing { vsync_enabled: true, target_fps: None }, 1_000);
    assert_eq!(l.on_frame_error(1_000), None);
    assert_eq!(l.on_frame_error(500_000), None);
    assert_eq!(l.on_frame_error(1_000_999), None);
    assert_eq!(l.on_frame_error(1_001_000), Some(4));
    assert_eq!(l.on_frame_error(1_500_000), None);
    assert_eq!(l.on_frame_error(2_000_999), None);
    assert_eq!(l.on_frame_error(2_001_000), Some(7));
    assert_eq!(l.error_count(), 7);
}

#[test]
fn cap_sleeps_out_the_rest_of_the_budget() {
    let cap = FramePacing { vsync_enabled: false, target_fps: Some(100_000) };
    let mut l = FrameLoop::new(cap, 0);
    assert_eq!(l.pacing(), cap);
    assert_eq!(l.cap_sleep_us(0), 10_000);
    assert_eq!(l.cap_sleep_us(4_000), 6_000);
    assert_eq!(l.cap_sleep_us(10_000), 0);
    assert_eq!(l.cap_sleep_us(50_000), 0);
    l.on_frame_presented(1_000, 10_000);
    assert_eq!(l.cap_sleep_us(12_500), 7_500);
    let free = FrameLoop::new(FramePacing { vsync_enabled: true, target_fps: None }, 0);
    assert_eq!(free.cap_sleep_us(1), 0);
}

#[test]
fn statistics_are_published_every_tenth_of_a_second() {
    let mut l = FrameLoop::new(FramePacing { vsync_enabled: true, target_fps: None }, 0);
    let mut now: u64 = 0;
    let mut published = Vec::new();
    for _ in 0..30 {
        now += 10_000;
        if let Some(stats) = l.on_frame_presented(2_500, now) {
            published.push((now, stats));
        }
    }
    let expected = FrameStats { fps_milli: 100_000, frame_time_us: 2_500 };
    assert_eq!(published, vec![(100_000, expected), (200_000, expected), (300_000, expected)]);
}

#[test]
fn test_pattern_is_a_gradient() {
    assert_eq!(test_pattern(0, 0), Some(vec![]));
    assert_eq!(test_pattern(0, 7), Some(vec![]));
    let p = test_pattern(4, 2).unwrap();
    assert_eq!(p.len(), 32);
    // Pixel (0, 0).
    assert_eq!(&p[0..4], &[128, 0, 0, 255]);
    // Pixel (3, 0): red is floor(3 * 255 / 4).
    assert_eq!(&p[12..16], &[128, 0, 191, 255]);
    // Pixel (1, 1): green is floor(255 / 2), red floor(255 / 4).
    assert_eq!(&p[20..24], &[128, 127, 63, 255]);
}

fn input(now_us: u64) -> LoopInput {
    LoopInput { now_us, cancelled: false, quit: false, failed: false }
}

#[test]
fn iteration_with_vertical_sync() {
    let mut l = FrameLoop::new(FramePacing { vsync_enabled: true, target_fps: None }, 0);
    assert_eq!(l.phase(), LoopPhase::Idle);
    assert_eq!(l.advance(input(10)), LoopAction::DrainEvents);
    assert_eq!(l.advance(input(20)), LoopAction::RenderFrame);
    assert_eq!(l.phase(), LoopPhase::Rendering);
    assert_eq!(l.advance(input(2_020)), LoopAction::Present { sync_interval: 1 });
    assert_eq!(l.advance(input(16_000)), LoopAction::FrameDone { publish: None });
    assert_eq!(l.phase(), LoopPhase::Idle);
    assert_eq!(l.advance(input(16_010)), LoopAction::DrainEvents);
}

#[test]
fn iteration_with_frame_signal_and_cap() {
    let mut l = FrameLoop::new(FramePacing { vsync_enabled: false, target_fps: Some(50_000) }, 0);
    assert_eq!(l.advance(input(0)), LoopAction::WaitFrameSignal);
    assert_eq!(l.advance(input(100)), LoopAction::DrainEvents);
    assert_eq!(l.advance(input(200)), LoopAction::RenderFrame);
    assert_eq!(l.advance(input(1_200)), LoopAction::Present { sync_interval: 0 });
    // The budget of 20 ms counts from the end of the previous frame.
    assert_eq!(l.advance(input(1_500)), LoopAction::Sleep { us: 18_500 });
    assert_eq!(l.phase(), LoopPhase::Sleeping);
    assert_eq!(l.advance(input(20_000)), LoopAction::FrameDone { publish: None });
    for frame in 1..5u64 {
        let start = 20_000 * frame;
        assert_eq!(l.advance(input(start)), LoopAction::WaitFrameSignal);
        assert_eq!(l.advance(input(start)), LoopAction::DrainEvents);
        assert_eq!(l.advance(input(start)), LoopAction::RenderFrame);
        assert_eq!(l.advance(input(start + 3_000)), LoopAction::Present { sync_interval: 0 });
        assert_eq!(l.advance(input(start + 3_500)), LoopAction::Sleep { us: 16_500 });
        let done = l.advance(input(start + 20_000));
        if frame < 4 {
            assert_eq!(done, LoopAction::FrameDone { publish: None });
        } else {
            // Five frames of 20 ms each; renders of 1 ms and four times 3 ms.
            let stats = FrameStats { fps_milli: 50_000, frame_time_us: 2_600 };
            assert_eq!(done, LoopAction::FrameDone { publish: Some(stats) });
        }
    }
}

#[test]
fn loop_keeps_at_most_sixty_samples() {
    let mut l = FrameLoop::new(FramePacing { vsync_enabled: true, target_fps: None }, 0);
    assert_eq!(l.sample_count(), 0);
    for frame in 1..=100u64 {
        l.on_frame_presented(10, frame * 1_000);
        assert_eq!(l.sample_count() as u64, frame.min(60));
    }
}

#[test]
fn failed_frame_is_skipped() {
    let mut l = FrameLoop::new(FramePacing { vsync_enabled: true, target_fps: None }, 0);
    l.advance(input(0));
    assert_eq!(l.advance(input(0)), LoopAction::RenderFrame);
    let failed = LoopInput { failed: true, ..input(500) };
    assert_eq!(l.advance(failed), LoopAction::SkipFrame { report: None });
    assert_eq!(l.phase(), LoopPhase::Idle);
    assert_eq!(l.error_count(), 1);
    l.advance(input(600));
    l.advance(input(600));
    let failed = LoopInput { failed: true, ..input(1_000_000) };
    assert_eq!(l.advance(failed), LoopAction::SkipFrame { report: Some(2) });
    // No frame was presented, so there is nothing to publish even now.
    l.advance(input(1_000_100));
    l.advance(input(1_000_100));
    assert_eq!(l.advance(input(1_000_200)), LoopAction::Present { sync_interval: 1 });
    assert_eq!(
        l.advance(input(1_001_000)),
        LoopAction::FrameDone {
            publish: Some(FrameStats { fps_milli: 999, frame_time_us: 100 })
        }
    );
}

#[test]
fn loop_ends_on_cancellation_or_quit() {
    let pacing = FramePacing { vsync_enabled: true, target_fps: None };
    let mut l = FrameLoop::new(pacing, 0);
    assert_eq!(l.advance(LoopInput { cancelled: true, ..input(0) }), LoopAction::Exit);
    assert_eq!(l.phase(), LoopPhase::Ended);
    assert_eq!(l.advance(input(5)), LoopAction::Exit);

    let mut l = FrameLoop::new(pacing, 0);
    assert_eq!(l.advance(input(0)), LoopAction::DrainEvents);
    assert_eq!(l.advance(LoopInput { quit: true, ..input(0) }), LoopAction::Exit);
    assert_eq!(l.advance(input(5)), LoopAction::Exit);

    // A frame in progress completes before the cancellation is seen.
    let mut l = FrameLoop::new(pacing, 0);
    let cancelled = LoopInput { cancelled: true, ..input(10) };
    l.advance(input(0));
    assert_eq!(l.advance(cancelled), LoopAction::RenderFrame);
    assert_eq!(l.advance(cancelled), LoopAction::Present { sync_interval: 1 });
    assert_eq!(l.advance(cancelled), LoopAction::FrameDone { publish: None });
    assert_eq!(l.advance(cancelled), LoopAction::Exit);
}
