//! The session manager: the state machine that starts and stops an overlay
//! session.
//!
//! The manager decides; its caller acts. `start` tells the caller to load
//! the session's files, `finish_start` judges what was loaded and hands out
//! what the worker needs, `stop` tells the caller to join the worker, and
//! `finish_stop` closes the session.

use vstd::prelude::*;
use crate::units::clamp_unit;
use crate::hue_mapper::HueMapper;
use crate::spectrum::{
    SpectrumFile, SpectrumFileError, SpectrumPair, valid_file, is_first_file_fault,
};
use crate::noise::{NoiseTexture, NoiseError, MaskView, png_luma, mask_of_luma};
use crate::frame_loop::{FrameStats, FramePacing};

verus! {

/// The states of a session.
#[derive(Clone, Copy, Debug, PartialEq, Eq, Structural)]
pub enum SessionState {
    /// No session; nothing is held.
    Stopped,
    /// A start was accepted and the session's files are being loaded.
    Starting,
    /// The worker runs.
    Running,
    /// A stop was accepted and the worker is being joined.
    Stopping,
}

/// What a session is started with.
#[derive(Clone, Debug)]
pub struct SessionSettings {
    /// Name of the selected spectrum, if one is selected.
    pub spectrum_name: Option<String>,
    /// Name of the selected dither mask, if one is selected.
    pub noise_texture: Option<String>,
    /// Blend strength in millionths.
    pub strength: i64,
    /// The monitor last chosen; the first monitor when none was.
    pub last_monitor: Option<usize>,
    /// Whether presentation waits for the display's refresh.
    pub vsync_enabled: bool,
    /// Cap on the frame rate in thousandths of a frame per second.
    pub target_fps: Option<u32>,
}

/// What the caller loaded for a start: the content of the spectrum file and
/// the bytes of the mask file, each `None` where it could not be read.
#[derive(Clone, Debug)]
pub struct LoadedAssets {
    pub spectrum: Option<SpectrumFile>,
    pub noise: Option<Vec<u8>>,
}

/// Why a session did not start.
#[derive(Clone, Copy, Debug, PartialEq, Eq, Structural)]
pub enum StartError {
    /// No spectrum is selected.
    NoSpectrumSelected,
    /// The spectrum file is missing or could not be read.
    SpectrumUnreadable,
    /// The spectrum file does not hold valid spectra.
    SpectrumInvalid(SpectrumFileError),
    /// The mask file is missing or could not be read.
    NoiseUnreadable,
    /// The mask file does not hold a usable image.
    NoiseInvalid(NoiseError),
}

/// What `start` tells its caller.
#[derive(Clone, Copy, Debug, PartialEq, Eq, Structural)]
pub enum StartStep {
    /// A session runs already; nothing changed.
    AlreadyRunning,
    /// A start or a stop is under way; nothing changed.
    Busy,
    /// The start failed; the session stays stopped.
    Failed(StartError),
    /// Load the session's files and call `finish_start`.
    LoadAssets,
}

/// What a worker is started with.
pub struct OverlayState {
    pub spectrum_pair: SpectrumPair,
    pub noise_texture: Option<NoiseTexture>,
    pub hue_mapper: HueMapper,
    pub vsync_enabled: bool,
    pub target_fps: Option<u32>,
    pub monitor_index: usize,
}

/// What `finish_start` tells its caller.
pub enum StartOutcome {
    /// No start was under way; nothing changed.
    NotStarting,
    /// The start failed; the session is stopped again.
    Failed(StartError),
    /// The session runs: spawn the worker with this state.
    Started(OverlayState),
}

/// What `stop` tells its caller.
#[derive(Clone, Copy, Debug, PartialEq, Eq, Structural)]
pub enum StopStep {
    /// No session runs; nothing changed.
    NotRunning,
    /// Signal the worker, join it and call `finish_stop`.
    JoinWorker,
}

/// What `toggle` tells its caller.
#[derive(Clone, Copy, Debug, PartialEq, Eq, Structural)]
pub enum ToggleStep {
    /// A session ran: it is being stopped.
    Stop(StopStep),
    /// No session ran: one is being started.
    Start(StartStep),
}

/// The mathematical value of the manager.
pub struct ManagerView {
    pub state: SessionState,
    pub last_monitor: Option<usize>,
    pub frame_stats: Option<FrameStats>,
}

impl ManagerView {
    /// What holds of every manager: statistics exist only while a session
    /// runs, and a monitor is bound only while a worker exists.
    pub open spec fn consistent(self) -> bool {
        &&& self.frame_stats is Some ==> self.state == SessionState::Running
        &&& self.last_monitor is Some ==> self.state == SessionState::Running || self.state
            == SessionState::Stopping
    }

    /// The manager without a session.
    pub open spec fn idle() -> ManagerView {
        ManagerView { state: SessionState::Stopped, last_monitor: None, frame_stats: None }
    }

    /// Whether a session runs.
    pub open spec fn running(self) -> bool {
        self.state == SessionState::Running
    }

    /// After `start` with settings that do or do not select a spectrum: a
    /// stopped manager with a selection begins to start; any other stays as
    /// it is.
    pub open spec fn begin_start(self, selected: bool) -> ManagerView {
        if self.state == SessionState::Stopped && selected {
            ManagerView { state: SessionState::Starting, ..self }
        } else {
            self
        }
    }

    /// What `start` tells its caller: that a session runs already, that a
    /// start or a stop is under way, that no spectrum is selected, or, from
    /// a stopped manager with a selection, to load the files.
    pub open spec fn start_step(self, selected: bool) -> StartStep {
        match self.state {
            SessionState::Running => StartStep::AlreadyRunning,
            SessionState::Starting => StartStep::Busy,
            SessionState::Stopping => StartStep::Busy,
            SessionState::Stopped => if selected {
                StartStep::LoadAssets
            } else {
                StartStep::Failed(StartError::NoSpectrumSelected)
            },
        }
    }

    /// What `stop` tells its caller: to join the worker of a running
    /// session, and else that none runs.
    pub open spec fn stop_step(self) -> StopStep {
        if self.state == SessionState::Running {
            StopStep::JoinWorker
        } else {
            StopStep::NotRunning
        }
    }

    /// What `toggle` tells its caller: the step of a stop where a session
    /// runs, and else the step of a start.
    pub open spec fn toggle_step(self, selected: bool) -> ToggleStep {
        if self.running() {
            ToggleStep::Stop(self.stop_step())
        } else {
            ToggleStep::Start(self.start_step(selected))
        }
    }

    /// After `toggle`: a running manager is stopping; any other is as after
    /// `start`.
    pub open spec fn toggled(self, selected: bool) -> ManagerView {
        if self.running() {
            self.begin_stop()
        } else {
            self.begin_start(selected)
        }
    }

    /// After `finish_start` with usable or unusable assets: a starting
    /// manager runs on `monitor` or is stopped again; any other stays as it
    /// is.
    pub open spec fn end_start(self, usable: bool, monitor: usize) -> ManagerView {
        if self.state == SessionState::Starting {
            if usable {
                ManagerView {
                    state: SessionState::Running,
                    last_monitor: Some(monitor),
                    frame_stats: None,
                }
            } else {
                Self::idle()
            }
        } else {
            self
        }
    }

    /// After `stop`: a running manager is stopping and shows no statistics
    /// any more; any other stays as it is.
    pub open spec fn begin_stop(self) -> ManagerView {
        if self.state == SessionState::Running {
            ManagerView { state: SessionState::Stopping, frame_stats: None, ..self }
        } else {
            self
        }
    }

    /// After `finish_stop`: a stopping manager is stopped; any other stays
    /// as it is.
    pub open spec fn end_stop(self) -> ManagerView {
        if self.state == SessionState::Stopping {
            Self::idle()
        } else {
            self
        }
    }

    /// After the worker ended by itself: a running manager is stopped; any
    /// other stays as it is.
    pub open spec fn worker_ended(self) -> ManagerView {
        if self.state == SessionState::Running {
            Self::idle()
        } else {
            self
        }
    }

    /// After the worker published statistics: a running manager shows them;
    /// any other stays as it is.
    pub open spec fn publish(self, stats: FrameStats) -> ManagerView {
        if self.state == SessionState::Running {
            ManagerView { frame_stats: Some(stats), ..self }
        } else {
            self
        }
    }
}

/// Why the bytes of a mask file yield no mask, if they yield none: they do
/// not decode.
pub open spec fn noise_fault(bytes: Seq<u8>) -> Option<NoiseError> {
    if png_luma(bytes) is None {
        Some(NoiseError::Decode)
    } else {
        None
    }
}

/// The mask that the bytes of a mask file yield.
pub open spec fn noise_mask(bytes: Seq<u8>) -> MaskView {
    let (width, height, luma) = png_luma(bytes).unwrap();
    mask_of_luma(width, height, luma).unwrap()
}

/// Whether the spectrum file was read and holds valid spectra.
pub open spec fn spectrum_usable(assets: LoadedAssets) -> bool {
    assets.spectrum matches Some(file) && valid_file(file.spectra@)
}

/// Whether a session can start on what was loaded: a valid spectrum file
/// and, where a mask is selected, a mask file that decodes.
pub open spec fn assets_usable(settings: SessionSettings, assets: LoadedAssets) -> bool {
    &&& spectrum_usable(assets)
    &&& settings.noise_texture is Some ==> (assets.noise matches Some(bytes) && noise_fault(bytes@)
        is None)
}

/// Whether `e` is the error that a start on these assets fails with. The
/// spectrum is judged before the mask.
pub open spec fn is_start_fault(settings: SessionSettings, assets: LoadedAssets, e: StartError)
    -> bool {
    match e {
        StartError::NoSpectrumSelected => false,
        StartError::SpectrumUnreadable => assets.spectrum is None,
        StartError::SpectrumInvalid(fault) => assets.spectrum matches Some(file)
            && is_first_file_fault(file.spectra@, fault),
        StartError::NoiseUnreadable => spectrum_usable(assets) && settings.noise_texture is Some
            && assets.noise is None,
        StartError::NoiseInvalid(fault) => spectrum_usable(assets) && settings.noise_texture
            is Some && (assets.noise matches Some(bytes) && noise_fault(bytes@) == Some(fault)),
    }
}

/// Whether `state` is what a worker is started with on these settings and
/// assets: the first two spectra of the file, the mask if one is selected,
/// the strength clamped into the unit interval, the pacing as set, and the
/// last monitor, or the first where none was chosen.
pub open spec fn is_worker_state(
    settings: SessionSettings,
    assets: LoadedAssets,
    state: OverlayState,
) -> bool {
    let spectra = assets.spectrum.unwrap().spectra@;
    &&& state.spectrum_pair.spec_valid()
    &&& state.spectrum_pair.spectrum1 == spectra[0]
    &&& state.spectrum_pair.spectrum2 == if spectra.len() >= 2 {
        Some(spectra[1])
    } else {
        None
    }
    &&& match state.noise_texture {
        Some(mask) => settings.noise_texture is Some && mask@ == noise_mask(
            assets.noise.unwrap()@,
        ) && mask@.wf(),
        None => settings.noise_texture is None,
    }
    &&& state.hue_mapper.strength == clamp_unit(settings.strength as int)
    &&& state.vsync_enabled == settings.vsync_enabled
    &&& state.target_fps == settings.target_fps
    &&& state.monitor_index == settings.last_monitor.unwrap_or(0)
}

/// The session manager.
pub struct OverlayManager {
    state: SessionState,
    last_monitor: Option<usize>,
    frame_stats: Option<FrameStats>,
}

impl View for OverlayManager {
    type V = ManagerView;

    closed spec fn view(&self) -> ManagerView {
        ManagerView {
            state: self.state,
            last_monitor: self.last_monitor,
            frame_stats: self.frame_stats,
        }
    }
}

impl OverlayManager {
    #[verifier::type_invariant]
    spec fn inv(self) -> bool {
        self@.consistent()
    }

    /// A manager without a session.
    pub fn new() -> (manager: Self)
        ensures
            manager@ == ManagerView::idle(),
    {
        OverlayManager { state: SessionState::Stopped, last_monitor: None, frame_stats: None }
    }

    /// The state of the session.
    pub fn state(&self) -> (state: SessionState)
        ensures
            state == self@.state,
            self@.consistent(),
    {
        proof {
            use_type_invariant(self);
        }
        self.state
    }

    /// Whether a session runs.
    pub fn is_running(&self) -> (running: bool)
        ensures
            running == self@.running(),
    {
        match self.state {
            SessionState::Running => true,
            _ => false,
        }
    }

    /// The statistics that the worker published last; `None` whenever no
    /// session runs.
    pub fn get_frame_stats(&self) -> (stats: Option<FrameStats>)
        ensures
            stats == self@.frame_stats,
            !self@.running() ==> stats is None,
    {
        proof {
            use_type_invariant(self);
        }
        self.frame_stats
    }

    /// The monitor that the session is bound to, while a worker exists.
    pub fn last_monitor(&self) -> (monitor: Option<usize>)
        ensures
            monitor == self@.last_monitor,
    {
        self.last_monitor
    }

    /// Asks for a session. While one runs this changes nothing. Without a
    /// selected spectrum the start fails and the manager stays stopped.
    /// Otherwise the manager is starting, and the caller loads the files.
    pub fn start(&mut self, settings: &SessionSettings) -> (step: StartStep)
        ensures
            final(self)@ == old(self)@.begin_start(settings.spectrum_name is Some),
            step == old(self)@.start_step(settings.spectrum_name is Some),
    {
        proof {
            use_type_invariant(&*self);
        }
        match self.state {
            SessionState::Running => StartStep::AlreadyRunning,
            SessionState::Starting => StartStep::Busy,
            SessionState::Stopping => StartStep::Busy,
            SessionState::Stopped => {
                if settings.spectrum_name.is_some() {
                    self.state = SessionState::Starting;
                    StartStep::LoadAssets
                } else {
                    StartStep::Failed(StartError::NoSpectrumSelected)
                }
            },
        }
    }

    /// Judges what the caller loaded. A starting manager runs exactly when
    /// the assets are usable, and then hands out the worker's state; else it
    /// is stopped again and says why. A manager that is not starting stays
    /// as it is.
    pub fn finish_start(&mut self, settings: &SessionSettings, assets: LoadedAssets) -> (outcome:
        StartOutcome)
        ensures
            final(self)@ == old(self)@.end_start(
                assets_usable(*settings, assets),
                settings.last_monitor.unwrap_or(0),
            ),
            match outcome {
                StartOutcome::NotStarting => old(self)@.state != SessionState::Starting,
                StartOutcome::Failed(e) => old(self)@.state == SessionState::Starting
                    && !assets_usable(*settings, assets) && is_start_fault(*settings, assets, e),
                StartOutcome::Started(state) => old(self)@.state == SessionState::Starting
                    && assets_usable(*settings, assets) && is_worker_state(
                    *settings,
                    assets,
                    state,
                ),
            },
    {
        proof {
            use_type_invariant(&*self);
        }
        match self.state {
            SessionState::Starting => {},
            _ => {
                return StartOutcome::NotStarting;
            },
        }
        match Self::resolve(settings, assets) {
            Ok(state) => {
                self.last_monitor = None;
                self.state = SessionState::Running;
                self.last_monitor = Some(state.monitor_index);
                StartOutcome::Started(state)
            },
            Err(e) => {
                self.state = SessionState::Stopped;
                StartOutcome::Failed(e)
            },
        }
    }

    /// Makes the worker's state from the settings and the loaded assets, or
    /// says why they are not usable.
    pub fn resolve(settings: &SessionSettings, assets: LoadedAssets) -> (res: Result<
        OverlayState,
        StartError,
    >)
        ensures
            res is Ok <==> assets_usable(*settings, assets),
            res matches Ok(state) ==> is_worker_state(*settings, assets, state),
            res matches Err(e) ==> is_start_fault(*settings, assets, e),
    {
        let LoadedAssets { spectrum, noise } = assets;
        let file = match spectrum {
            Some(file) => file,
            None => {
                return Err(StartError::SpectrumUnreadable);
            },
        };
        let spectrum_pair = match SpectrumPair::load_from_file(file) {
            Ok(pair) => pair,
            Err(fault) => {
                return Err(StartError::SpectrumInvalid(fault));
            },
        };
        let noise_texture = if settings.noise_texture.is_some() {
            match noise {
                None => {
                    return Err(StartError::NoiseUnreadable);
                },
                Some(bytes) => match NoiseTexture::load_from_file(bytes.as_slice()) {
                    Ok(mask) => Some(mask),
                    Err(fault) => {
                        return Err(StartError::NoiseInvalid(fault));
                    },
                },
            }
        } else {
            None
        };
        Ok(
            OverlayState {
                spectrum_pair,
                noise_texture,
                hue_mapper: HueMapper::new(settings.strength),
                vsync_enabled: settings.vsync_enabled,
                target_fps: settings.target_fps,
                monitor_index: settings.last_monitor.unwrap_or(0),
            },
        )
    }

    /// Asks for the end of the session. A running manager is stopping, shows
    /// no statistics any more, and the caller joins the worker. Any other
    /// manager stays as it is.
    pub fn stop(&mut self) -> (step: StopStep)
        ensures
            final(self)@ == old(self)@.begin_stop(),
            step == old(self)@.stop_step(),
    {
        proof {
            use_type_invariant(&*self);
        }
        match self.state {
            SessionState::Running => {
                self.frame_stats = None;
                self.state = SessionState::Stopping;
                StopStep::JoinWorker
            },
            _ => StopStep::NotRunning,
        }
    }

    /// Closes the session once the worker is joined: a stopping manager is
    /// stopped and gives up its monitor, which is returned.
    pub fn finish_stop(&mut self) -> (monitor: Option<usize>)
        ensures
            final(self)@ == old(self)@.end_stop(),
            monitor == if old(self)@.state == SessionState::Stopping {
                old(self)@.last_monitor
            } else {
                None
            },
    {
        proof {
            use_type_invariant(&*self);
        }
        match self.state {
            SessionState::Stopping => {
                let monitor = self.last_monitor;
                self.last_monitor = None;
                self.state = SessionState::Stopped;
                monitor
            },
            _ => None,
        }
    }

    /// Stops a running session and starts one otherwise. The step that is
    /// returned is the one that `stop` or `start` would have returned.
    pub fn toggle(&mut self, settings: &SessionSettings) -> (step: ToggleStep)
        ensures
            final(self)@ == old(self)@.toggled(settings.spectrum_name is Some),
            step == old(self)@.toggle_step(settings.spectrum_name is Some),
    {
        if self.is_running() {
            ToggleStep::Stop(self.stop())
        } else {
            ToggleStep::Start(self.start(settings))
        }
    }

    /// Records that the worker ended by itself: a running manager is
    /// stopped.
    pub fn worker_exited(&mut self)
        ensures
            final(self)@ == old(self)@.worker_ended(),
    {
        proof {
            use_type_invariant(&*self);
        }
        match self.state {
            SessionState::Running => {
                self.frame_stats = None;
                self.last_monitor = None;
                self.state = SessionState::Stopped;
            },
            _ => {},
        }
    }

    /// Publishes the worker's statistics; they are dropped unless a session
    /// runs.
    pub fn publish_stats(&mut self, stats: FrameStats)
        ensures
            final(self)@ == old(self)@.publish(stats),
    {
        proof {
            use_type_invariant(&*self);
        }
        match self.state {
            SessionState::Running => {
                self.frame_stats = Some(stats);
            },
            _ => {},
        }
    }
}

impl OverlayState {
    /// The pacing of the worker's frame loop.
    pub fn pacing(&self) -> (pacing: FramePacing)
        ensures
            pacing == (FramePacing {
                vsync_enabled: self.vsync_enabled,
                target_fps: self.target_fps,
            }),
    {
        FramePacing { vsync_enabled: self.vsync_enabled, target_fps: self.target_fps }
    }
}

/// Every step of the manager keeps it consistent.
pub proof fn lemma_steps_keep_consistent(
    v: ManagerView,
    selected: bool,
    usable: bool,
    monitor: usize,
    stats: FrameStats,
)
    requires
        v.consistent(),
    ensures
        v.begin_start(selected).consistent(),
        v.end_start(usable, monitor).consistent(),
        v.begin_stop().consistent(),
        v.end_stop().consistent(),
        v.worker_ended().consistent(),
        v.publish(stats).consistent(),
{
}

/// A start whose files are missing or invalid fails and leaves no session
/// running; so does a start without a selected spectrum.
pub proof fn lemma_failed_start_is_not_running(v: ManagerView, selected: bool, monitor: usize)
    requires
        v.state == SessionState::Stopped,
    ensures
        !v.begin_start(false).running(),
        v.begin_start(false) == v,
        !v.begin_start(selected).end_start(false, monitor).running(),
        v.begin_start(true).end_start(false, monitor) == ManagerView::idle(),
{
}

/// A start followed by a stop ends stopped and without statistics, whatever
/// was published in between.
pub proof fn lemma_start_then_stop(v: ManagerView, monitor: usize, stats: FrameStats)
    requires
        v.consistent(),
        v.state == SessionState::Stopped,
    ensures
        v.begin_start(true).end_start(true, monitor).running(),
        v.begin_start(true).end_start(true, monitor).publish(stats).begin_stop().end_stop()
            == ManagerView::idle(),
        v.begin_start(true).end_start(true, monitor).begin_stop().publish(stats).end_stop()
            == ManagerView::idle(),
{
}

/// A toggle stops a running session and starts a stopped one with a
/// selected spectrum: from running it leads to stopping and asks to join
/// the worker, from stopped to starting and asks to load the files.
pub proof fn lemma_toggle(v: ManagerView)
    ensures
        v.running() ==> v.toggled(true).state == SessionState::Stopping && v.toggle_step(true)
            == ToggleStep::Stop(StopStep::JoinWorker),
        v.state == SessionState::Stopped ==> v.toggled(true).state == SessionState::Starting
            && v.toggle_step(true) == ToggleStep::Start(StartStep::LoadAssets),
        v.state == SessionState::Stopped ==> v.toggled(false) == v && v.toggle_step(false)
            == ToggleStep::Start(StartStep::Failed(StartError::NoSpectrumSelected)),
{
}

/// A second start without a stop in between changes nothing, nor does the
/// judgement of assets that it might be followed by.
pub proof fn lemma_second_start_is_noop(
    v: ManagerView,
    selected: bool,
    usable: bool,
    monitor: usize,
)
    requires
        v.running(),
    ensures
        v.begin_start(selected) == v,
        v.begin_start(selected).end_start(usable, monitor) == v,
{
}

} // verus!
