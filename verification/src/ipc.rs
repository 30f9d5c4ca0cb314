//! Messages between the cooperating processes, their framing on the pipe,
//! and what the tray service keeps of them.
//!
//! A message travels as a frame: its length in four bytes, least significant
//! first, then its payload.

use vstd::prelude::*;

verus! {

/// The largest payload of a frame, in bytes.
pub const MAX_MESSAGE_SIZE: usize = 65536;

/// Bytes of the length that precedes a payload.
pub const HEADER_SIZE: usize = 4;

/// What the settings window asks the overlay process to run with.
#[derive(Clone, Debug)]
pub struct OverlayConfig {
    pub monitor_index: usize,
    pub spectrum_file: String,
    pub noise_file: Option<String>,
    /// Blend strength in millionths.
    pub strength: i64,
}

/// Commands from the settings window to the overlay process.
#[derive(Clone, Debug)]
pub enum IpcCommand {
    Start(OverlayConfig),
    Stop,
    UpdateConfig(OverlayConfig),
}

/// What the overlay process reports: frames per second in thousandths, the
/// render time of a frame in microseconds, and whether it runs.
#[derive(Clone, Copy, Debug, PartialEq, Eq, Structural)]
pub struct OverlayStatus {
    pub fps_milli: u64,
    pub frame_time_us: u64,
    pub running: bool,
}

/// Messages from the settings window to the tray service.
#[derive(Clone, Debug)]
pub enum GuiMessage {
    /// The window is ready and connected.
    Ready,
    /// The overlay started with this spectrum.
    OverlayStarted { spectrum: String },
    /// The overlay stopped.
    OverlayStopped,
    /// A periodic report.
    StatusUpdate { spectrum: Option<String>, overlay_running: bool },
    /// The window closes; the tray stays.
    Closing,
    /// Everything shall end.
    ExitAll,
}

/// Messages from the tray service to the settings window.
#[derive(Clone, Copy, Debug, PartialEq, Eq, Structural)]
pub enum TrayMessage {
    /// Show the window.
    ShowWindow,
    /// Start the overlay.
    StartOverlay,
    /// Stop the overlay.
    StopOverlay,
    /// End the process.
    Exit,
}

/// Why a frame is refused.
#[derive(Clone, Copy, Debug, PartialEq, Eq, Structural)]
pub enum FrameError {
    /// The peer closed the connection: nothing was read.
    ConnectionClosed,
    /// The header is not four bytes long.
    BadHeader,
    /// The payload is longer than `MAX_MESSAGE_SIZE`.
    MessageTooLarge { len: usize },
}

/// The number that four bytes spell, least significant first.
pub open spec fn le_value(header: Seq<u8>) -> int {
    header[0] + 256 * header[1] + 65536 * header[2] + 16777216 * header[3]
}

/// The four bytes that spell `len`, least significant first.
pub open spec fn le_bytes(len: int) -> Seq<u8> {
    seq![
        (len % 256) as u8,
        ((len / 256) % 256) as u8,
        ((len / 65536) % 256) as u8,
        ((len / 16777216) % 256) as u8,
    ]
}

/// The frame of a payload.
pub open spec fn frame_of(payload: Seq<u8>) -> Seq<u8> {
    le_bytes(payload.len() as int) + payload
}

/// The bytes of a length spell that length.
pub proof fn lemma_le_round_trip(len: int)
    requires
        0 <= len < 0x1_0000_0000,
    ensures
        le_bytes(len).len() == 4,
        le_value(le_bytes(len)) == len,
{
}

/// Reads the length from the header of a frame. `read` is the number of
/// bytes that the pipe delivered for the header; none means that the peer
/// is gone. A length beyond `MAX_MESSAGE_SIZE` is refused.
pub fn read_length(header: &[u8], read: usize) -> (res: Result<usize, FrameError>)
    ensures
        res == if read == 0 {
            Err::<usize, FrameError>(FrameError::ConnectionClosed)
        } else if header@.len() != HEADER_SIZE {
            Err(FrameError::BadHeader)
        } else if le_value(header@) > MAX_MESSAGE_SIZE {
            Err(FrameError::MessageTooLarge { len: le_value(header@) as usize })
        } else {
            Ok(le_value(header@) as usize)
        },
{
    if read == 0 {
        return Err(FrameError::ConnectionClosed);
    }
    if header.len() != HEADER_SIZE {
        return Err(FrameError::BadHeader);
    }
    let len: u64 = header[0] as u64 + 256 * (header[1] as u64) + 65536 * (header[2] as u64)
        + 16777216 * (header[3] as u64);
    if len > MAX_MESSAGE_SIZE as u64 {
        Err(FrameError::MessageTooLarge { len: len as usize })
    } else {
        Ok(len as usize)
    }
}

/// Frames a payload for the pipe: its length, then the payload itself. A
/// payload beyond `MAX_MESSAGE_SIZE` is refused.
pub fn frame_message(payload: &[u8]) -> (res: Result<Vec<u8>, FrameError>)
    ensures
        res is Ok <==> payload@.len() <= MAX_MESSAGE_SIZE,
        res matches Err(e) ==> e == (FrameError::MessageTooLarge { len: payload@.len() as usize }),
        res matches Ok(frame) ==> frame@ == frame_of(payload@),
{
    let n: usize = payload.len();
    if n > MAX_MESSAGE_SIZE {
        return Err(FrameError::MessageTooLarge { len: n });
    }
    let mut frame: Vec<u8> = Vec::new();
    frame.push((n % 256) as u8);
    frame.push(((n / 256) % 256) as u8);
    frame.push(((n / 65536) % 256) as u8);
    frame.push(((n / 16777216) % 256) as u8);
    let mut i: usize = 0;
    while i < n
        invariant
            i <= n,
            n == payload@.len(),
            frame@.len() == 4 + i,
            frame@.subrange(0, 4) == le_bytes(n as int),
            forall|j: int| 0 <= j < i ==> frame@[4 + j] == payload@[j],
        decreases n - i,
    {
        let ghost before = frame@;
        frame.push(payload[i]);
        proof {
            assert(frame@.subrange(0, 4) =~= before.subrange(0, 4));
        }
        i = i + 1;
    }
    proof {
        assert(frame@ =~= frame_of(payload@));
    }
    Ok(frame)
}

/// The tooltip of the tray icon: the application's title, then whether the
/// overlay is active and with which spectrum.
pub open spec fn tooltip_text(title: Seq<char>, overlay_running: bool, spectrum: Option<Seq<char>>)
    -> Seq<char> {
    if overlay_running {
        match spectrum {
            Some(name) => title + "\nOverlay: "@ + name + " (Active)"@,
            None => title + "\nOverlay: Active"@,
        }
    } else {
        title + "\nOverlay: Inactive"@
    }
}

/// Builds the tooltip of the tray icon.
pub fn tooltip(title: &str, overlay_running: bool, spectrum: Option<&str>) -> (text: String)
    ensures
        text@ == tooltip_text(
            title@,
            overlay_running,
            match spectrum {
                Some(name) => Some(name@),
                None => None,
            },
        ),
{
    let mut text = String::from_str(title);
    if overlay_running {
        match spectrum {
            Some(name) => {
                text.append("\nOverlay: ");
                text.append(name);
                text.append(" (Active)");
            },
            None => {
                text.append("\nOverlay: Active");
            },
        }
    } else {
        text.append("\nOverlay: Inactive");
    }
    text
}

/// The text shortened to at most `max_chars` characters: itself where it is
/// that short, else its first `max_chars - 1` characters and an ellipsis.
pub open spec fn truncated(text: Seq<char>, max_chars: int) -> Seq<char> {
    if text.len() <= max_chars {
        text
    } else if max_chars >= 1 {
        text.subrange(0, max_chars - 1) + "\u{2026}"@
    } else {
        "\u{2026}"@
    }
}

/// Shortens a text for display to at most `max_chars` characters, the last
/// of which is then an ellipsis.
pub fn truncate_with_ellipsis(text: &str, max_chars: usize) -> (short: String)
    ensures
        short@ == truncated(text@, max_chars as int),
{
    let n: usize = text.unicode_len();
    if n <= max_chars {
        String::from_str(text)
    } else {
        let keep: usize = if max_chars >= 1 {
            max_chars - 1
        } else {
            0
        };
        let mut short = String::from_str(text.substring_char(0, keep));
        short.append("\u{2026}");
        proof {
            if max_chars == 0 {
                assert(text@.subrange(0, 0) + "\u{2026}"@ =~= "\u{2026}"@);
            }
        }
        short
    }
}

/// What the tray service knows: whether the settings window lives, whether
/// the overlay runs, and with which spectrum.
#[derive(Clone, Debug)]
pub struct TrayState {
    pub gui_running: bool,
    pub overlay_running: bool,
    pub current_spectrum: Option<String>,
}

/// What the tray service does on a message: whether it exits, and what it
/// records as the overlay's state in the settings, if anything.
#[derive(Clone, Copy, Debug, PartialEq, Eq, Structural)]
pub struct TrayReaction {
    pub exit: bool,
    pub overlay_enabled: Option<bool>,
}

/// What the tray service does on `message`. Only the order to end
/// everything makes it exit; only the start and the stop of the overlay are
/// recorded in the settings.
pub open spec fn reaction_to(message: GuiMessage) -> TrayReaction {
    match message {
        GuiMessage::OverlayStarted { .. } => TrayReaction {
            exit: false,
            overlay_enabled: Some(true),
        },
        GuiMessage::OverlayStopped => TrayReaction { exit: false, overlay_enabled: Some(false) },
        GuiMessage::ExitAll => TrayReaction { exit: true, overlay_enabled: None },
        _ => TrayReaction { exit: false, overlay_enabled: None },
    }
}

impl TrayState {
    /// The state after `message`.
    pub open spec fn after_message(self, message: GuiMessage) -> TrayState {
        match message {
            GuiMessage::Ready => self,
            GuiMessage::OverlayStarted { spectrum } => TrayState {
                overlay_running: true,
                current_spectrum: Some(spectrum),
                ..self
            },
            GuiMessage::OverlayStopped => TrayState { overlay_running: false, ..self },
            GuiMessage::StatusUpdate { spectrum, overlay_running } => TrayState {
                overlay_running,
                current_spectrum: spectrum,
                ..self
            },
            GuiMessage::Closing => TrayState { gui_running: false, ..self },
            GuiMessage::ExitAll => TrayState { gui_running: false, overlay_running: false, ..self },
        }
    }

    /// The state of a tray service that has just begun.
    pub fn new() -> (state: Self)
        ensures
            !state.gui_running,
            !state.overlay_running,
            state.current_spectrum is None,
    {
        TrayState { gui_running: false, overlay_running: false, current_spectrum: None }
    }

    /// Takes a message of the settings window into the state and says what
    /// the service does on it.
    pub fn handle_gui_message(&mut self, message: GuiMessage) -> (reaction: TrayReaction)
        ensures
            *final(self) == old(self).after_message(message),
            reaction == reaction_to(message),
    {
        match message {
            GuiMessage::Ready => TrayReaction { exit: false, overlay_enabled: None },
            GuiMessage::OverlayStarted { spectrum } => {
                self.overlay_running = true;
                self.current_spectrum = Some(spectrum);
                TrayReaction { exit: false, overlay_enabled: Some(true) }
            },
            GuiMessage::OverlayStopped => {
                self.overlay_running = false;
                TrayReaction { exit: false, overlay_enabled: Some(false) }
            },
            GuiMessage::StatusUpdate { spectrum, overlay_running } => {
                self.overlay_running = overlay_running;
                self.current_spectrum = spectrum;
                TrayReaction { exit: false, overlay_enabled: None }
            },
            GuiMessage::Closing => {
                self.gui_running = false;
                TrayReaction { exit: false, overlay_enabled: None }
            },
            GuiMessage::ExitAll => {
                self.gui_running = false;
                self.overlay_running = false;
                TrayReaction { exit: true, overlay_enabled: None }
            },
        }
    }

    /// Flips the overlay from the tray menu: the state records the new
    /// wish, and the message for the settings window is returned.
    pub fn toggle_overlay(&mut self) -> (message: TrayMessage)
        ensures
            final(self).overlay_running == !old(self).overlay_running,
            final(self).gui_running == old(self).gui_running,
            final(self).current_spectrum == old(self).current_spectrum,
            message == if old(self).overlay_running {
                TrayMessage::StopOverlay
            } else {
                TrayMessage::StartOverlay
            },
    {
        let start = !self.overlay_running;
        self.overlay_running = start;
        if start {
            TrayMessage::StartOverlay
        } else {
            TrayMessage::StopOverlay
        }
    }

    /// The tooltip of the tray icon.
    pub fn get_tooltip(&self) -> (text: String)
        ensures
            text@ == tooltip_text(
                "Color Interlacer"@,
                self.overlay_running,
                match self.current_spectrum {
                    Some(name) => Some(name@),
                    None => None,
                },
            ),
    {
        match &self.current_spectrum {
            Some(name) => tooltip("Color Interlacer", self.overlay_running, Some(name.as_str())),
            None => tooltip("Color Interlacer", self.overlay_running, None),
        }
    }
}

} // verus!
