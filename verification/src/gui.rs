//! The state of the control panel: the lighting, sleep timer and clock
//! sections, the connection status, and how the result of an action is
//! shown.

use vstd::prelude::*;
use crate::protocol::{mode_directions, mode_of_value, Direction, LightingMode, SleepTime};
use crate::text::{chars_of, seq_contains, str_contains};

verus! {

/// The lighting section: the chosen mode (an index into `LightingMode::all()`),
/// colour, rainbow flag, brightness, speed and direction (an index into the
/// mode's supported directions).
pub struct LightingState {
    pub mode_index: usize,
    pub color: [u8; 3],
    pub rainbow: bool,
    pub brightness: u8,
    pub speed: u8,
    pub direction_index: usize,
}

/// The lighting section as the panel opens: static red, full brightness,
/// speed 3, first direction.
pub open spec fn is_default_lighting(s: LightingState) -> bool {
    &&& s.mode_index == 1
    &&& s.color@ == seq![255u8, 0u8, 0u8]
    &&& s.rainbow == false
    &&& s.brightness == 5
    &&& s.speed == 3
    &&& s.direction_index == 0
}

impl Default for LightingState {
    fn default() -> (s: Self)
        ensures
            is_default_lighting(s),
    {
        let s = LightingState {
            mode_index: 1,  // Static
            color: [255, 0, 0],
            rainbow: false,
            brightness: 5,
            speed: 3,
            direction_index: 0,
        };
        assert(s.color@ =~= seq![255u8, 0u8, 0u8]);
        s
    }
}

/// The direction that the lighting section sends: left for a mode without
/// directions, else the chosen one, or the mode's last when the index is
/// past the end.
pub open spec fn chosen_direction(mode: LightingMode, direction_index: usize) -> Direction {
    let dirs = mode_directions(mode);
    if dirs.len() == 0 {
        Direction::Left
    } else if direction_index < dirs.len() {
        dirs[direction_index as int]
    } else {
        dirs[dirs.len() - 1]
    }
}

impl LightingState {
    pub fn current_mode(&self) -> (m: LightingMode)
        requires
            self.mode_index < 20,
        ensures
            m == mode_of_value(self.mode_index as u8),
    {
        let all = LightingMode::all();
        all[self.mode_index]
    }

    pub fn current_direction(&self) -> (d: Direction)
        requires
            self.mode_index < 20,
        ensures
            d == chosen_direction(mode_of_value(self.mode_index as u8), self.direction_index),
    {
        let mode = self.current_mode();
        let dirs = mode.supported_directions();
        if dirs.len() == 0 {
            Direction::Left
        } else {
            let i = if self.direction_index < dirs.len() - 1 {
                self.direction_index
            } else {
                dirs.len() - 1
            };
            dirs[i]
        }
    }

    /// The direction choice goes back to the first direction when the chosen
    /// mode has fewer directions than the index (a mode without directions
    /// keeps the index).
    pub fn fit_direction_index(&mut self)
        requires
            old(self).mode_index < 20,
        ensures
            final(self).mode_index == old(self).mode_index,
            final(self).color == old(self).color,
            final(self).rainbow == old(self).rainbow,
            final(self).brightness == old(self).brightness,
            final(self).speed == old(self).speed,
            final(self).direction_index == (if mode_directions(
                mode_of_value(old(self).mode_index as u8),
            ).len() > 0 && old(self).direction_index >= mode_directions(
                mode_of_value(old(self).mode_index as u8),
            ).len() {
                0
            } else {
                old(self).direction_index
            }),
    {
        let dirs = self.current_mode().supported_directions();
        if dirs.len() > 0 && self.direction_index >= dirs.len() {
            self.direction_index = 0;
        }
    }
}

/// The choices of the sleep timer section, in order.
pub open spec fn sleep_options() -> Seq<SleepTime> {
    seq![SleepTime::Never, SleepTime::OneMinute, SleepTime::FiveMinutes, SleepTime::ThirtyMinutes]
}

/// The sleep timer section: the index of the chosen option.
pub struct SleepState {
    pub selected: usize,
}

impl Default for SleepState {
    fn default() -> (s: Self)
        ensures
            s.selected == 0,
    {
        SleepState { selected: 0 }
    }
}

impl SleepState {
    /// The options with their labels.
    pub fn options() -> (v: Vec<(&'static str, SleepTime)>)
        ensures
            v.len() == 4,
            forall|i: int| 0 <= i < 4 ==> #[trigger] v@[i].1 == sleep_options()[i],
            v@[0].0@ == "Never"@,
            v@[1].0@ == "1 minute"@,
            v@[2].0@ == "5 minutes"@,
            v@[3].0@ == "30 minutes"@,
    {
        vec![
            ("Never", SleepTime::Never),
            ("1 minute", SleepTime::OneMinute),
            ("5 minutes", SleepTime::FiveMinutes),
            ("30 minutes", SleepTime::ThirtyMinutes),
        ]
    }

    pub fn current(&self) -> (t: SleepTime)
        requires
            self.selected < 4,
        ensures
            t == sleep_options()[self.selected as int],
    {
        let options = Self::options();
        options[self.selected].1
    }
}

/// The clock section: the message of the last successful sync.
pub struct ClockState {
    pub last_sync: Option<String>,
}

pub enum ConnectionStatus {
    Connected,
    Error(String),
}

/// The control panel.
pub struct Ak820App {
    pub lighting: LightingState,
    pub sleep: SleepState,
    pub clock: ClockState,
    pub status: ConnectionStatus,
    /// The last message shown, with whether it is an error.
    pub status_message: Option<(String, bool)>,
}

/// The status that an action's result gives.
pub open spec fn status_after(result: Result<String, String>) -> ConnectionStatus {
    match result {
        Ok(_) => ConnectionStatus::Connected,
        Err(msg) => ConnectionStatus::Error(msg),
    }
}

/// The message that an action's result shows, with whether it is an error.
pub open spec fn message_after(result: Result<String, String>) -> (String, bool) {
    match result {
        Ok(msg) => (msg, false),
        Err(msg) => (msg, true),
    }
}

impl Ak820App {
    /// The panel at start-up, given the result of probing for the keyboard:
    /// default sections, no sync yet, no message.
    pub fn new(probe: Result<String, String>) -> (app: Self)
        ensures
            app.status == status_after(probe),
            app.status_message is None,
            app.clock.last_sync is None,
            is_default_lighting(app.lighting),
            app.sleep.selected == 0,
    {
        let status = match probe {
            Ok(_) => ConnectionStatus::Connected,
            Err(e) => ConnectionStatus::Error(e),
        };
        Ak820App {
            lighting: LightingState::default(),
            sleep: SleepState::default(),
            clock: ClockState { last_sync: None },
            status,
            status_message: None,
        }
    }

    /// Show the result of an action: a success marks the keyboard connected,
    /// a failure records the error; either way the message is shown.
    pub fn set_status(&mut self, result: Result<String, String>)
        ensures
            final(self).status == status_after(result),
            final(self).status_message == Some(message_after(result)),
            final(self).lighting == old(self).lighting,
            final(self).sleep == old(self).sleep,
            final(self).clock == old(self).clock,
    {
        match result {
            Ok(msg) => {
                self.status = ConnectionStatus::Connected;
                self.status_message = Some((msg, false));
            },
            Err(msg) => {
                self.status = ConnectionStatus::Error(msg.clone());
                self.status_message = Some((msg, true));
            },
        }
    }

    /// Show the result of a clock sync; a successful one is also kept as the
    /// last sync.
    pub fn record_sync(&mut self, result: Result<String, String>)
        ensures
            final(self).status == status_after(result),
            final(self).status_message == Some(message_after(result)),
            final(self).clock.last_sync == (match result {
                Ok(msg) => Some(msg),
                Err(_) => old(self).clock.last_sync,
            }),
            final(self).lighting == old(self).lighting,
            final(self).sleep == old(self).sleep,
    {
        if let Ok(ref msg) = result {
            self.clock.last_sync = Some(msg.clone());
        }
        self.set_status(result);
    }
}

/// The advice shown when opening the keyboard was refused for lack of
/// permission.
pub open spec fn permission_advice() -> Seq<char> {
    "Permission denied. Install udev rule:\nsudo cp 99-ak820.rules /etc/udev/rules.d/\nsudo udevadm control --reload-rules && sudo udevadm trigger\nThen replug the keyboard."@
}

/// The text shown for an error of opening the keyboard: the permission
/// advice when the error says access was denied, else the error itself.
pub open spec fn usb_error_text(msg: Seq<char>) -> Seq<char> {
    if seq_contains(msg, "Access denied"@) || seq_contains(msg, "Permission denied"@)
        || seq_contains(msg, "LIBUSB_ERROR_ACCESS"@) {
        permission_advice()
    } else {
        msg
    }
}

/// The text shown for an error of opening the keyboard (`msg` is the
/// error with its causes).
pub fn format_usb_error(msg: String) -> (r: String)
    ensures
        r@ == usb_error_text(msg@),
{
    let s = chars_of(msg.as_str());
    if str_contains(&s, "Access denied") || str_contains(&s, "Permission denied") || str_contains(
        &s,
        "LIBUSB_ERROR_ACCESS",
    ) {
        "Permission denied. Install udev rule:\nsudo cp 99-ak820.rules /etc/udev/rules.d/\nsudo udevadm control --reload-rules && sudo udevadm trigger\nThen replug the keyboard.".to_owned()
    } else {
        msg
    }
}

} // verus!
