//! The settings of the viewer.
use vstd::prelude::*;

verus! {

/// The speed of the scroll wheel, in percent, when nothing is set.
pub const DEFAULT_WHEEL_SCROLL_SPEED_PERCENT: u16 = 100;

/// The slowest scroll wheel, in percent.
pub const MIN_WHEEL_SCROLL_SPEED_PERCENT: u16 = 25;

/// The fastest scroll wheel, in percent.
pub const MAX_WHEEL_SCROLL_SPEED_PERCENT: u16 = 300;

/// What a user can set.
#[derive(Clone, Copy, Debug, PartialEq, Eq, Structural)]
pub struct AppSettings {
    /// The speed of the scroll wheel, in percent.
    pub wheel_scroll_speed: u16,
}

/// Why settings are refused.
#[derive(Clone, Copy, Debug, PartialEq, Eq, Structural)]
pub enum SettingsError {
    WheelScrollSpeed,
}

impl SettingsError {
    /// What is said of the refusal.
    pub fn message(&self) -> (res: &'static str)
        ensures
            res@ == "wheel scroll speed must be between 25% and 300%"@,
    {
        "wheel scroll speed must be between 25% and 300%"
    }
}

/// The speed that stands for a missing one.
pub fn default_wheel_scroll_speed_percent() -> (res: u16)
    ensures
        res == DEFAULT_WHEEL_SCROLL_SPEED_PERCENT,
{
    DEFAULT_WHEEL_SCROLL_SPEED_PERCENT
}

impl Default for AppSettings {
    fn default() -> (res: Self)
        ensures
            res.wheel_scroll_speed == DEFAULT_WHEEL_SCROLL_SPEED_PERCENT,
            res.wf(),
    {
        AppSettings { wheel_scroll_speed: DEFAULT_WHEEL_SCROLL_SPEED_PERCENT }
    }
}

impl AppSettings {
    /// Every setting is within its bounds.
    pub open spec fn wf(self) -> bool {
        MIN_WHEEL_SCROLL_SPEED_PERCENT <= self.wheel_scroll_speed
            <= MAX_WHEEL_SCROLL_SPEED_PERCENT
    }

    /// Refuses settings that are out of bounds.
    pub fn validate(&self) -> (res: Result<(), SettingsError>)
        ensures
            res == if self.wf() {
                Ok::<(), SettingsError>(())
            } else {
                Err(SettingsError::WheelScrollSpeed)
            },
    {
        if self.wheel_scroll_speed < MIN_WHEEL_SCROLL_SPEED_PERCENT || self.wheel_scroll_speed
            > MAX_WHEEL_SCROLL_SPEED_PERCENT {
            Err(SettingsError::WheelScrollSpeed)
        } else {
            Ok(())
        }
    }
}

/// The wheel scrolls at a quarter of the usual speed to three times that speed, and at the usual
/// speed by default.
pub proof fn wheel_speeds_are_bounded(settings: AppSettings)
    ensures
        settings.wf() == (25 <= settings.wheel_scroll_speed <= 300),
        DEFAULT_WHEEL_SCROLL_SPEED_PERCENT == 100,
{
}

} // verus!
