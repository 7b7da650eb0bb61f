//! Event and state-segment records: raw event kinds, aggregated activity
//! segments, and the activity level derived from input density.
//! Timestamps are Unix epoch seconds, handed in by the shell.
use vstd::prelude::*;
use crate::ext::new_uuid;

verus! {

/// The kind of one raw event.
#[derive(Clone, Copy, PartialEq, Eq, Structural, Debug)]
pub enum EventType {
    AppFocus,
    Keyboard,
    Mouse,
    Idle,
}

impl EventType {
    /// The kind's wire name.
    pub fn name(&self) -> (r: &'static str)
        ensures
            *self is AppFocus ==> r@ == "app_focus"@,
            *self is Keyboard ==> r@ == "keyboard"@,
            *self is Mouse ==> r@ == "mouse"@,
            *self is Idle ==> r@ == "idle"@,
    {
        match self {
            EventType::AppFocus => "app_focus",
            EventType::Keyboard => "keyboard",
            EventType::Mouse => "mouse",
            EventType::Idle => "idle",
        }
    }
}

/// Intensity of activity within a segment.
#[derive(Clone, Copy, PartialEq, Eq, Structural, Debug)]
pub enum ActivityLevel {
    High,
    Medium,
    Low,
    Idle,
}

/// Input tallies of a segment.
#[derive(Clone, Copy, PartialEq, Eq, Structural, Debug)]
pub struct InputDensity {
    pub keyboard: u32,
    pub mouse: u32,
}

/// The activity level for a given input density per minute.
pub open spec fn level_of(density: int) -> ActivityLevel {
    if density >= 50 {
        ActivityLevel::High
    } else if density >= 20 {
        ActivityLevel::Medium
    } else if density >= 1 {
        ActivityLevel::Low
    } else {
        ActivityLevel::Idle
    }
}

/// Saturating sum of two tallies.
pub open spec fn sat_add_u32(a: u32, b: u32) -> u32 {
    if a + b <= u32::MAX {
        (a + b) as u32
    } else {
        u32::MAX
    }
}

/// A contiguous span of activity in one application window.
pub struct StateSegment {
    pub id: Vec<u8>,
    pub start_time: i64,
    pub end_time: i64,
    pub app: Vec<u8>,
    pub window_title: Vec<u8>,
    pub duration_min: u32,
    pub activity_level: ActivityLevel,
    pub input_density: InputDensity,
    pub screenshot_path: Option<Vec<u8>>,
}

impl StateSegment {
    /// Open a fresh segment at `start_time`.
    pub fn new(app: Vec<u8>, window_title: Vec<u8>, start_time: i64) -> (r: StateSegment)
        ensures
            r.id@.len() == 36,
            r.start_time == start_time,
            r.end_time == start_time,
            r.app@ == app@,
            r.window_title@ == window_title@,
            r.duration_min == 0,
            r.activity_level is Low,
            r.input_density.keyboard == 0,
            r.input_density.mouse == 0,
            r.screenshot_path is None,
    {
        StateSegment {
            id: new_uuid(),
            start_time,
            end_time: start_time,
            app,
            window_title,
            duration_min: 0,
            activity_level: ActivityLevel::Low,
            input_density: InputDensity { keyboard: 0, mouse: 0 },
            screenshot_path: None,
        }
    }

    /// Move the end of the segment and recompute its duration in whole
    /// minutes (clamped to zero going backwards, saturated at the type's
    /// bound).
    pub fn update_end_time(&mut self, end_time: i64)
        ensures
            final(self).end_time == end_time,
            final(self).duration_min == (if end_time >= old(self).start_time {
                if (end_time - old(self).start_time) / 60 <= u32::MAX {
                    (end_time - old(self).start_time) / 60
                } else {
                    u32::MAX as int
                }
            } else {
                0
            }),
            final(self).start_time == old(self).start_time,
            final(self).input_density == old(self).input_density,
            final(self).activity_level == old(self).activity_level,
            final(self).app@ == old(self).app@,
            final(self).window_title@ == old(self).window_title@,
            final(self).id@ == old(self).id@,
            final(self).screenshot_path == old(self).screenshot_path,
    {
        self.end_time = end_time;
        if end_time >= self.start_time {
            let mins: i128 = ((end_time as i128) - (self.start_time as i128)) / 60;
            if mins <= u32::MAX as i128 {
                self.duration_min = mins as u32;
            } else {
                self.duration_min = u32::MAX;
            }
        } else {
            self.duration_min = 0;
        }
    }

    /// Add input tallies (saturating) and refresh the activity level
    /// from the density per minute.
    pub fn add_input(&mut self, keyboard: u32, mouse: u32)
        ensures
            final(self).input_density.keyboard == sat_add_u32(
                old(self).input_density.keyboard,
                keyboard,
            ),
            final(self).input_density.mouse == sat_add_u32(old(self).input_density.mouse, mouse),
            final(self).activity_level == level_of(
                sat_add_u32(final(self).input_density.keyboard, final(self).input_density.mouse)
                    as int / (if old(self).duration_min >= 1 {
                    old(self).duration_min as int
                } else {
                    1
                }),
            ),
            final(self).duration_min == old(self).duration_min,
            final(self).start_time == old(self).start_time,
            final(self).end_time == old(self).end_time,
            final(self).app@ == old(self).app@,
            final(self).window_title@ == old(self).window_title@,
            final(self).id@ == old(self).id@,
            final(self).screenshot_path == old(self).screenshot_path,
    {
        self.input_density.keyboard = sat_add_exec(self.input_density.keyboard, keyboard);
        self.input_density.mouse = sat_add_exec(self.input_density.mouse, mouse);
        let total = sat_add_exec(self.input_density.keyboard, self.input_density.mouse);
        let duration = if self.duration_min >= 1 {
            self.duration_min
        } else {
            1
        };
        let density = total / duration;
        self.activity_level = if density >= 50 {
            ActivityLevel::High
        } else if density >= 20 {
            ActivityLevel::Medium
        } else if density >= 1 {
            ActivityLevel::Low
        } else {
            ActivityLevel::Idle
        };
    }

    /// Attach the path of a capture taken during the segment.
    pub fn set_screenshot(&mut self, path: Vec<u8>)
        ensures
            (final(self).screenshot_path matches Some(p) && p@ == path@),
            final(self).input_density == old(self).input_density,
            final(self).activity_level == old(self).activity_level,
            final(self).duration_min == old(self).duration_min,
            final(self).start_time == old(self).start_time,
            final(self).end_time == old(self).end_time,
            final(self).app@ == old(self).app@,
            final(self).window_title@ == old(self).window_title@,
            final(self).id@ == old(self).id@,
    {
        self.screenshot_path = Some(path);
    }
}

fn sat_add_exec(a: u32, b: u32) -> (r: u32)
    ensures
        r == sat_add_u32(a, b),
{
    if a <= u32::MAX - b {
        a + b
    } else {
        u32::MAX
    }
}

} // verus!
