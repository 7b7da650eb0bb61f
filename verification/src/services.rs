//! Services around the tracked data: screenshot file naming and capture
//! decisions, storage paths, window records, and the input-activity state.
//! The OS calls themselves (capture, window queries, global hooks, file
//! I/O) live in the unverified shell, which drives these records.
use vstd::prelude::*;
use crate::config::{AppConfig, path_join, join_path};
use crate::ext::clock_key;
use crate::client::slice_owned;
use crate::sse::append_bytes;

verus! {

/// A byte of a screenshot file name: ASCII letters, digits, dashes and
/// underscores pass; every other byte is replaced.
pub open spec fn sanitize_byte(b: u8) -> u8 {
    if (48 <= b <= 57) || (65 <= b <= 90) || (97 <= b <= 122) || b == 45 || b == 95 {
        b
    } else {
        95
    }
}

/// An application name sanitized for use in a file name, capped at 30
/// bytes.
pub open spec fn sanitized_name(s: Seq<u8>) -> Seq<u8> {
    s.take(if s.len() <= 30 {
        s.len() as int
    } else {
        30
    }).map_values(|b: u8| sanitize_byte(b))
}

/// The bytes of `.jpg`.
pub open spec fn jpg_ext() -> Seq<u8> {
    seq![46u8, 106u8, 112u8, 103u8]
}

/// The screenshot service: it knows the directory captures are stored in
/// and names the files; the shell performs the capture.
pub struct ScreenshotService {
    pub screenshots_dir: Vec<u8>,
}

impl ScreenshotService {
    pub fn new(screenshots_dir: Vec<u8>) -> (r: ScreenshotService)
        ensures
            r.screenshots_dir@ == screenshots_dir@,
    {
        ScreenshotService { screenshots_dir }
    }

    /// The path of a fresh capture: the directory, a clock stamp, and the
    /// sanitized application name.
    pub fn generate_filename(&self, app_name: &[u8]) -> (r: Vec<u8>)
        ensures
            exists|t: Seq<u8>|
                r@ == path_join(
                    self.screenshots_dir@,
                    #[trigger] (t + seq![95u8] + sanitized_name(app_name@) + jpg_ext()),
                ) && t.len() >= 8,
    {
        let stamp = clock_key();
        let mut name = stamp;
        name.push(95);
        let take = if app_name.len() <= 30 {
            app_name.len()
        } else {
            30
        };
        let mut i: usize = 0;
        let ghost name0 = name@;
        while i < take
            invariant
                i <= take,
                take == (if app_name@.len() <= 30 {
                    app_name@.len() as int
                } else {
                    30
                }),
                name@.len() == name0.len() + i,
                name@.subrange(0, name0.len() as int) == name0,
                forall|j: int|
                    0 <= j < i ==> name@[name0.len() + j] == sanitize_byte(app_name@[j]),
            decreases take - i,
        {
            let b = app_name[i];
            if (48 <= b && b <= 57) || (65 <= b && b <= 90) || (97 <= b && b <= 122) || b == 45
                || b == 95 {
                name.push(b);
            } else {
                name.push(95);
            }
            proof {
                assert(name@.subrange(0, name0.len() as int) =~= name0);
            }
            i = i + 1;
        }
        let ghost mid = name@;
        name.push(46);
        name.push(106);
        name.push(112);
        name.push(103);
        proof {
            let t = name0.subrange(0, name0.len() - 1);
            assert(mid =~= name0 + sanitized_name(app_name@));
            assert(name0 =~= t + seq![95u8]);
            assert(name@ =~= mid + jpg_ext());
            assert(name@ =~= t + seq![95u8] + sanitized_name(app_name@) + jpg_ext());
        }
        join_path(self.screenshots_dir.as_slice(), name.as_slice())
    }
}

/// A window's position and size.
#[derive(Clone, Copy, PartialEq, Eq, Structural, Debug)]
pub struct WindowRect {
    pub x: i32,
    pub y: i32,
    pub width: u32,
    pub height: u32,
}

/// Build a rectangle from window bounds, clamping inverted bounds to an
/// empty extent.
pub fn rect_from_bounds(left: i32, top: i32, right: i32, bottom: i32) -> (r: WindowRect)
    ensures
        r.x == left,
        r.y == top,
        r.width == (if right >= left {
            right - left
        } else {
            0
        }),
        r.height == (if bottom >= top {
            bottom - top
        } else {
            0
        }),
{
    let w: i64 = (right as i64) - (left as i64);
    let h: i64 = (bottom as i64) - (top as i64);
    WindowRect {
        x: left,
        y: top,
        width: if w >= 0 {
            w as u32
        } else {
            0
        },
        height: if h >= 0 {
            h as u32
        } else {
            0
        },
    }
}

/// How a manual screenshot is taken: the focused window's area when the
/// window mode is on and the window has extent, else the full screen.
#[derive(Clone, Copy, PartialEq, Eq, Structural, Debug)]
pub enum CaptureChoice {
    Area(WindowRect),
    FullScreen,
}

/// Decide the capture mode for one screenshot.
pub fn choose_capture(app_window_mode: bool, rect: Option<WindowRect>) -> (r: CaptureChoice)
    ensures
        r == (match rect {
            Some(rc) => {
                if app_window_mode && rc.width > 0 && rc.height > 0 {
                    CaptureChoice::Area(rc)
                } else {
                    CaptureChoice::FullScreen
                }
            },
            None => CaptureChoice::FullScreen,
        }),
{
    match rect {
        Some(rc) => {
            if app_window_mode && rc.width > 0 && rc.height > 0 {
                CaptureChoice::Area(rc)
            } else {
                CaptureChoice::FullScreen
            }
        },
        None => CaptureChoice::FullScreen,
    }
}

/// The outcome of one screenshot request.
pub struct ScreenshotResponse {
    pub success: bool,
    pub filepath: Option<Vec<u8>>,
    pub error: Option<Vec<u8>>,
}

impl ScreenshotResponse {
    pub fn ok(filepath: Vec<u8>) -> (r: ScreenshotResponse)
        ensures
            r.success,
            (r.filepath matches Some(p) && p@ == filepath@),
            r.error is None,
    {
        ScreenshotResponse { success: true, filepath: Some(filepath), error: None }
    }

    pub fn failed(error: Vec<u8>) -> (r: ScreenshotResponse)
        ensures
            !r.success,
            r.filepath is None,
            (r.error matches Some(e) && e@ == error@),
    {
        ScreenshotResponse { success: false, filepath: None, error: Some(error) }
    }
}

/// The storage service: it owns the configuration and derives every path
/// the shell reads or writes.
pub struct StorageService {
    pub config: AppConfig,
}

impl StorageService {
    pub fn new(config: AppConfig) -> (r: StorageService)
        ensures
            r.config == config,
    {
        StorageService { config }
    }

    /// The root data directory.
    pub fn get_data_dir(&self) -> (r: Vec<u8>)
        ensures
            r@ == self.config.data_dir@,
    {
        slice_owned(self.config.data_dir.as_slice())
    }

    /// The directories today's storage needs: the day directory and its
    /// screenshot directory, for the shell to create.
    pub fn init_today(&self) -> (r: (Vec<u8>, Vec<u8>))
        ensures
            exists|d: Seq<u8>|
                r.0@ == #[trigger] path_join(self.config.data_dir@, d) && d.len() >= 10,
            exists|d: Seq<u8>|
                r.1@ == path_join(
                    #[trigger] path_join(self.config.data_dir@, d),
                    crate::config::screenshots_name(),
                ) && d.len() >= 10,
    {
        (self.config.get_today_dir(), self.config.get_screenshots_dir())
    }
}

/// A record of the active window.
pub struct WindowInfo {
    pub app_name: Vec<u8>,
    pub window_title: Vec<u8>,
    pub process_id: u32,
    pub exe_path: Vec<u8>,
}

/// The active-window record handed to the presentation layer.
pub struct ActiveWindowInfo {
    pub app_name: Vec<u8>,
    pub window_title: Vec<u8>,
    pub exe_path: Vec<u8>,
}

impl ActiveWindowInfo {
    /// The presentation record drops the process id.
    pub fn of_window(info: WindowInfo) -> (r: ActiveWindowInfo)
        ensures
            r.app_name@ == info.app_name@,
            r.window_title@ == info.window_title@,
            r.exe_path@ == info.exe_path@,
    {
        ActiveWindowInfo {
            app_name: info.app_name,
            window_title: info.window_title,
            exe_path: info.exe_path,
        }
    }
}

/// Index just past the last path separator (either direction).
pub open spec fn after_last_sep(s: Seq<u8>, j: int) -> int
    decreases j,
{
    if 0 < j <= s.len() {
        if s[j - 1] == 47 || s[j - 1] == 92 {
            j
        } else {
            after_last_sep(s, j - 1)
        }
    } else {
        0
    }
}

/// Index of the last dot strictly after `start`, scanning down from `j`,
/// provided it leaves a non-empty stem; the length when there is none.
pub open spec fn last_dot_after(s: Seq<u8>, j: int, start: int) -> int
    decreases j,
{
    if 0 <= start && start + 1 < j && j <= s.len() {
        if s[j - 1] == 46 {
            j - 1
        } else {
            last_dot_after(s, j - 1, start)
        }
    } else {
        s.len() as int
    }
}

/// Index of the stem's end within the last component starting at `start`.
pub open spec fn stem_end(s: Seq<u8>, start: int) -> int {
    last_dot_after(s, s.len() as int, start)
}

fn after_last_sep_exec(path: &[u8], j: usize) -> (r: usize)
    requires
        j <= path@.len(),
    ensures
        r == after_last_sep(path@, j as int),
        r <= j,
    decreases j,
{
    if 0 < j {
        if path[j - 1] == 47 || path[j - 1] == 92 {
            j
        } else {
            after_last_sep_exec(path, j - 1)
        }
    } else {
        0
    }
}

fn last_dot_exec(path: &[u8], j: usize, start: usize) -> (r: usize)
    requires
        j <= path@.len(),
        start <= path@.len(),
    ensures
        r == last_dot_after(path@, j as int, start as int),
        start <= r <= path@.len(),
    decreases j,
{
    if start < j && j - start > 1 {
        if path[j - 1] == 46 {
            j - 1
        } else {
            last_dot_exec(path, j - 1, start)
        }
    } else {
        path.len()
    }
}

/// The file stem of an executable path: the last component without its
/// final extension, as the application's name.
pub fn app_name_from_path(path: &[u8]) -> (r: Vec<u8>)
    ensures
        r@ == path@.subrange(
            after_last_sep(path@, path@.len() as int),
            stem_end(path@, after_last_sep(path@, path@.len() as int)),
        ),
{
    let start = after_last_sep_exec(path, path.len());
    let endpos = last_dot_exec(path, path.len(), start);
    let r = vstd::slice::slice_to_vec(vstd::slice::slice_subrange(path, start, endpos));
    proof {
        assert(r@ =~= path@.subrange(start as int, endpos as int));
    }
    r
}

/// The window-tracking service; the shell performs the platform queries
/// and hands the fields in.
pub struct WindowTracker {
}

impl WindowTracker {
    pub fn new() -> (r: WindowTracker) {
        WindowTracker {  }
    }
}

/// The input-activity state: key and click tallies and the time of the
/// last input, driven by the shell's global hook.
pub struct InputTracker {
    pub key_count: u32,
    pub click_count: u32,
    pub last_input_ms: u64,
    pub listening: bool,
}

impl InputTracker {
    pub fn new(now_ms: u64) -> (r: InputTracker)
        ensures
            r.key_count == 0,
            r.click_count == 0,
            r.last_input_ms == now_ms,
            !r.listening,
    {
        InputTracker { key_count: 0, click_count: 0, last_input_ms: now_ms, listening: false }
    }

    /// Record that listening started; yields whether it already was.
    pub fn mark_listening(&mut self) -> (was: bool)
        ensures
            final(self).listening,
            was == old(self).listening,
            final(self).key_count == old(self).key_count,
            final(self).click_count == old(self).click_count,
            final(self).last_input_ms == old(self).last_input_ms,
    {
        let was = self.listening;
        self.listening = true;
        was
    }

    pub fn is_listening(&self) -> (r: bool)
        ensures
            r == self.listening,
    {
        self.listening
    }

    /// Record one key press (the tally saturates).
    pub fn on_key(&mut self, now_ms: u64)
        ensures
            final(self).key_count == (if old(self).key_count < u32::MAX {
                old(self).key_count + 1
            } else {
                old(self).key_count as int
            }),
            final(self).click_count == old(self).click_count,
            final(self).last_input_ms == now_ms,
            final(self).listening == old(self).listening,
    {
        if self.key_count < u32::MAX {
            self.key_count = self.key_count + 1;
        }
        self.last_input_ms = now_ms;
    }

    /// Record one button press (the tally saturates).
    pub fn on_click(&mut self, now_ms: u64)
        ensures
            final(self).click_count == (if old(self).click_count < u32::MAX {
                old(self).click_count + 1
            } else {
                old(self).click_count as int
            }),
            final(self).key_count == old(self).key_count,
            final(self).last_input_ms == now_ms,
            final(self).listening == old(self).listening,
    {
        if self.click_count < u32::MAX {
            self.click_count = self.click_count + 1;
        }
        self.last_input_ms = now_ms;
    }

    /// Record any other input (movement, wheel).
    pub fn on_other_input(&mut self, now_ms: u64)
        ensures
            final(self).key_count == old(self).key_count,
            final(self).click_count == old(self).click_count,
            final(self).last_input_ms == now_ms,
            final(self).listening == old(self).listening,
    {
        self.last_input_ms = now_ms;
    }

    /// Seconds of inactivity as of `now_ms`.
    pub fn get_idle_seconds(&self, now_ms: u64) -> (r: u64)
        ensures
            r == (if now_ms >= self.last_input_ms {
                (now_ms - self.last_input_ms) / 1000
            } else {
                0
            }),
    {
        if now_ms >= self.last_input_ms {
            (now_ms - self.last_input_ms) / 1000
        } else {
            0
        }
    }

    /// Take the tallies and reset them; yields keys, clicks, and idle
    /// seconds.
    pub fn get_and_reset_stats(&mut self, now_ms: u64) -> (r: (u32, u32, u64))
        ensures
            r.0 == old(self).key_count,
            r.1 == old(self).click_count,
            r.2 == (if now_ms >= old(self).last_input_ms {
                (now_ms - old(self).last_input_ms) / 1000
            } else {
                0
            }),
            final(self).key_count == 0,
            final(self).click_count == 0,
            final(self).last_input_ms == old(self).last_input_ms,
            final(self).listening == old(self).listening,
    {
        let keys = self.key_count;
        let clicks = self.click_count;
        let idle = self.get_idle_seconds(now_ms);
        self.key_count = 0;
        self.click_count = 0;
        (keys, clicks, idle)
    }
}

/// The configuration fields shown to the presentation layer.
pub struct AppConfigResponse {
    pub poll_interval_ms: u64,
    pub idle_threshold_sec: u64,
    pub screenshot_enabled: bool,
    pub screenshot_trigger_sec: u32,
    pub screenshot_interval_sec: u32,
    pub screenshot_mode: String,
    pub screenshot_hotkey: String,
}

/// The presentation view of a configuration.
pub fn get_app_config(config: &AppConfig) -> (r: AppConfigResponse)
    ensures
        r.poll_interval_ms == config.poll_interval_ms,
        r.idle_threshold_sec == config.idle_threshold_sec,
        r.screenshot_enabled == config.screenshot_enabled,
        r.screenshot_trigger_sec == config.screenshot_trigger_sec,
        r.screenshot_interval_sec == config.screenshot_interval_sec,
        r.screenshot_mode@ == config.screenshot_mode@,
        r.screenshot_hotkey@ == config.screenshot_hotkey@,
{
    AppConfigResponse {
        poll_interval_ms: config.poll_interval_ms,
        idle_threshold_sec: config.idle_threshold_sec,
        screenshot_enabled: config.screenshot_enabled,
        screenshot_trigger_sec: config.screenshot_trigger_sec,
        screenshot_interval_sec: config.screenshot_interval_sec,
        screenshot_mode: config.screenshot_mode.clone(),
        screenshot_hotkey: config.screenshot_hotkey.clone(),
    }
}

/// Apply the presentation layer's settings to a configuration; the data
/// directory and the blacklist are not touched.
pub fn save_app_config(
    config: &mut AppConfig,
    poll_interval_ms: u64,
    idle_threshold_sec: u64,
    screenshot_enabled: bool,
    screenshot_trigger_sec: u32,
    screenshot_interval_sec: u32,
    screenshot_mode: String,
    screenshot_hotkey: String,
)
    ensures
        final(config).poll_interval_ms == poll_interval_ms,
        final(config).idle_threshold_sec == idle_threshold_sec,
        final(config).screenshot_enabled == screenshot_enabled,
        final(config).screenshot_trigger_sec == screenshot_trigger_sec,
        final(config).screenshot_interval_sec == screenshot_interval_sec,
        final(config).screenshot_mode@ == screenshot_mode@,
        final(config).screenshot_hotkey@ == screenshot_hotkey@,
        final(config).data_dir@ == old(config).data_dir@,
        final(config).screenshot_blacklist@ == old(config).screenshot_blacklist@,
{
    config.poll_interval_ms = poll_interval_ms;
    config.idle_threshold_sec = idle_threshold_sec;
    config.screenshot_enabled = screenshot_enabled;
    config.screenshot_trigger_sec = screenshot_trigger_sec;
    config.screenshot_interval_sec = screenshot_interval_sec;
    config.screenshot_mode = screenshot_mode;
    config.screenshot_hotkey = screenshot_hotkey;
}

/// One stored text-extraction record.
pub struct OcrRecord {
    pub timestamp: Vec<u8>,
    pub image_path: Vec<u8>,
    pub text: Vec<u8>,
    pub app_name: Option<Vec<u8>>,
}

} // verus!
