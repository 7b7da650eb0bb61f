//! Application configuration and the paths derived from it. Paths are
//! byte strings joined with `/`; the unverified shell converts them to
//! platform paths and performs the file I/O.
use vstd::prelude::*;
use crate::ext::{today_key, local_data_dir, lower_bytes, lower_of};
use crate::sse::append_bytes;
use crate::client::slice_owned;
use crate::is_match_at;

verus! {

pub const SLASH_SEP: u8 = 47;

/// A path joined with one separator.
pub open spec fn path_join(a: Seq<u8>, b: Seq<u8>) -> Seq<u8> {
    a + seq![SLASH_SEP] + b
}

/// Join two path fragments.
pub fn join_path(a: &[u8], b: &[u8]) -> (r: Vec<u8>)
    ensures
        r@ == path_join(a@, b@),
{
    let mut out = slice_owned(a);
    out.push(SLASH_SEP);
    append_bytes(&mut out, b);
    proof {
        assert(out@ =~= path_join(a@, b@));
    }
    out
}

/// `needle` occurs somewhere inside `hay`.
pub open spec fn is_substr(needle: Seq<u8>, hay: Seq<u8>) -> bool {
    exists|at: int| is_match_at(hay, needle, at)
}

/// Byte-string containment.
pub fn contains_bytes(hay: &[u8], needle: &[u8]) -> (r: bool)
    ensures
        r == is_substr(needle@, hay@),
{
    if needle.len() > hay.len() {
        assert(forall|at: int| !is_match_at(hay@, needle@, at));
        return false;
    }
    if needle.len() == 0 {
        proof {
            assert(hay@.subrange(0, 0) =~= needle@);
            assert(is_match_at(hay@, needle@, 0));
        }
        return true;
    }
    let mut at: usize = 0;
    while at <= hay.len() - needle.len()
        invariant
            1 <= needle@.len() <= hay@.len(),
            at <= hay@.len() - needle@.len() + 1,
            forall|j: int| 0 <= j < at ==> !is_match_at(hay@, needle@, j),
        decreases hay@.len() - needle@.len() - at + 1,
    {
        let piece = vstd::slice::slice_subrange(hay, at, at + needle.len());
        if crate::protocol::bytes_eq(piece, needle) {
            proof {
                assert(is_match_at(hay@, needle@, at as int));
            }
            return true;
        }
        at = at + 1;
    }
    proof {
        assert(forall|j: int| is_match_at(hay@, needle@, j) ==> 0 <= j <= hay@.len()
            - needle@.len());
    }
    false
}

/// The bytes of `raw_events.jsonl`.
pub open spec fn raw_events_name() -> Seq<u8> {
    seq![
        114u8, 97u8, 119u8, 95u8, 101u8, 118u8, 101u8, 110u8, 116u8, 115u8, 46u8, 106u8, 115u8,
        111u8, 110u8, 108u8,
    ]
}

fn raw_events_name_vec() -> (r: Vec<u8>)
    ensures
        r@ == raw_events_name(),
{
    let mut v: Vec<u8> = Vec::new();
    v.push(114);
    v.push(97);
    v.push(119);
    v.push(95);
    v.push(101);
    v.push(118);
    v.push(101);
    v.push(110);
    v.push(116);
    v.push(115);
    v.push(46);
    v.push(106);
    v.push(115);
    v.push(111);
    v.push(110);
    v.push(108);
    assert(v@ =~= raw_events_name());
    v
}

/// The bytes of `state_segments.json`.
pub open spec fn segments_name() -> Seq<u8> {
    seq![
        115u8, 116u8, 97u8, 116u8, 101u8, 95u8, 115u8, 101u8, 103u8, 109u8, 101u8, 110u8, 116u8,
        115u8, 46u8, 106u8, 115u8, 111u8, 110u8,
    ]
}

fn segments_name_vec() -> (r: Vec<u8>)
    ensures
        r@ == segments_name(),
{
    let mut v: Vec<u8> = Vec::new();
    v.push(115);
    v.push(116);
    v.push(97);
    v.push(116);
    v.push(101);
    v.push(95);
    v.push(115);
    v.push(101);
    v.push(103);
    v.push(109);
    v.push(101);
    v.push(110);
    v.push(116);
    v.push(115);
    v.push(46);
    v.push(106);
    v.push(115);
    v.push(111);
    v.push(110);
    assert(v@ =~= segments_name());
    v
}

/// The bytes of `screenshots`.
pub open spec fn screenshots_name() -> Seq<u8> {
    seq![115u8, 99u8, 114u8, 101u8, 101u8, 110u8, 115u8, 104u8, 111u8, 116u8, 115u8]
}

fn screenshots_name_vec() -> (r: Vec<u8>)
    ensures
        r@ == screenshots_name(),
{
    let mut v: Vec<u8> = Vec::new();
    v.push(115);
    v.push(99);
    v.push(114);
    v.push(101);
    v.push(101);
    v.push(110);
    v.push(115);
    v.push(104);
    v.push(111);
    v.push(116);
    v.push(115);
    assert(v@ =~= screenshots_name());
    v
}

/// The bytes of `DailyCraft`.
pub open spec fn dailycraft_name() -> Seq<u8> {
    seq![68u8, 97u8, 105u8, 108u8, 121u8, 67u8, 114u8, 97u8, 102u8, 116u8]
}

fn dailycraft_name_vec() -> (r: Vec<u8>)
    ensures
        r@ == dailycraft_name(),
{
    let mut v: Vec<u8> = Vec::new();
    v.push(68);
    v.push(97);
    v.push(105);
    v.push(108);
    v.push(121);
    v.push(67);
    v.push(114);
    v.push(97);
    v.push(102);
    v.push(116);
    assert(v@ =~= dailycraft_name());
    v
}

/// The bytes of `data`.
pub open spec fn data_name() -> Seq<u8> {
    seq![100u8, 97u8, 116u8, 97u8]
}

fn data_name_vec() -> (r: Vec<u8>)
    ensures
        r@ == data_name(),
{
    let mut v: Vec<u8> = Vec::new();
    v.push(100);
    v.push(97);
    v.push(116);
    v.push(97);
    assert(v@ =~= data_name());
    v
}

/// The application configuration.
pub struct AppConfig {
    /// Root directory for recorded data.
    pub data_dir: Vec<u8>,
    /// Applications never captured in screenshots.
    pub screenshot_blacklist: Vec<String>,
    /// Seconds of inactivity after which the user counts as idle.
    pub idle_threshold_sec: u64,
    /// Polling interval for event collection, in milliseconds.
    pub poll_interval_ms: u64,
    /// Whether automatic screenshots are taken at all.
    pub screenshot_enabled: bool,
    /// Seconds an application must keep focus before it is captured.
    pub screenshot_trigger_sec: u32,
    /// Seconds between automatic captures.
    pub screenshot_interval_sec: u32,
    /// Capture mode: the focused window or the full screen.
    pub screenshot_mode: String,
    /// Shortcut for a manual capture.
    pub screenshot_hotkey: String,
}

impl Default for AppConfig {
    /// The stock configuration: data under the platform's local-data
    /// directory (or the working directory), a password-manager
    /// blacklist, and conservative capture settings.
    fn default() -> (r: AppConfig)
        ensures
            (exists|base: Seq<u8>|
                r.data_dir@ == path_join(#[trigger] path_join(base, dailycraft_name()), data_name())),
            r.screenshot_blacklist@.len() == 3,
            r.screenshot_blacklist@[0]@ == "1Password"@,
            r.screenshot_blacklist@[1]@ == "Bitwarden"@,
            r.screenshot_blacklist@[2]@ == "KeePass"@,
            r.idle_threshold_sec == 300,
            r.poll_interval_ms == 1000,
            !r.screenshot_enabled,
            r.screenshot_trigger_sec == 30,
            r.screenshot_interval_sec == 60,
            r.screenshot_mode@ == "full_screen"@,
            r.screenshot_hotkey@ == "Alt+]"@,
    {
        let base: Vec<u8> = match local_data_dir() {
            Some(b) => b,
            None => {
                let mut dot: Vec<u8> = Vec::new();
                dot.push(46);
                dot
            },
        };
        let dc = dailycraft_name_vec();
        let dn = data_name_vec();
        let data_dir = join_path(join_path(base.as_slice(), dc.as_slice()).as_slice(),
            dn.as_slice());
        let mut blacklist: Vec<String> = Vec::new();
        blacklist.push("1Password".to_owned());
        blacklist.push("Bitwarden".to_owned());
        blacklist.push("KeePass".to_owned());
        AppConfig {
            data_dir,
            screenshot_blacklist: blacklist,
            idle_threshold_sec: 300,
            poll_interval_ms: 1000,
            screenshot_enabled: false,
            screenshot_trigger_sec: 30,
            screenshot_interval_sec: 60,
            screenshot_mode: "full_screen".to_owned(),
            screenshot_hotkey: "Alt+]".to_owned(),
        }
    }
}

impl AppConfig {
    /// The data directory of a given date.
    pub fn get_date_dir(&self, date: &[u8]) -> (r: Vec<u8>)
        ensures
            r@ == path_join(self.data_dir@, date@),
    {
        join_path(self.data_dir.as_slice(), date)
    }

    /// Today's data directory, keyed by the local date.
    pub fn get_today_dir(&self) -> (r: Vec<u8>)
        ensures
            exists|d: Seq<u8>| r@ == path_join(self.data_dir@, d) && d.len() >= 10,
    {
        let today = today_key();
        let r = self.get_date_dir(today.as_slice());
        proof {
            assert(r@ == path_join(self.data_dir@, today@) && today@.len() >= 10);
        }
        r
    }

    /// Today's raw-event log path.
    pub fn get_raw_events_path(&self) -> (r: Vec<u8>)
        ensures
            exists|d: Seq<u8>|
                r@ == path_join(#[trigger] path_join(self.data_dir@, d), raw_events_name())
                    && d.len() >= 10,
    {
        let dir = self.get_today_dir();
        let n = raw_events_name_vec();
        join_path(dir.as_slice(), n.as_slice())
    }

    /// The raw-event log path of a given date.
    pub fn get_raw_events_path_by_date(&self, date: &[u8]) -> (r: Vec<u8>)
        ensures
            r@ == path_join(path_join(self.data_dir@, date@), raw_events_name()),
    {
        let dir = self.get_date_dir(date);
        let n = raw_events_name_vec();
        join_path(dir.as_slice(), n.as_slice())
    }

    /// Today's state-segment file path.
    pub fn get_segments_path(&self) -> (r: Vec<u8>)
        ensures
            exists|d: Seq<u8>|
                r@ == path_join(#[trigger] path_join(self.data_dir@, d), segments_name())
                    && d.len() >= 10,
    {
        let dir = self.get_today_dir();
        let n = segments_name_vec();
        join_path(dir.as_slice(), n.as_slice())
    }

    /// Today's screenshot directory.
    pub fn get_screenshots_dir(&self) -> (r: Vec<u8>)
        ensures
            exists|d: Seq<u8>|
                r@ == path_join(#[trigger] path_join(self.data_dir@, d), screenshots_name())
                    && d.len() >= 10,
    {
        let dir = self.get_today_dir();
        let n = screenshots_name_vec();
        join_path(dir.as_slice(), n.as_slice())
    }

    /// Whether an application is blacklisted for screenshots: some
    /// blacklist entry occurs, case-folded, inside the application name.
    pub fn is_screenshot_blacklisted(&self, app: &str) -> (r: bool)
        ensures
            r == exists|i: int|
                0 <= i < self.screenshot_blacklist@.len() && is_substr(
                    lower_of(#[trigger] self.screenshot_blacklist@[i]@),
                    lower_of(app@),
                ),
    {
        let app_lower = lower_bytes(app);
        let mut i: usize = 0;
        while i < self.screenshot_blacklist.len()
            invariant
                i <= self.screenshot_blacklist@.len(),
                app_lower@ == lower_of(app@),
                forall|j: int|
                    0 <= j < i ==> !is_substr(
                        lower_of(#[trigger] self.screenshot_blacklist@[j]@),
                        lower_of(app@),
                    ),
            decreases self.screenshot_blacklist@.len() - i,
        {
            let entry_lower = lower_bytes(self.screenshot_blacklist[i].as_str());
            if contains_bytes(app_lower.as_slice(), entry_lower.as_slice()) {
                return true;
            }
            i = i + 1;
        }
        false
    }
}

} // verus!
