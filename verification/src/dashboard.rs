//! Dashboard statistics: tallying recorded days and events, and the
//! one-line summary drawn from a diary. The shell walks the data
//! directory and the event store; this module does the arithmetic and the
//! text handling.
use vstd::prelude::*;
use crate::json::LF;
use crate::sse::{trim, trim_exec, append_bytes};
use crate::segment::sat_add_u32;
use crate::client::slice_owned;

verus! {

/// The figures shown on the dashboard.
pub struct DashboardStats {
    pub total_days: u32,
    pub today_events: u32,
    pub total_events: u32,
    pub today_diary: Option<Vec<u8>>,
}

/// A line that counts as summary text: not a heading, a list item, an
/// emphasis line, or blank.
pub open spec fn summary_line(l: Seq<u8>) -> bool {
    &&& l.len() > 0
    &&& l[0] != 35
    &&& l[0] != 42
    &&& l[0] != 45
    &&& trim(l).len() > 0
}

/// The first summary line of a text, scanning from `i`.
pub open spec fn first_summary(s: Seq<u8>, i: int) -> Option<Seq<u8>>
    decreases s.len() - i,
{
    if !(0 <= i <= s.len()) {
        None
    } else {
        let e = crate::version::find_byte(s, i, LF);
        let l = if i <= e <= s.len() {
            s.subrange(i, e)
        } else {
            seq![]
        };
        if summary_line(l) {
            Some(l)
        } else if e < s.len() && e + 1 > i {
            first_summary(s, e + 1)
        } else {
            None
        }
    }
}

/// The summary clipped for display: at most 50 bytes, with an ellipsis
/// when clipped.
pub open spec fn clipped(l: Seq<u8>) -> Seq<u8> {
    if l.len() > 50 {
        l.subrange(0, 50) + seq![46u8, 46u8, 46u8]
    } else {
        l
    }
}

/// The one-line summary of a diary: its first line of plain text,
/// clipped; `None` when it has no such line.
pub fn diary_summary(content: &[u8]) -> (r: Option<Vec<u8>>)
    ensures
        r is None ==> first_summary(content@, 0) is None,
        r matches Some(v) ==> (first_summary(content@, 0) matches Some(l) && v@ == clipped(l)),
{
    match first_summary_exec(content, 0) {
        None => None,
        Some(l) => {
            if l.len() > 50 {
                let mut out = vstd::slice::slice_to_vec(
                    vstd::slice::slice_subrange(l.as_slice(), 0, 50),
                );
                out.push(46);
                out.push(46);
                out.push(46);
                proof {
                    assert(out@ =~= clipped(l@));
                }
                Some(out)
            } else {
                Some(l)
            }
        },
    }
}

fn first_summary_exec(s: &[u8], i: usize) -> (r: Option<Vec<u8>>)
    requires
        i <= s@.len(),
    ensures
        r is None ==> first_summary(s@, i as int) is None,
        r matches Some(v) ==> first_summary(s@, i as int) == Some(v@),
    decreases s@.len() - i,
{
    let e = crate::version::find_byte_exec(s, i, LF);
    let l = vstd::slice::slice_subrange(s, i, e);
    proof {
        assert(l@ =~= s@.subrange(i as int, e as int));
    }
    let is_summary = l.len() > 0 && l[0] != 35 && l[0] != 42 && l[0] != 45 && trim_exec(l).len()
        > 0;
    if is_summary {
        Some(slice_owned(l))
    } else if e < s.len() {
        first_summary_exec(s, e + 1)
    } else {
        None
    }
}

/// One recorded day as the shell found it: its date key and how many
/// events its store holds.
pub struct DayCount {
    pub date: Vec<u8>,
    pub events: u32,
}

/// Total events over the recorded days (saturating).
pub open spec fn total_of(days: Seq<DayCount>) -> u32
    decreases days.len(),
{
    if days.len() == 0 {
        0u32
    } else {
        sat_add_u32(total_of(days.drop_last()), days.last().events)
    }
}

/// Events recorded today: the tally of the last entry carrying today's
/// date key, zero when none does.
pub open spec fn today_events_of(days: Seq<DayCount>, today: Seq<u8>) -> u32
    decreases days.len(),
{
    if days.len() == 0 {
        0u32
    } else if days.last().date@ == today {
        days.last().events
    } else {
        today_events_of(days.drop_last(), today)
    }
}

/// Tally the dashboard figures from the recorded days.
pub fn tally_dashboard(days: &Vec<DayCount>, today: &[u8], today_diary: Option<Vec<u8>>) -> (r:
    DashboardStats)
    ensures
        r.total_days == (if days@.len() <= u32::MAX {
            days@.len() as int
        } else {
            u32::MAX as int
        }),
        r.total_events == total_of(days@),
        r.today_events == today_events_of(days@, today@),
        crate::protocol::opt_view(r.today_diary) == crate::protocol::opt_view(today_diary),
{
    let mut total: u32 = 0;
    let mut today_n: u32 = 0;
    let mut i: usize = 0;
    proof {
        assert(days@.take(0) =~= Seq::<DayCount>::empty());
    }
    while i < days.len()
        invariant
            i <= days@.len(),
            total == total_of(days@.take(i as int)),
            today_n == today_events_of(days@.take(i as int), today@),
        decreases days@.len() - i,
    {
        proof {
            assert(days@.take(i as int + 1).drop_last() =~= days@.take(i as int));
            assert(days@.take(i as int + 1).last() == days@[i as int]);
        }
        let e = days[i].events;
        total = if total <= u32::MAX - e {
            total + e
        } else {
            u32::MAX
        };
        if crate::protocol::bytes_eq(days[i].date.as_slice(), today) {
            today_n = e;
        }
        i = i + 1;
    }
    proof {
        assert(days@.take(days@.len() as int) =~= days@);
    }
    let days_total: u32 = if days.len() <= u32::MAX as usize {
        days.len() as u32
    } else {
        u32::MAX
    };
    DashboardStats {
        total_days: days_total,
        today_events: today_n,
        total_events: total,
        today_diary,
    }
}

/// The markdown document a diary is written to: a dated heading, the
/// content, and a signature line.
pub open spec fn diary_markdown(date: Seq<u8>, content: Seq<u8>) -> Seq<u8> {
    md_head() + date + md_title() + content + md_tail()
}

/// The bytes of `# `.
pub open spec fn md_head() -> Seq<u8> {
    seq![35u8, 32u8]
}

/// The bytes of ` Diary`, two newlines after the heading.
pub open spec fn md_title() -> Seq<u8> {
    seq![32u8, 68u8, 105u8, 97u8, 114u8, 121u8, 10u8, 10u8]
}

/// The bytes of the closing rule and signature:
/// `\n\n---\n*Generated by DailyCraft AI*\n`.
pub open spec fn md_tail() -> Seq<u8> {
    seq![
        10u8, 10u8, 45u8, 45u8, 45u8, 10u8, 42u8, 71u8, 101u8, 110u8, 101u8, 114u8, 97u8, 116u8,
        101u8, 100u8, 32u8, 98u8, 121u8, 32u8, 68u8, 97u8, 105u8, 108u8, 121u8, 67u8, 114u8,
        97u8, 102u8, 116u8, 32u8, 65u8, 73u8, 42u8, 10u8,
    ]
}

/// Render a diary as the markdown document that is persisted.
pub fn render_diary_markdown(date: &[u8], content: &[u8]) -> (r: Vec<u8>)
    ensures
        r@ == diary_markdown(date@, content@),
{
    let mut out: Vec<u8> = Vec::new();
    out.push(35);
    out.push(32);
    append_bytes(&mut out, date);
    out.push(32);
    out.push(68);
    out.push(105);
    out.push(97);
    out.push(114);
    out.push(121);
    out.push(10);
    out.push(10);
    append_bytes(&mut out, content);
    out.push(10);
    out.push(10);
    out.push(45);
    out.push(45);
    out.push(45);
    out.push(10);
    out.push(42);
    out.push(71);
    out.push(101);
    out.push(110);
    out.push(101);
    out.push(114);
    out.push(97);
    out.push(116);
    out.push(101);
    out.push(100);
    out.push(32);
    out.push(98);
    out.push(121);
    out.push(32);
    out.push(68);
    out.push(97);
    out.push(105);
    out.push(108);
    out.push(121);
    out.push(67);
    out.push(114);
    out.push(97);
    out.push(102);
    out.push(116);
    out.push(32);
    out.push(65);
    out.push(73);
    out.push(42);
    out.push(10);
    proof {
        assert(out@ =~= diary_markdown(date@, content@));
    }
    out
}

} // verus!
