//! Version parsing and comparison, and the decision logic of the update
//! check. The network half of the update check lives in the unverified
//! shell; it hands the release fields and today's date in as plain values.
use vstd::prelude::*;
use crate::json::{is_digit_byte, MINUS, DOT};
use crate::client::slice_owned;
use crate::sse::append_bytes;

verus! {

pub const LOWER_V: u8 = 118;

/// First index at or after `i` that is not a lowercase `v`.
pub open spec fn v_end(s: Seq<u8>, i: int) -> int
    decreases s.len() - i,
{
    if 0 <= i < s.len() && s[i] == LOWER_V {
        v_end(s, i + 1)
    } else {
        i
    }
}

/// First index at or after `i` holding `b`, or the length.
pub open spec fn find_byte(s: Seq<u8>, i: int, b: u8) -> int
    decreases s.len() - i,
{
    if 0 <= i < s.len() {
        if s[i] == b {
            i
        } else {
            find_byte(s, i + 1, b)
        }
    } else {
        if i < 0 {
            0
        } else {
            s.len() as int
        }
    }
}

fn v_end_exec(s: &[u8], i: usize) -> (r: usize)
    requires
        i <= s@.len(),
    ensures
        r == v_end(s@, i as int),
        i <= r <= s@.len(),
{
    let mut j = i;
    while j < s.len() && s[j] == LOWER_V
        invariant
            i <= j <= s@.len(),
            v_end(s@, i as int) == v_end(s@, j as int),
        decreases s@.len() - j,
    {
        j = j + 1;
    }
    j
}

pub fn find_byte_exec(s: &[u8], i: usize, b: u8) -> (r: usize)
    requires
        i <= s@.len(),
    ensures
        r == find_byte(s@, i as int, b),
        i <= r <= s@.len(),
{
    let mut j = i;
    while j < s.len() && s[j] != b
        invariant
            i <= j <= s@.len(),
            find_byte(s@, i as int, b) == find_byte(s@, j as int, b),
        decreases s@.len() - j,
    {
        j = j + 1;
    }
    j
}

/// The numeric value of a run of ASCII digits.
pub open spec fn digits_val(s: Seq<u8>) -> int
    decreases s.len(),
{
    if s.len() == 0 {
        0
    } else {
        digits_val(s.drop_last()) * 10 + (s.last() - 48)
    }
}

/// A well-formed version segment: a non-empty, all-digit run whose value
/// fits in 32 bits; any other segment is dropped.
pub open spec fn seg_u32(s: Seq<u8>) -> Option<u32> {
    if s.len() > 0 && (forall|j: int| 0 <= j < s.len() ==> is_digit_byte(s[j])) && digits_val(s)
        <= 0xffffffff {
        Some(digits_val(s) as u32)
    } else {
        None
    }
}

/// Parse one dot-separated segment: the digits' value when the segment is
/// a valid 32-bit number.
fn seg_u32_exec(s: &[u8]) -> (r: Option<u32>)
    ensures
        r == seg_u32(s@),
{
    if s.len() == 0 {
        return None;
    }
    let mut i: usize = 0;
    let mut v: u64 = 0;
    while i < s.len()
        invariant
            i <= s@.len(),
            forall|j: int| 0 <= j < i ==> is_digit_byte(s@[j]),
            v == digits_val(s@.take(i as int)),
            v <= 0xffffffffff,
        decreases s@.len() - i,
    {
        let b = s[i];
        if !(48 <= b && b <= 57) {
            return None;
        }
        proof {
            assert(s@.take(i as int + 1).drop_last() =~= s@.take(i as int));
            assert(s@.take(i as int + 1).last() == s@[i as int]);
        }
        if v > 0xffffffff {
            // The value can no longer fit; it only grows from here.
            proof {
                if forall|j: int| 0 <= j < s@.len() ==> is_digit_byte(s@[j]) {
                    lemma_digits_val_grows(s@, i as int);
                }
            }
            return None;
        }
        v = v * 10 + ((b - 48) as u64);
        i = i + 1;
    }
    proof {
        assert(s@.take(s@.len() as int) =~= s@);
    }
    if v <= 0xffffffff {
        Some(v as u32)
    } else {
        proof {
            lemma_digits_val_grows(s@, s@.len() as int);
        }
        None
    }
}

/// Digit values never shrink as more digits are taken.
proof fn lemma_digits_val_grows(s: Seq<u8>, i: int)
    requires
        0 <= i <= s.len(),
        forall|j: int| 0 <= j < s.len() ==> is_digit_byte(s[j]),
    ensures
        digits_val(s) >= digits_val(s.take(i)),
        digits_val(s) >= 0,
    decreases s.len() - i,
{
    lemma_digits_val_nonneg(s);
    if i < s.len() {
        lemma_digits_val_grows(s, i + 1);
        lemma_digits_val_nonneg(s.take(i));
        assert(s.take(i + 1).drop_last() =~= s.take(i));
        assert(digits_val(s.take(i + 1)) == digits_val(s.take(i)) * 10 + (s[i] - 48));
    } else {
        assert(s.take(i) =~= s);
    }
}

proof fn lemma_digits_val_nonneg(s: Seq<u8>)
    requires
        forall|j: int| 0 <= j < s.len() ==> is_digit_byte(s[j]),
    ensures
        digits_val(s) >= 0,
    decreases s.len(),
{
    if s.len() > 0 {
        assert(s.drop_last() =~= s.take(s.len() - 1));
        assert(forall|j: int| 0 <= j < s.drop_last().len() ==> is_digit_byte(s.drop_last()[j]));
        lemma_digits_val_nonneg(s.drop_last());
    }
}

/// The dot-separated numeric segments of `s` from `i` on, appended to
/// `acc`; segments that are not valid numbers are dropped.
pub open spec fn nums_from(s: Seq<u8>, i: int, acc: Seq<u32>) -> Seq<u32>
    decreases s.len() - i,
{
    if !(0 <= i <= s.len()) {
        acc
    } else {
        let d = find_byte(s, i, DOT);
        let acc2 = match seg_u32(s.subrange(i, if i <= d <= s.len() {
            d
        } else {
            i
        })) {
            Some(v) => acc.push(v),
            None => acc,
        };
        if d + 1 <= s.len() && d >= i {
            nums_from(s, d + 1, acc2)
        } else {
            acc2
        }
    }
}

/// Collect the numeric segments of the dotted part of a version.
fn nums_from_exec(s: &[u8], i: usize, acc: Vec<u32>) -> (r: Vec<u32>)
    requires
        i <= s@.len(),
    ensures
        r@ == nums_from(s@, i as int, acc@),
    decreases s@.len() - i,
{
    let mut acc = acc;
    let d = find_byte_exec(s, i, DOT);
    let seg = vstd::slice::slice_subrange(s, i, d);
    proof {
        assert(seg@ =~= s@.subrange(i as int, d as int));
    }
    match seg_u32_exec(seg) {
        Some(v) => {
            acc.push(v);
        },
        None => {},
    }
    if d < s.len() {
        nums_from_exec(s, d + 1, acc)
    } else {
        acc
    }
}

/// ASCII lowercase of one byte.
pub open spec fn ascii_lower_byte(b: u8) -> u8 {
    if 65 <= b <= 90 {
        (b + 32) as u8
    } else {
        b
    }
}

pub open spec fn ascii_lower(s: Seq<u8>) -> Seq<u8> {
    s.map_values(|b: u8| ascii_lower_byte(b))
}

fn ascii_lower_exec(s: &[u8]) -> (r: Vec<u8>)
    ensures
        r@ == ascii_lower(s@),
{
    let mut out: Vec<u8> = Vec::new();
    let mut i: usize = 0;
    while i < s.len()
        invariant
            i <= s@.len(),
            out@.len() == i,
            forall|j: int| 0 <= j < i ==> out@[j] == ascii_lower_byte(s@[j]),
        decreases s@.len() - i,
    {
        let b = s[i];
        if 65 <= b && b <= 90 {
            out.push(b + 32);
        } else {
            out.push(b);
        }
        i = i + 1;
    }
    proof {
        assert(out@ =~= ascii_lower(s@));
    }
    out
}

/// The bytes of `rc`.
pub open spec fn lit_rc() -> Seq<u8> {
    seq![114u8, 99u8]
}

/// The bytes of `beta`.
pub open spec fn lit_beta() -> Seq<u8> {
    seq![98u8, 101u8, 116u8, 97u8]
}

/// The bytes of `alpha`.
pub open spec fn lit_alpha() -> Seq<u8> {
    seq![97u8, 108u8, 112u8, 104u8, 97u8]
}

/// The weight of a (lowercased) prerelease tag: release candidates above
/// betas above alphas above anything else.
pub open spec fn pre_weight(p: Seq<u8>) -> i32 {
    if crate::is_match_at(p, lit_rc(), 0) {
        3
    } else if crate::is_match_at(p, lit_beta(), 0) {
        2
    } else if crate::is_match_at(p, lit_alpha(), 0) {
        1
    } else {
        0
    }
}

/// The digits of `s`, in order.
pub open spec fn digits_only(s: Seq<u8>) -> Seq<u8>
    decreases s.len(),
{
    if s.len() == 0 {
        seq![]
    } else if is_digit_byte(s.last()) {
        digits_only(s.drop_last()).push(s.last())
    } else {
        digits_only(s.drop_last())
    }
}

/// The prerelease number: the tag's digits read as one number, zero when
/// there are none or they overflow.
pub open spec fn pre_num_of(p: Seq<u8>) -> u32 {
    match seg_u32(digits_only(p)) {
        Some(v) => v,
        None => 0,
    }
}

fn digits_only_exec(s: &[u8]) -> (r: Vec<u8>)
    ensures
        r@ == digits_only(s@),
{
    let mut out: Vec<u8> = Vec::new();
    let mut i: usize = 0;
    proof {
        assert(s@.take(0) =~= Seq::<u8>::empty());
    }
    while i < s.len()
        invariant
            i <= s@.len(),
            out@ == digits_only(s@.take(i as int)),
        decreases s@.len() - i,
    {
        let b = s[i];
        proof {
            assert(s@.take(i as int + 1).drop_last() =~= s@.take(i as int));
            assert(s@.take(i as int + 1).last() == s@[i as int]);
        }
        if 48 <= b && b <= 57 {
            out.push(b);
        }
        i = i + 1;
    }
    proof {
        assert(s@.take(s@.len() as int) =~= s@);
    }
    out
}

fn starts_with_bytes(s: &[u8], p: &[u8]) -> (r: bool)
    ensures
        r == crate::is_match_at(s@, p@, 0),
{
    if s.len() < p.len() {
        return false;
    }
    let head = vstd::slice::slice_subrange(s, 0, p.len());
    let r = crate::protocol::bytes_eq(head, p);
    proof {
        if head@ == p@ {
            assert(s@.subrange(0, p@.len() as int) == p@);
        }
    }
    r
}

/// The dotted numeric part of a version: leading `v`s stripped, cut at
/// the first dash.
pub open spec fn version_nums(s: Seq<u8>) -> Seq<u32> {
    let vs = v_end(s, 0);
    let dp = find_byte(s, vs, MINUS);
    if 0 <= vs <= dp <= s.len() {
        nums_from(s.subrange(vs, dp), 0, seq![])
    } else {
        seq![]
    }
}

/// The lowercased prerelease tag, when the version carries one.
pub open spec fn version_pre(s: Seq<u8>) -> Option<Seq<u8>> {
    let vs = v_end(s, 0);
    let dp = find_byte(s, vs, MINUS);
    if 0 <= vs <= dp < s.len() {
        Some(ascii_lower(s.subrange(dp + 1, s.len() as int)))
    } else {
        None
    }
}

/// The prerelease weight of a version; a version with no tag is a full
/// release and outranks every tagged one.
pub open spec fn version_weight(s: Seq<u8>) -> i32 {
    match version_pre(s) {
        Some(p) => pre_weight(p),
        None => 100,
    }
}

pub open spec fn version_pre_num(s: Seq<u8>) -> u32 {
    match version_pre(s) {
        Some(p) => pre_num_of(p),
        None => 0,
    }
}

/// Parse a version into its numeric segments, prerelease weight, and
/// prerelease number.
pub fn parse_version(version: &[u8]) -> (r: (Vec<u32>, i32, u32))
    ensures
        r.0@ == version_nums(version@),
        r.1 == version_weight(version@),
        r.2 == version_pre_num(version@),
{
    let vs = v_end_exec(version, 0);
    let dp = find_byte_exec(version, vs, MINUS);
    let numpart = vstd::slice::slice_subrange(version, vs, dp);
    proof {
        assert(numpart@ =~= version@.subrange(vs as int, dp as int));
    }
    let empty: Vec<u32> = Vec::new();
    proof {
        assert(empty@ =~= Seq::<u32>::empty());
    }
    let nums = nums_from_exec(numpart, 0, empty);
    if dp < version.len() {
        let tag = vstd::slice::slice_subrange(version, dp + 1, version.len());
        proof {
            assert(tag@ =~= version@.subrange(dp as int + 1, version@.len() as int));
        }
        let low = ascii_lower_exec(tag);
        let weight: i32 = if starts_with_bytes(low.as_slice(), lit_rc_vec().as_slice()) {
            3
        } else if starts_with_bytes(low.as_slice(), lit_beta_vec().as_slice()) {
            2
        } else if starts_with_bytes(low.as_slice(), lit_alpha_vec().as_slice()) {
            1
        } else {
            0
        };
        let digs = digits_only_exec(low.as_slice());
        let pnum = match seg_u32_exec(digs.as_slice()) {
            Some(v) => v,
            None => 0,
        };
        (nums, weight, pnum)
    } else {
        (nums, 100, 0)
    }
}

fn lit_rc_vec() -> (r: Vec<u8>)
    ensures
        r@ == lit_rc(),
{
    let mut v: Vec<u8> = Vec::new();
    v.push(114);
    v.push(99);
    assert(v@ =~= lit_rc());
    v
}

fn lit_beta_vec() -> (r: Vec<u8>)
    ensures
        r@ == lit_beta(),
{
    let mut v: Vec<u8> = Vec::new();
    v.push(98);
    v.push(101);
    v.push(116);
    v.push(97);
    assert(v@ =~= lit_beta());
    v
}

fn lit_alpha_vec() -> (r: Vec<u8>)
    ensures
        r@ == lit_alpha(),
{
    let mut v: Vec<u8> = Vec::new();
    v.push(97);
    v.push(108);
    v.push(112);
    v.push(104);
    v.push(97);
    assert(v@ =~= lit_alpha());
    v
}

/// Order on two numbers.
pub open spec fn cmp_int(x: int, y: int) -> core::cmp::Ordering {
    if x < y {
        core::cmp::Ordering::Less
    } else if x > y {
        core::cmp::Ordering::Greater
    } else {
        core::cmp::Ordering::Equal
    }
}

/// Lexicographic order on numeric segment lists, the shorter one padded
/// with zeros.
pub open spec fn cmp_num_lists(a: Seq<u32>, b: Seq<u32>, i: int) -> core::cmp::Ordering
    decreases (if a.len() >= b.len() {
        a.len()
    } else {
        b.len()
    }) - i,
{
    let m: int = if a.len() >= b.len() {
        a.len() as int
    } else {
        b.len() as int
    };
    if !(0 <= i < m) {
        core::cmp::Ordering::Equal
    } else {
        let x: u32 = if i < a.len() {
            a[i]
        } else {
            0
        };
        let y: u32 = if i < b.len() {
            b[i]
        } else {
            0
        };
        if x != y {
            cmp_int(x as int, y as int)
        } else {
            cmp_num_lists(a, b, i + 1)
        }
    }
}

/// Order on versions: numeric segments first, then prerelease weight,
/// then prerelease number.
pub open spec fn version_order(c: Seq<u8>, l: Seq<u8>) -> core::cmp::Ordering {
    let o1 = cmp_num_lists(version_nums(c), version_nums(l), 0);
    if o1 != core::cmp::Ordering::Equal {
        o1
    } else {
        let o2 = cmp_int(version_weight(c) as int, version_weight(l) as int);
        if o2 != core::cmp::Ordering::Equal {
            o2
        } else {
            cmp_int(version_pre_num(c) as int, version_pre_num(l) as int)
        }
    }
}

/// Compare two versions.
pub fn compare_versions(current: &[u8], latest: &[u8]) -> (r: core::cmp::Ordering)
    ensures
        r == version_order(current@, latest@),
{
    let pc = parse_version(current);
    let pl = parse_version(latest);
    let ca = pc.0;
    let cw = pc.1;
    let cp = pc.2;
    let la = pl.0;
    let lw = pl.1;
    let lp = pl.2;
    let mut i: usize = 0;
    let m = if ca.len() >= la.len() {
        ca.len()
    } else {
        la.len()
    };
    while i < m
        invariant
            i <= m,
            m == (if ca@.len() >= la@.len() {
                ca@.len()
            } else {
                la@.len()
            }),
            ca@ == version_nums(current@),
            la@ == version_nums(latest@),
            cmp_num_lists(ca@, la@, 0) == cmp_num_lists(ca@, la@, i as int),
        decreases m - i,
    {
        let x: u32 = if i < ca.len() {
            ca[i]
        } else {
            0
        };
        let y: u32 = if i < la.len() {
            la[i]
        } else {
            0
        };
        if x < y {
            return core::cmp::Ordering::Less;
        }
        if x > y {
            return core::cmp::Ordering::Greater;
        }
        i = i + 1;
    }
    if cw < lw {
        return core::cmp::Ordering::Less;
    }
    if cw > lw {
        return core::cmp::Ordering::Greater;
    }
    if cp < lp {
        return core::cmp::Ordering::Less;
    }
    if cp > lp {
        return core::cmp::Ordering::Greater;
    }
    core::cmp::Ordering::Equal
}

/// Stored update preferences: a version the user ignores, or a date
/// before which no reminder is shown.
pub struct UpdatePrefs {
    pub ignored_version: Option<Vec<u8>>,
    pub remind_after: Option<Vec<u8>>,
}

/// The fields of a published release, plus the derived download address.
pub struct ReleaseInfo {
    pub tag_name: Vec<u8>,
    pub name: Vec<u8>,
    pub body: Vec<u8>,
    pub html_url: Vec<u8>,
    pub published_at: Vec<u8>,
    pub download_url: Vec<u8>,
}

/// The outcome of one update check.
pub struct UpdateCheckResult {
    pub has_update: bool,
    pub current_version: Vec<u8>,
    pub latest_version: Option<Vec<u8>>,
    pub release_info: Option<ReleaseInfo>,
    pub skipped_reason: Option<Vec<u8>>,
}

/// The bytes of `already up to date`.
pub open spec fn reason_up_to_date() -> Seq<u8> {
    seq![
        97u8, 108u8, 114u8, 101u8, 97u8, 100u8, 121u8, 32u8, 117u8, 112u8, 32u8, 116u8, 111u8,
        32u8, 100u8, 97u8, 116u8, 101u8,
    ]
}

/// The bytes of `version ignored by user`.
pub open spec fn reason_ignored() -> Seq<u8> {
    seq![
        118u8, 101u8, 114u8, 115u8, 105u8, 111u8, 110u8, 32u8, 105u8, 103u8, 110u8, 111u8, 114u8,
        101u8, 100u8, 32u8, 98u8, 121u8, 32u8, 117u8, 115u8, 101u8, 114u8,
    ]
}

/// The bytes of `remind later`.
pub open spec fn reason_remind() -> Seq<u8> {
    seq![114u8, 101u8, 109u8, 105u8, 110u8, 100u8, 32u8, 108u8, 97u8, 116u8, 101u8, 114u8]
}

fn reason_up_to_date_vec() -> (r: Vec<u8>)
    ensures
        r@ == reason_up_to_date(),
{
    let mut v: Vec<u8> = Vec::new();
    v.push(97);
    v.push(108);
    v.push(114);
    v.push(101);
    v.push(97);
    v.push(100);
    v.push(121);
    v.push(32);
    v.push(117);
    v.push(112);
    v.push(32);
    v.push(116);
    v.push(111);
    v.push(32);
    v.push(100);
    v.push(97);
    v.push(116);
    v.push(101);
    assert(v@ =~= reason_up_to_date());
    v
}

fn reason_ignored_vec() -> (r: Vec<u8>)
    ensures
        r@ == reason_ignored(),
{
    let mut v: Vec<u8> = Vec::new();
    v.push(118);
    v.push(101);
    v.push(114);
    v.push(115);
    v.push(105);
    v.push(111);
    v.push(110);
    v.push(32);
    v.push(105);
    v.push(103);
    v.push(110);
    v.push(111);
    v.push(114);
    v.push(101);
    v.push(100);
    v.push(32);
    v.push(98);
    v.push(121);
    v.push(32);
    v.push(117);
    v.push(115);
    v.push(101);
    v.push(114);
    assert(v@ =~= reason_ignored());
    v
}

fn reason_remind_vec() -> (r: Vec<u8>)
    ensures
        r@ == reason_remind(),
{
    let mut v: Vec<u8> = Vec::new();
    v.push(114);
    v.push(101);
    v.push(109);
    v.push(105);
    v.push(110);
    v.push(100);
    v.push(32);
    v.push(108);
    v.push(97);
    v.push(116);
    v.push(101);
    v.push(114);
    assert(v@ =~= reason_remind());
    v
}

/// Lexicographic order on byte strings.
pub open spec fn lex_order(a: Seq<u8>, b: Seq<u8>) -> core::cmp::Ordering
    decreases a.len(),
{
    if a.len() == 0 && b.len() == 0 {
        core::cmp::Ordering::Equal
    } else if a.len() == 0 {
        core::cmp::Ordering::Less
    } else if b.len() == 0 {
        core::cmp::Ordering::Greater
    } else if a.first() < b.first() {
        core::cmp::Ordering::Less
    } else if a.first() > b.first() {
        core::cmp::Ordering::Greater
    } else {
        lex_order(a.drop_first(), b.drop_first())
    }
}

fn lex_order_exec(a: &[u8], b: &[u8]) -> (r: core::cmp::Ordering)
    ensures
        r == lex_order(a@, b@),
{
    let mut i: usize = 0;
    proof {
        assert(a@.skip(0) =~= a@);
        assert(b@.skip(0) =~= b@);
    }
    while i < a.len() && i < b.len()
        invariant
            i <= a@.len(),
            i <= b@.len(),
            lex_order(a@, b@) == lex_order(a@.skip(i as int), b@.skip(i as int)),
        decreases a@.len() - i,
    {
        let x = a[i];
        let y = b[i];
        proof {
            assert(a@.skip(i as int).first() == a@[i as int]);
            assert(b@.skip(i as int).first() == b@[i as int]);
            assert(a@.skip(i as int).drop_first() =~= a@.skip(i as int + 1));
            assert(b@.skip(i as int).drop_first() =~= b@.skip(i as int + 1));
        }
        if x < y {
            return core::cmp::Ordering::Less;
        }
        if x > y {
            return core::cmp::Ordering::Greater;
        }
        i = i + 1;
    }
    proof {
        assert(a@.skip(i as int).len() == a@.len() - i);
        assert(b@.skip(i as int).len() == b@.len() - i);
    }
    if a.len() == b.len() {
        core::cmp::Ordering::Equal
    } else if a.len() < b.len() {
        core::cmp::Ordering::Less
    } else {
        core::cmp::Ordering::Greater
    }
}

/// Number of days in a month of the proleptic Gregorian calendar.
pub open spec fn days_in_month(y: int, m: int) -> int {
    if m == 2 {
        if (y % 4 == 0 && y % 100 != 0) || y % 400 == 0 {
            29
        } else {
            28
        }
    } else if m == 4 || m == 6 || m == 9 || m == 11 {
        30
    } else {
        31
    }
}

/// A well-formed `YYYY-MM-DD` date.
pub open spec fn valid_date(s: Seq<u8>) -> bool {
    &&& s.len() == 10
    &&& (forall|j: int|
        (0 <= j < 4 || j == 5 || j == 6 || j == 8 || j == 9) ==> is_digit_byte(#[trigger] s[j]))
    &&& s[4] == MINUS
    &&& s[7] == MINUS
    &&& {
        let m = (s[5] - 48) * 10 + (s[6] - 48);
        let d = (s[8] - 48) * 10 + (s[9] - 48);
        let y = digits_val(s.subrange(0, 4));
        1 <= m <= 12 && 1 <= d <= days_in_month(y, m as int)
    }
}

/// Check a `YYYY-MM-DD` date for well-formedness, including the month's
/// length and leap years.
pub fn valid_date_exec(s: &[u8]) -> (r: bool)
    ensures
        r == valid_date(s@),
{
    if s.len() != 10 {
        return false;
    }
    let mut ok = true;
    if !(48 <= s[0] && s[0] <= 57 && 48 <= s[1] && s[1] <= 57 && 48 <= s[2] && s[2] <= 57 && 48
        <= s[3] && s[3] <= 57) {
        ok = false;
    }
    if !(48 <= s[5] && s[5] <= 57 && 48 <= s[6] && s[6] <= 57 && 48 <= s[8] && s[8] <= 57 && 48
        <= s[9] && s[9] <= 57) {
        ok = false;
    }
    if s[4] != MINUS || s[7] != MINUS {
        ok = false;
    }
    if !ok {
        return false;
    }
    let m: u32 = ((s[5] - 48) as u32) * 10 + ((s[6] - 48) as u32);
    let d: u32 = ((s[8] - 48) as u32) * 10 + ((s[9] - 48) as u32);
    let y: u64 = ((s[0] - 48) as u64) * 1000 + ((s[1] - 48) as u64) * 100 + ((s[2] - 48) as u64)
        * 10 + ((s[3] - 48) as u64);
    proof {
        let sub = s@.subrange(0, 4);
        assert(sub.len() == 4);
        assert(sub.drop_last() =~= s@.subrange(0, 3));
        assert(s@.subrange(0, 3).drop_last() =~= s@.subrange(0, 2));
        assert(s@.subrange(0, 2).drop_last() =~= s@.subrange(0, 1));
        assert(s@.subrange(0, 1).drop_last() =~= s@.subrange(0, 0));
        assert(digits_val(s@.subrange(0, 0)) == 0);
        assert(s@.subrange(0, 1).last() == s@[0]);
        assert(s@.subrange(0, 2).last() == s@[1]);
        assert(s@.subrange(0, 3).last() == s@[2]);
        assert(sub.last() == s@[3]);
        assert(digits_val(s@.subrange(0, 1)) == s@[0] - 48);
        assert(digits_val(s@.subrange(0, 2)) == (s@[0] - 48) * 10 + (s@[1] - 48));
        assert(digits_val(s@.subrange(0, 3)) == digits_val(s@.subrange(0, 2)) * 10 + (s@[2]
            - 48));
        assert(digits_val(sub) == digits_val(s@.subrange(0, 3)) * 10 + (s@[3] - 48));
        assert(y == digits_val(sub));
    }
    if !(1 <= m && m <= 12) {
        return false;
    }
    let dim: u32 = if m == 2 {
        if (y % 4 == 0 && y % 100 != 0) || y % 400 == 0 {
            29
        } else {
            28
        }
    } else if m == 4 || m == 6 || m == 9 || m == 11 {
        30
    } else {
        31
    };
    1 <= d && d <= dim
}

/// The latest version named by a tag: the tag with its leading `v`s
/// stripped.
pub open spec fn latest_of(tag: Seq<u8>) -> Seq<u8> {
    tag.subrange(v_end(tag, 0), tag.len() as int)
}

/// The download address derived from a release tag.
pub open spec fn download_url_of(tag: Seq<u8>) -> Seq<u8> {
    url_head() + tag + url_mid() + latest_of(tag) + url_tail()
}

/// The bytes of the download address head.
pub open spec fn url_head() -> Seq<u8> {
    seq![
        104u8, 116u8, 116u8, 112u8, 115u8, 58u8, 47u8, 47u8, 103u8, 105u8, 116u8, 104u8, 117u8,
        98u8, 46u8, 99u8, 111u8, 109u8, 47u8, 67u8, 104u8, 117u8, 106u8, 105u8, 101u8, 45u8,
        99u8, 114u8, 101u8, 47u8, 68u8, 97u8, 105u8, 108u8, 121u8, 67u8, 114u8, 97u8, 102u8,
        116u8, 47u8, 114u8, 101u8, 108u8, 101u8, 97u8, 115u8, 101u8, 115u8, 47u8, 100u8, 111u8,
        119u8, 110u8, 108u8, 111u8, 97u8, 100u8, 47u8,
    ]
}

/// The bytes between the tag and the version in the download address.
pub open spec fn url_mid() -> Seq<u8> {
    seq![47u8, 100u8, 97u8, 105u8, 108u8, 121u8, 99u8, 114u8, 97u8, 102u8, 116u8, 95u8]
}

/// The bytes ending the download address.
pub open spec fn url_tail() -> Seq<u8> {
    seq![95u8, 120u8, 54u8, 52u8, 45u8, 115u8, 101u8, 116u8, 117u8, 112u8, 46u8, 101u8, 120u8,
        101u8]
}

#[verifier::rlimit(100)]
fn url_head_vec() -> (r: Vec<u8>)
    ensures
        r@ == url_head(),
{
    let mut v: Vec<u8> = Vec::new();
    v.push(104);
    v.push(116);
    v.push(116);
    v.push(112);
    v.push(115);
    v.push(58);
    v.push(47);
    v.push(47);
    v.push(103);
    v.push(105);
    v.push(116);
    v.push(104);
    v.push(117);
    v.push(98);
    v.push(46);
    v.push(99);
    v.push(111);
    v.push(109);
    v.push(47);
    v.push(67);
    v.push(104);
    v.push(117);
    v.push(106);
    v.push(105);
    v.push(101);
    v.push(45);
    v.push(99);
    v.push(114);
    v.push(101);
    v.push(47);
    v.push(68);
    v.push(97);
    v.push(105);
    v.push(108);
    v.push(121);
    v.push(67);
    v.push(114);
    v.push(97);
    v.push(102);
    v.push(116);
    v.push(47);
    v.push(114);
    v.push(101);
    v.push(108);
    v.push(101);
    v.push(97);
    v.push(115);
    v.push(101);
    v.push(115);
    v.push(47);
    v.push(100);
    v.push(111);
    v.push(119);
    v.push(110);
    v.push(108);
    v.push(111);
    v.push(97);
    v.push(100);
    v.push(47);
    assert(v@ =~= url_head());
    v
}

fn url_mid_vec() -> (r: Vec<u8>)
    ensures
        r@ == url_mid(),
{
    let mut v: Vec<u8> = Vec::new();
    v.push(47);
    v.push(100);
    v.push(97);
    v.push(105);
    v.push(108);
    v.push(121);
    v.push(99);
    v.push(114);
    v.push(97);
    v.push(102);
    v.push(116);
    v.push(95);
    assert(v@ =~= url_mid());
    v
}

fn url_tail_vec() -> (r: Vec<u8>)
    ensures
        r@ == url_tail(),
{
    let mut v: Vec<u8> = Vec::new();
    v.push(95);
    v.push(120);
    v.push(54);
    v.push(52);
    v.push(45);
    v.push(115);
    v.push(101);
    v.push(116);
    v.push(117);
    v.push(112);
    v.push(46);
    v.push(101);
    v.push(120);
    v.push(101);
    assert(v@ =~= url_tail());
    v
}

/// Why an update check reports no update, if it does: the running version
/// is current; or, unless the check is forced, the user ignored the
/// version, or asked to be reminded only after a (well-formed) date that
/// is still ahead of today.
pub open spec fn update_skip_reason(
    current: Seq<u8>,
    latest: Seq<u8>,
    ignored: Option<Seq<u8>>,
    remind: Option<Seq<u8>>,
    force: bool,
    today: Seq<u8>,
) -> Option<Seq<u8>> {
    if version_order(current, latest) != core::cmp::Ordering::Less {
        Some(reason_up_to_date())
    } else if !force && (ignored matches Some(v) && v == latest) {
        Some(reason_ignored())
    } else if !force && (remind matches Some(d) && valid_date(d) && lex_order(today, d)
        == core::cmp::Ordering::Less) {
        Some(reason_remind())
    } else {
        None
    }
}

/// The bytes of `ignore`.
pub open spec fn action_ignore() -> Seq<u8> {
    seq![105u8, 103u8, 110u8, 111u8, 114u8, 101u8]
}

/// The bytes of `remind_tomorrow`.
pub open spec fn action_remind_tomorrow() -> Seq<u8> {
    seq![
        114u8, 101u8, 109u8, 105u8, 110u8, 100u8, 95u8, 116u8, 111u8, 109u8, 111u8, 114u8, 114u8,
        111u8, 119u8,
    ]
}

/// The bytes of `clear`.
pub open spec fn action_clear() -> Seq<u8> {
    seq![99u8, 108u8, 101u8, 97u8, 114u8]
}

fn action_ignore_vec() -> (r: Vec<u8>)
    ensures
        r@ == action_ignore(),
{
    let mut v: Vec<u8> = Vec::new();
    v.push(105);
    v.push(103);
    v.push(110);
    v.push(111);
    v.push(114);
    v.push(101);
    assert(v@ =~= action_ignore());
    v
}

fn action_remind_tomorrow_vec() -> (r: Vec<u8>)
    ensures
        r@ == action_remind_tomorrow(),
{
    let mut v: Vec<u8> = Vec::new();
    v.push(114);
    v.push(101);
    v.push(109);
    v.push(105);
    v.push(110);
    v.push(100);
    v.push(95);
    v.push(116);
    v.push(111);
    v.push(109);
    v.push(111);
    v.push(114);
    v.push(114);
    v.push(111);
    v.push(119);
    assert(v@ =~= action_remind_tomorrow());
    v
}

fn action_clear_vec() -> (r: Vec<u8>)
    ensures
        r@ == action_clear(),
{
    let mut v: Vec<u8> = Vec::new();
    v.push(99);
    v.push(108);
    v.push(101);
    v.push(97);
    v.push(114);
    assert(v@ =~= action_clear());
    v
}

/// Apply an update-preference action: ignoring a version and deferring a
/// reminder displace each other; `clear` drops both; an unknown action is
/// an error. `tomorrow` is the date key the reminder defers to.
pub fn set_update_preference(
    prefs: &mut UpdatePrefs,
    action: &[u8],
    version: Option<Vec<u8>>,
    tomorrow: Vec<u8>,
) -> (r: Result<(), ()>)
    ensures
        action@ == action_ignore() ==> (r is Ok && crate::protocol::opt_view(
            final(prefs).ignored_version,
        ) == crate::protocol::opt_view(version) && final(prefs).remind_after is None),
        action@ == action_remind_tomorrow() ==> (r is Ok && final(prefs).ignored_version is None
            && (final(prefs).remind_after matches Some(d) && d@ == tomorrow@)),
        action@ == action_clear() ==> (r is Ok && final(prefs).ignored_version is None
            && final(prefs).remind_after is None),
        (action@ != action_ignore() && action@ != action_remind_tomorrow() && action@
            != action_clear()) ==> (r is Err && *final(prefs) == *old(prefs)),
{
    if crate::protocol::bytes_eq(action, action_ignore_vec().as_slice()) {
        prefs.ignored_version = version;
        prefs.remind_after = None;
        Ok(())
    } else if crate::protocol::bytes_eq(action, action_remind_tomorrow_vec().as_slice()) {
        prefs.remind_after = Some(tomorrow);
        prefs.ignored_version = None;
        Ok(())
    } else if crate::protocol::bytes_eq(action, action_clear_vec().as_slice()) {
        prefs.ignored_version = None;
        prefs.remind_after = None;
        Ok(())
    } else {
        Err(())
    }
}

/// Evaluate one update check from the release tag and the stored
/// preferences. The network fetch is the shell's; this decides.
pub fn evaluate_update_check(
    current: &[u8],
    tag_name: &[u8],
    name: &[u8],
    body: &[u8],
    html_url: &[u8],
    published_at: &[u8],
    prefs: &UpdatePrefs,
    force: bool,
    today: &[u8],
) -> (r: UpdateCheckResult)
    ensures
        r.current_version@ == current@,
        (r.latest_version matches Some(l) && l@ == latest_of(tag_name@)),
        crate::protocol::opt_view(r.skipped_reason) == update_skip_reason(
            current@,
            latest_of(tag_name@),
            crate::protocol::opt_view(prefs.ignored_version),
            crate::protocol::opt_view(prefs.remind_after),
            force,
            today@,
        ),
        r.has_update == (update_skip_reason(
            current@,
            latest_of(tag_name@),
            crate::protocol::opt_view(prefs.ignored_version),
            crate::protocol::opt_view(prefs.remind_after),
            force,
            today@,
        ) is None),
        r.has_update ==> (r.release_info matches Some(ri) && ri.tag_name@ == tag_name@
            && ri.name@ == name@ && ri.body@ == body@ && ri.html_url@ == html_url@
            && ri.published_at@ == published_at@ && ri.download_url@ == download_url_of(
            tag_name@,
        )),
        !r.has_update ==> r.release_info is None,
{
    let vs = v_end_exec(tag_name, 0);
    let latest = vstd::slice::slice_subrange(tag_name, vs, tag_name.len());
    proof {
        assert(latest@ =~= latest_of(tag_name@));
    }
    if !matches!(compare_versions(current, latest), core::cmp::Ordering::Less) {
        return UpdateCheckResult {
            has_update: false,
            current_version: slice_owned(current),
            latest_version: Some(slice_owned(latest)),
            release_info: None,
            skipped_reason: Some(reason_up_to_date_vec()),
        };
    }
    if !force {
        let ignored_hit = match &prefs.ignored_version {
            Some(v) => crate::protocol::bytes_eq(v.as_slice(), latest),
            None => false,
        };
        if ignored_hit {
            return UpdateCheckResult {
                has_update: false,
                current_version: slice_owned(current),
                latest_version: Some(slice_owned(latest)),
                release_info: None,
                skipped_reason: Some(reason_ignored_vec()),
            };
        }
        let remind_hit = match &prefs.remind_after {
            Some(d) => valid_date_exec(d.as_slice()) && matches!(
                lex_order_exec(today, d.as_slice()),
                core::cmp::Ordering::Less
            ),
            None => false,
        };
        if remind_hit {
            return UpdateCheckResult {
                has_update: false,
                current_version: slice_owned(current),
                latest_version: Some(slice_owned(latest)),
                release_info: None,
                skipped_reason: Some(reason_remind_vec()),
            };
        }
    }
    let mut url = url_head_vec();
    append_bytes(&mut url, tag_name);
    let mid = url_mid_vec();
    append_bytes(&mut url, mid.as_slice());
    append_bytes(&mut url, latest);
    let tail = url_tail_vec();
    append_bytes(&mut url, tail.as_slice());
    proof {
        assert(url@ =~= download_url_of(tag_name@));
    }
    UpdateCheckResult {
        has_update: true,
        current_version: slice_owned(current),
        latest_version: Some(slice_owned(latest)),
        release_info: Some(
            ReleaseInfo {
                tag_name: slice_owned(tag_name),
                name: slice_owned(name),
                body: slice_owned(body),
                html_url: slice_owned(html_url),
                published_at: slice_owned(published_at),
                download_url: url,
            },
        ),
        skipped_reason: None,
    }
}

} // verus!
