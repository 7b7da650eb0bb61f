//! Byte-level JSON grammar used by the gateway's wire protocols: the
//! chat-completion response envelopes, the streamed delta frames, and the
//! line-delimited requests and replies exchanged with the extraction worker.
//!
//! Every parsing function comes in two forms: a specification function that
//! defines the grammar over `Seq<u8>`, and an executable function proved to
//! return exactly what the specification says.
use vstd::prelude::*;

verus! {

// Byte values used by the grammar.
pub const QUOTE: u8 = 34;
pub const BACKSLASH: u8 = 92;
pub const SLASH: u8 = 47;
pub const LBRACE: u8 = 123;
pub const RBRACE: u8 = 125;
pub const LBRACKET: u8 = 91;
pub const RBRACKET: u8 = 93;
pub const COMMA: u8 = 44;
pub const COLON: u8 = 58;
pub const SPACE: u8 = 32;
pub const TAB: u8 = 9;
pub const LF: u8 = 10;
pub const CR: u8 = 13;
pub const MINUS: u8 = 45;
pub const PLUS: u8 = 43;
pub const DOT: u8 = 46;
pub const DIGIT_ZERO: u8 = 48;
pub const DIGIT_NINE: u8 = 57;
pub const LOWER_A: u8 = 97;
pub const LOWER_B: u8 = 98;
pub const LOWER_E: u8 = 101;
pub const LOWER_F: u8 = 102;
pub const LOWER_N: u8 = 110;
pub const LOWER_R: u8 = 114;
pub const LOWER_T: u8 = 116;
pub const LOWER_U: u8 = 117;
pub const UPPER_A: u8 = 65;
pub const UPPER_E: u8 = 69;
pub const UPPER_F: u8 = 70;
pub const BS_CTRL: u8 = 8;
pub const FF_CTRL: u8 = 12;

pub open spec fn is_ws_byte(b: u8) -> bool {
    b == SPACE || b == TAB || b == LF || b == CR
}

pub open spec fn is_digit_byte(b: u8) -> bool {
    DIGIT_ZERO <= b <= DIGIT_NINE
}

/// Index of the first byte at or after `i` that is not JSON whitespace
/// (the sequence's length if none remains).
pub open spec fn ws_end(s: Seq<u8>, i: int) -> int
    decreases s.len() - i,
{
    if 0 <= i < s.len() && is_ws_byte(s[i]) {
        ws_end(s, i + 1)
    } else {
        i
    }
}

/// Index of the first byte at or after `i` that is not an ASCII digit.
pub open spec fn digits_end(s: Seq<u8>, i: int) -> int
    decreases s.len() - i,
{
    if 0 <= i < s.len() && is_digit_byte(s[i]) {
        digits_end(s, i + 1)
    } else {
        i
    }
}

pub fn skip_ws(s: &[u8], i: usize) -> (r: usize)
    requires
        i <= s@.len(),
    ensures
        r == ws_end(s@, i as int),
        i <= r <= s@.len(),
{
    let mut j = i;
    while j < s.len() && is_ws_exec(s[j])
        invariant
            i <= j <= s@.len(),
            ws_end(s@, i as int) == ws_end(s@, j as int),
        decreases s@.len() - j,
    {
        j = j + 1;
    }
    j
}

fn is_ws_exec(b: u8) -> (r: bool)
    ensures
        r == is_ws_byte(b),
{
    b == SPACE || b == TAB || b == LF || b == CR
}

fn is_digit_exec(b: u8) -> (r: bool)
    ensures
        r == is_digit_byte(b),
{
    DIGIT_ZERO <= b && b <= DIGIT_NINE
}

pub fn skip_digits(s: &[u8], i: usize) -> (r: usize)
    requires
        i <= s@.len(),
    ensures
        r == digits_end(s@, i as int),
        i <= r <= s@.len(),
{
    let mut j = i;
    while j < s.len() && is_digit_exec(s[j])
        invariant
            i <= j <= s@.len(),
            digits_end(s@, i as int) == digits_end(s@, j as int),
        decreases s@.len() - j,
    {
        j = j + 1;
    }
    j
}

/// Value of one hexadecimal digit byte.
pub open spec fn hex_val(b: u8) -> Option<u32> {
    if DIGIT_ZERO <= b <= DIGIT_NINE {
        Some((b - DIGIT_ZERO) as u32)
    } else if LOWER_A <= b <= LOWER_F {
        Some((b - LOWER_A + 10) as u32)
    } else if UPPER_A <= b <= UPPER_F {
        Some((b - UPPER_A + 10) as u32)
    } else {
        None
    }
}

/// Value of the four hexadecimal digits at `i`.
pub open spec fn hex4(s: Seq<u8>, i: int) -> Option<u32> {
    if 0 <= i && i + 4 <= s.len() {
        match (hex_val(s[i]), hex_val(s[i + 1]), hex_val(s[i + 2]), hex_val(s[i + 3])) {
            (Some(a), Some(b), Some(c), Some(d)) => Some(
                (a * 0x1000 + b * 0x100 + c * 0x10 + d) as u32,
            ),
            _ => None,
        }
    } else {
        None
    }
}

fn hex_val_exec(b: u8) -> (r: Option<u32>)
    ensures
        r == hex_val(b),
{
    if DIGIT_ZERO <= b && b <= DIGIT_NINE {
        Some((b - DIGIT_ZERO) as u32)
    } else if LOWER_A <= b && b <= LOWER_F {
        Some((b - LOWER_A + 10) as u32)
    } else if UPPER_A <= b && b <= UPPER_F {
        Some((b - UPPER_A + 10) as u32)
    } else {
        None
    }
}

fn hex4_exec(s: &[u8], i: usize) -> (r: Option<u32>)
    requires
        i <= s@.len(),
    ensures
        r == hex4(s@, i as int),
{
    if s.len() - i < 4 {
        return None;
    }
    let a = hex_val_exec(s[i]);
    let b = hex_val_exec(s[i + 1]);
    let c = hex_val_exec(s[i + 2]);
    let d = hex_val_exec(s[i + 3]);
    match (a, b, c, d) {
        (Some(a), Some(b), Some(c), Some(d)) => Some(a * 0x1000 + b * 0x100 + c * 0x10 + d),
        _ => None,
    }
}

/// UTF-8 encoding of a Unicode scalar value.
pub open spec fn utf8_enc(cp: u32) -> Seq<u8> {
    let c = cp as int;
    if c < 0x80 {
        seq![c as u8]
    } else if c < 0x800 {
        seq![(0xc0 + c / 0x40) as u8, (0x80 + c % 0x40) as u8]
    } else if c < 0x10000 {
        seq![
            (0xe0 + c / 0x1000) as u8,
            (0x80 + (c / 0x40) % 0x40) as u8,
            (0x80 + c % 0x40) as u8,
        ]
    } else {
        seq![
            (0xf0 + c / 0x40000) as u8,
            (0x80 + (c / 0x1000) % 0x40) as u8,
            (0x80 + (c / 0x40) % 0x40) as u8,
            (0x80 + c % 0x40) as u8,
        ]
    }
}

/// Append the UTF-8 encoding of `cp` to `out`.
fn push_utf8(out: &mut Vec<u8>, cp: u32)
    requires
        cp < 0x110000,
    ensures
        final(out)@ == old(out)@ + utf8_enc(cp),
{
    if cp < 0x80 {
        out.push(cp as u8);
    } else if cp < 0x800 {
        out.push((0xc0 + cp / 0x40) as u8);
        out.push((0x80 + cp % 0x40) as u8);
    } else if cp < 0x10000 {
        out.push((0xe0 + cp / 0x1000) as u8);
        out.push((0x80 + (cp / 0x40) % 0x40) as u8);
        out.push((0x80 + cp % 0x40) as u8);
    } else {
        out.push((0xf0 + cp / 0x40000) as u8);
        out.push((0x80 + (cp / 0x1000) % 0x40) as u8);
        out.push((0x80 + (cp / 0x40) % 0x40) as u8);
        out.push((0x80 + cp % 0x40) as u8);
    }
    assert(out@ =~= old(out)@ + utf8_enc(cp));
}

pub const LOWER_L: u8 = 108;
pub const LOWER_S: u8 = 115;

/// Body of a JSON string starting at `i` (just after the opening quote),
/// with the bytes decoded so far in `acc`. Yields the decoded bytes and the
/// index just past the closing quote. Escapes follow the JSON grammar,
/// including `\uXXXX` with surrogate pairs; raw control bytes are rejected.
pub open spec fn str_body(s: Seq<u8>, i: int, acc: Seq<u8>) -> Option<(Seq<u8>, int)>
    decreases s.len() - i,
{
    if !(0 <= i < s.len()) {
        None
    } else {
        let b = s[i];
        if b == QUOTE {
            Some((acc, i + 1))
        } else if b == BACKSLASH {
            if i + 1 >= s.len() {
                None
            } else {
                let e = s[i + 1];
                if e == QUOTE {
                    str_body(s, i + 2, acc.push(QUOTE))
                } else if e == BACKSLASH {
                    str_body(s, i + 2, acc.push(BACKSLASH))
                } else if e == SLASH {
                    str_body(s, i + 2, acc.push(SLASH))
                } else if e == LOWER_B {
                    str_body(s, i + 2, acc.push(BS_CTRL))
                } else if e == LOWER_F {
                    str_body(s, i + 2, acc.push(FF_CTRL))
                } else if e == LOWER_N {
                    str_body(s, i + 2, acc.push(LF))
                } else if e == LOWER_R {
                    str_body(s, i + 2, acc.push(CR))
                } else if e == LOWER_T {
                    str_body(s, i + 2, acc.push(TAB))
                } else if e == LOWER_U {
                    match hex4(s, i + 2) {
                        None => None,
                        Some(cp) => {
                            if 0xd800 <= cp < 0xdc00 {
                                if i + 8 < s.len() && s[i + 6] == BACKSLASH && s[i + 7]
                                    == LOWER_U {
                                    match hex4(s, i + 8) {
                                        None => None,
                                        Some(lo) => {
                                            if 0xdc00 <= lo < 0xe000 {
                                                str_body(
                                                    s,
                                                    i + 12,
                                                    acc + utf8_enc(
                                                        (0x10000 + (cp - 0xd800) * 0x400 + (lo
                                                            - 0xdc00)) as u32,
                                                    ),
                                                )
                                            } else {
                                                None
                                            }
                                        },
                                    }
                                } else {
                                    None
                                }
                            } else if 0xdc00 <= cp < 0xe000 {
                                None
                            } else {
                                str_body(s, i + 6, acc + utf8_enc(cp))
                            }
                        },
                    }
                } else {
                    None
                }
            }
        } else if b < SPACE {
            None
        } else {
            str_body(s, i + 1, acc.push(b))
        }
    }
}

/// Parse the body of a JSON string; `i` points just after the opening quote.
pub fn parse_string(s: &[u8], i: usize) -> (r: Option<(Vec<u8>, usize)>)
    requires
        i <= s@.len(),
    ensures
        r is None ==> str_body(s@, i as int, seq![]) is None,
        r matches Some(ve) ==> str_body(s@, i as int, seq![]) == Some((ve.0@, ve.1 as int))
            && ve.1 <= s@.len(),
{
    let mut j = i;
    let mut out: Vec<u8> = Vec::new();
    loop
        invariant
            i <= j <= s@.len(),
            str_body(s@, i as int, seq![]) == str_body(s@, j as int, out@),
        decreases s@.len() - j,
    {
        if j >= s.len() {
            return None;
        }
        let b = s[j];
        if b == QUOTE {
            return Some((out, j + 1));
        } else if b == BACKSLASH {
            if s.len() - j < 2 {
                return None;
            }
            let e = s[j + 1];
            if e == QUOTE {
                out.push(QUOTE);
                j = j + 2;
            } else if e == BACKSLASH {
                out.push(BACKSLASH);
                j = j + 2;
            } else if e == SLASH {
                out.push(SLASH);
                j = j + 2;
            } else if e == LOWER_B {
                out.push(BS_CTRL);
                j = j + 2;
            } else if e == LOWER_F {
                out.push(FF_CTRL);
                j = j + 2;
            } else if e == LOWER_N {
                out.push(LF);
                j = j + 2;
            } else if e == LOWER_R {
                out.push(CR);
                j = j + 2;
            } else if e == LOWER_T {
                out.push(TAB);
                j = j + 2;
            } else if e == LOWER_U {
                match hex4_exec(s, j + 2) {
                    None => {
                        return None;
                    },
                    Some(cp) => {
                        if 0xd800 <= cp && cp < 0xdc00 {
                            if s.len() - j > 8 && s[j + 6] == BACKSLASH && s[j + 7] == LOWER_U {
                                match hex4_exec(s, j + 8) {
                                    None => {
                                        return None;
                                    },
                                    Some(lo) => {
                                        if 0xdc00 <= lo && lo < 0xe000 {
                                            let scalar = 0x10000 + (cp - 0xd800) * 0x400 + (lo
                                                - 0xdc00);
                                            push_utf8(&mut out, scalar);
                                            j = j + 12;
                                        } else {
                                            return None;
                                        }
                                    },
                                }
                            } else {
                                return None;
                            }
                        } else if 0xdc00 <= cp && cp < 0xe000 {
                            return None;
                        } else {
                            push_utf8(&mut out, cp);
                            j = j + 6;
                        }
                    },
                }
            } else {
                return None;
            }
        } else if b < SPACE {
            return None;
        } else {
            out.push(b);
            j = j + 1;
        }
    }
}

/// End of the fraction part (if any) starting at `i`.
pub open spec fn frac_end(s: Seq<u8>, i: int) -> Option<int> {
    if 0 <= i < s.len() && s[i] == DOT {
        if i + 1 < s.len() && is_digit_byte(s[i + 1]) {
            Some(digits_end(s, i + 1))
        } else {
            None
        }
    } else {
        Some(i)
    }
}

/// End of the exponent part (if any) starting at `i`.
pub open spec fn exp_end(s: Seq<u8>, i: int) -> Option<int> {
    if 0 <= i < s.len() && (s[i] == LOWER_E || s[i] == UPPER_E) {
        let k = if i + 1 < s.len() && (s[i + 1] == PLUS || s[i + 1] == MINUS) {
            i + 2
        } else {
            i + 1
        };
        if k < s.len() && is_digit_byte(s[k]) {
            Some(digits_end(s, k))
        } else {
            None
        }
    } else {
        Some(i)
    }
}

/// End of the JSON number starting at `i`, if one starts there.
pub open spec fn number_end(s: Seq<u8>, i: int) -> Option<int> {
    let j = if 0 <= i < s.len() && s[i] == MINUS {
        i + 1
    } else {
        i
    };
    if !(0 <= j < s.len() && is_digit_byte(s[j])) {
        None
    } else {
        let int_end = if s[j] == DIGIT_ZERO {
            j + 1
        } else {
            digits_end(s, j)
        };
        match frac_end(s, int_end) {
            None => None,
            Some(fe) => exp_end(s, fe),
        }
    }
}

/// Scan past the JSON number starting at `i`.
pub fn skip_number(s: &[u8], i: usize) -> (r: Option<usize>)
    requires
        i <= s@.len(),
    ensures
        r is None ==> number_end(s@, i as int) is None,
        r matches Some(e) ==> number_end(s@, i as int) == Some(e as int) && e <= s@.len(),
{
    let j = if i < s.len() && s[i] == MINUS {
        i + 1
    } else {
        i
    };
    if !(j < s.len() && is_digit_exec(s[j])) {
        return None;
    }
    let int_end = if s[j] == DIGIT_ZERO {
        j + 1
    } else {
        skip_digits(s, j)
    };
    // fraction
    let fe: usize;
    if int_end < s.len() && s[int_end] == DOT {
        if int_end + 1 < s.len() && is_digit_exec(s[int_end + 1]) {
            fe = skip_digits(s, int_end + 1);
        } else {
            return None;
        }
    } else {
        fe = int_end;
    }
    // exponent
    if fe < s.len() && (s[fe] == LOWER_E || s[fe] == UPPER_E) {
        let k = if fe + 1 < s.len() && (s[fe + 1] == PLUS || s[fe + 1] == MINUS) {
            fe + 2
        } else {
            fe + 1
        };
        if k < s.len() && is_digit_exec(s[k]) {
            Some(skip_digits(s, k))
        } else {
            None
        }
    } else {
        Some(fe)
    }
}

pub open spec fn null_at(s: Seq<u8>, i: int) -> bool {
    &&& 0 <= i
    &&& i + 4 <= s.len()
    &&& s[i] == LOWER_N
    &&& s[i + 1] == LOWER_U
    &&& s[i + 2] == LOWER_L
    &&& s[i + 3] == LOWER_L
}

pub open spec fn true_at(s: Seq<u8>, i: int) -> bool {
    &&& 0 <= i
    &&& i + 4 <= s.len()
    &&& s[i] == LOWER_T
    &&& s[i + 1] == LOWER_R
    &&& s[i + 2] == LOWER_U
    &&& s[i + 3] == LOWER_E
}

pub open spec fn false_at(s: Seq<u8>, i: int) -> bool {
    &&& 0 <= i
    &&& i + 5 <= s.len()
    &&& s[i] == LOWER_F
    &&& s[i + 1] == LOWER_A
    &&& s[i + 2] == LOWER_L
    &&& s[i + 3] == LOWER_S
    &&& s[i + 4] == LOWER_E
}

pub fn null_at_exec(s: &[u8], i: usize) -> (r: bool)
    requires
        i <= s@.len(),
    ensures
        r == null_at(s@, i as int),
{
    s.len() - i >= 4 && s[i] == LOWER_N && s[i + 1] == LOWER_U && s[i + 2] == LOWER_L && s[i + 3]
        == LOWER_L
}

fn true_at_exec(s: &[u8], i: usize) -> (r: bool)
    requires
        i <= s@.len(),
    ensures
        r == true_at(s@, i as int),
{
    s.len() - i >= 4 && s[i] == LOWER_T && s[i + 1] == LOWER_R && s[i + 2] == LOWER_U && s[i + 3]
        == LOWER_E
}

fn false_at_exec(s: &[u8], i: usize) -> (r: bool)
    requires
        i <= s@.len(),
    ensures
        r == false_at(s@, i as int),
{
    s.len() - i >= 5 && s[i] == LOWER_F && s[i + 1] == LOWER_A && s[i + 2] == LOWER_L && s[i + 3]
        == LOWER_S && s[i + 4] == LOWER_E
}

/// Depth budget for nested containers, mirroring the usual recursion limit
/// of JSON decoders.
pub const MAX_DEPTH: u32 = 128;

/// End of the JSON value starting at `i`, with `depth` remaining levels of
/// container nesting allowed. `None` when no well-formed value starts there.
pub open spec fn value_end(s: Seq<u8>, i: int, depth: u32) -> Option<int>
    decreases depth, s.len() - i, 0int,
{
    if !(0 <= i < s.len()) {
        None
    } else {
        let b = s[i];
        if b == QUOTE {
            match str_body(s, i + 1, seq![]) {
                None => None,
                Some(ve) => Some(ve.1),
            }
        } else if b == LBRACE {
            if depth == 0 {
                None
            } else {
                let k = ws_end(s, i + 1);
                if i < k <= s.len() {
                    object_rest(s, k, (depth - 1) as u32, true)
                } else {
                    None
                }
            }
        } else if b == LBRACKET {
            if depth == 0 {
                None
            } else {
                let k = ws_end(s, i + 1);
                if i < k <= s.len() {
                    array_rest(s, k, (depth - 1) as u32, true)
                } else {
                    None
                }
            }
        } else if null_at(s, i) || true_at(s, i) {
            Some(i + 4)
        } else if false_at(s, i) {
            Some(i + 5)
        } else if b == MINUS || is_digit_byte(b) {
            number_end(s, i)
        } else {
            None
        }
    }
}

/// Remainder of a JSON array, starting at the first non-whitespace byte
/// after `[` (when `first`) or after a comma.
pub open spec fn array_rest(s: Seq<u8>, i: int, depth: u32, first: bool) -> Option<int>
    decreases depth, s.len() - i, 1int,
{
    if !(0 <= i < s.len()) {
        None
    } else if first && s[i] == RBRACKET {
        Some(i + 1)
    } else {
        match value_end(s, i, depth) {
            None => None,
            Some(j) => {
                if !(i < j <= s.len()) {
                    None
                } else {
                    let k = ws_end(s, j);
                    if !(k < s.len()) {
                        None
                    } else if s[k] == RBRACKET {
                        Some(k + 1)
                    } else if s[k] == COMMA {
                        let n = ws_end(s, k + 1);
                        if i < n <= s.len() {
                            array_rest(s, n, depth, false)
                        } else {
                            None
                        }
                    } else {
                        None
                    }
                }
            },
        }
    }
}

/// Remainder of a JSON object, starting at the first non-whitespace byte
/// after `{` (when `first`) or after a comma.
pub open spec fn object_rest(s: Seq<u8>, i: int, depth: u32, first: bool) -> Option<int>
    decreases depth, s.len() - i, 1int,
{
    if !(0 <= i < s.len()) {
        None
    } else if first && s[i] == RBRACE {
        Some(i + 1)
    } else if s[i] != QUOTE {
        None
    } else {
        match str_body(s, i + 1, seq![]) {
            None => None,
            Some(ke) => {
                let k = ws_end(s, ke.1);
                if !(i < k < s.len() && s[k] == COLON) {
                    None
                } else {
                    let v = ws_end(s, k + 1);
                    if !(i < v <= s.len()) {
                        None
                    } else {
                        match value_end(s, v, depth) {
                            None => None,
                            Some(j) => {
                                if !(i < j <= s.len()) {
                                    None
                                } else {
                                    let m = ws_end(s, j);
                                    if !(m < s.len()) {
                                        None
                                    } else if s[m] == RBRACE {
                                        Some(m + 1)
                                    } else if s[m] == COMMA {
                                        let n = ws_end(s, m + 1);
                                        if i < n <= s.len() {
                                            object_rest(s, n, depth, false)
                                        } else {
                                            None
                                        }
                                    } else {
                                        None
                                    }
                                }
                            },
                        }
                    }
                }
            },
        }
    }
}

/// Scan past the JSON value starting at `i`.
pub fn skip_value(s: &[u8], i: usize, depth: u32) -> (r: Option<usize>)
    requires
        i <= s@.len(),
    ensures
        r is None ==> value_end(s@, i as int, depth) is None,
        r matches Some(e) ==> value_end(s@, i as int, depth) == Some(e as int) && e <= s@.len(),
    decreases depth, s@.len() - i, 0int,
{
    if i >= s.len() {
        return None;
    }
    let b = s[i];
    if b == QUOTE {
        match parse_string(s, i + 1) {
            None => None,
            Some(ve) => Some(ve.1),
        }
    } else if b == LBRACE {
        if depth == 0 {
            return None;
        }
        let k = skip_ws(s, i + 1);
        if i < k && k <= s.len() {
            skip_object_rest(s, k, depth - 1, true)
        } else {
            None
        }
    } else if b == LBRACKET {
        if depth == 0 {
            return None;
        }
        let k = skip_ws(s, i + 1);
        if i < k && k <= s.len() {
            skip_array_rest(s, k, depth - 1, true)
        } else {
            None
        }
    } else if null_at_exec(s, i) || true_at_exec(s, i) {
        Some(i + 4)
    } else if false_at_exec(s, i) {
        Some(i + 5)
    } else if b == MINUS || is_digit_exec(b) {
        skip_number(s, i)
    } else {
        None
    }
}

/// Scan past the remainder of a JSON array.
pub fn skip_array_rest(s: &[u8], i: usize, depth: u32, first: bool) -> (r: Option<usize>)
    requires
        i <= s@.len(),
    ensures
        r is None ==> array_rest(s@, i as int, depth, first) is None,
        r matches Some(e) ==> array_rest(s@, i as int, depth, first) == Some(e as int) && e
            <= s@.len(),
    decreases depth, s@.len() - i, 1int,
{
    if i >= s.len() {
        return None;
    }
    if first && s[i] == RBRACKET {
        return Some(i + 1);
    }
    match skip_value(s, i, depth) {
        None => None,
        Some(j) => {
            if !(i < j && j <= s.len()) {
                return None;
            }
            let k = skip_ws(s, j);
            if !(k < s.len()) {
                None
            } else if s[k] == RBRACKET {
                Some(k + 1)
            } else if s[k] == COMMA {
                let n = skip_ws(s, k + 1);
                if i < n && n <= s.len() {
                    skip_array_rest(s, n, depth, false)
                } else {
                    None
                }
            } else {
                None
            }
        },
    }
}

/// Scan past the remainder of a JSON object.
pub fn skip_object_rest(s: &[u8], i: usize, depth: u32, first: bool) -> (r: Option<usize>)
    requires
        i <= s@.len(),
    ensures
        r is None ==> object_rest(s@, i as int, depth, first) is None,
        r matches Some(e) ==> object_rest(s@, i as int, depth, first) == Some(e as int) && e
            <= s@.len(),
    decreases depth, s@.len() - i, 1int,
{
    if i >= s.len() {
        return None;
    }
    if first && s[i] == RBRACE {
        return Some(i + 1);
    }
    if s[i] != QUOTE {
        return None;
    }
    match parse_string(s, i + 1) {
        None => None,
        Some(ke) => {
            let k = skip_ws(s, ke.1);
            if !(i < k && k < s.len() && s[k] == COLON) {
                return None;
            }
            let v = skip_ws(s, k + 1);
            if !(i < v && v <= s.len()) {
                return None;
            }
            match skip_value(s, v, depth) {
                None => None,
                Some(j) => {
                    if !(i < j && j <= s.len()) {
                        return None;
                    }
                    let m = skip_ws(s, j);
                    if !(m < s.len()) {
                        None
                    } else if s[m] == RBRACE {
                        Some(m + 1)
                    } else if s[m] == COMMA {
                        let n = skip_ws(s, m + 1);
                        if i < n && n <= s.len() {
                            skip_object_rest(s, n, depth, false)
                        } else {
                            None
                        }
                    } else {
                        None
                    }
                },
            }
        },
    }
}

} // verus!
