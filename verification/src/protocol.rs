//! Schema-level decoding of the gateway's wire envelopes, built on the JSON
//! grammar in `json`:
//!
//! * streamed chat-completion delta frames
//!   `{"choices":[{"delta":{"content"?: string|null}, ...}, ...]}`,
//! * blocking chat-completion responses
//!   `{"choices":[{"message":{"content": string}, ...}, ...]}`,
//! * extraction-worker envelopes `{"text": ...}` / `{"error": ...}`.
//!
//! A decoder returns `None` exactly when the input is not one well-formed
//! envelope of the expected shape followed only by whitespace.
use vstd::prelude::*;
use crate::json::{
    ws_end, str_body, value_end, null_at, QUOTE, LBRACE, RBRACE, LBRACKET, RBRACKET, COMMA, COLON,
    MAX_DEPTH, skip_ws, parse_string, skip_value, null_at_exec,
};

verus! {

/// The bytes of the member name `content`.
pub open spec fn key_content() -> Seq<u8> {
    seq![99u8, 111u8, 110u8, 116u8, 101u8, 110u8, 116u8]
}

/// The bytes of the member name `delta`.
pub open spec fn key_delta() -> Seq<u8> {
    seq![100u8, 101u8, 108u8, 116u8, 97u8]
}

/// The bytes of the member name `choices`.
pub open spec fn key_choices() -> Seq<u8> {
    seq![99u8, 104u8, 111u8, 105u8, 99u8, 101u8, 115u8]
}

/// The bytes of the member name `message`.
pub open spec fn key_message() -> Seq<u8> {
    seq![109u8, 101u8, 115u8, 115u8, 97u8, 103u8, 101u8]
}

/// The bytes of the member name `text`.
pub open spec fn key_text() -> Seq<u8> {
    seq![116u8, 101u8, 120u8, 116u8]
}

/// The bytes of the member name `error`.
pub open spec fn key_error() -> Seq<u8> {
    seq![101u8, 114u8, 114u8, 111u8, 114u8]
}

pub fn key_content_vec() -> (r: Vec<u8>)
    ensures
        r@ == key_content(),
{
    let mut v: Vec<u8> = Vec::new();
    v.push(99);
    v.push(111);
    v.push(110);
    v.push(116);
    v.push(101);
    v.push(110);
    v.push(116);
    assert(v@ =~= key_content());
    v
}

pub fn key_delta_vec() -> (r: Vec<u8>)
    ensures
        r@ == key_delta(),
{
    let mut v: Vec<u8> = Vec::new();
    v.push(100);
    v.push(101);
    v.push(108);
    v.push(116);
    v.push(97);
    assert(v@ =~= key_delta());
    v
}

pub fn key_choices_vec() -> (r: Vec<u8>)
    ensures
        r@ == key_choices(),
{
    let mut v: Vec<u8> = Vec::new();
    v.push(99);
    v.push(104);
    v.push(111);
    v.push(105);
    v.push(99);
    v.push(101);
    v.push(115);
    assert(v@ =~= key_choices());
    v
}

pub fn key_message_vec() -> (r: Vec<u8>)
    ensures
        r@ == key_message(),
{
    let mut v: Vec<u8> = Vec::new();
    v.push(109);
    v.push(101);
    v.push(115);
    v.push(115);
    v.push(97);
    v.push(103);
    v.push(101);
    assert(v@ =~= key_message());
    v
}

pub fn key_text_vec() -> (r: Vec<u8>)
    ensures
        r@ == key_text(),
{
    let mut v: Vec<u8> = Vec::new();
    v.push(116);
    v.push(101);
    v.push(120);
    v.push(116);
    assert(v@ =~= key_text());
    v
}

pub fn key_error_vec() -> (r: Vec<u8>)
    ensures
        r@ == key_error(),
{
    let mut v: Vec<u8> = Vec::new();
    v.push(101);
    v.push(114);
    v.push(114);
    v.push(111);
    v.push(114);
    assert(v@ =~= key_error());
    v
}

/// Byte-wise equality of two byte strings.
pub fn bytes_eq(a: &[u8], b: &[u8]) -> (r: bool)
    ensures
        r == (a@ == b@),
{
    if a.len() != b.len() {
        assert(a@ != b@);
        return false;
    }
    let mut i: usize = 0;
    while i < a.len()
        invariant
            i <= a@.len(),
            a@.len() == b@.len(),
            forall|k: int| 0 <= k < i ==> a@[k] == b@[k],
        decreases a@.len() - i,
    {
        if a[i] != b[i] {
            return false;
        }
        i = i + 1;
    }
    assert(a@ =~= b@);
    true
}

/// The view of an optional byte buffer.
pub open spec fn opt_view(c: Option<Vec<u8>>) -> Option<Seq<u8>> {
    match c {
        Some(v) => Some(v@),
        None => None,
    }
}

/// Members of a streamed `delta` object, starting at the first
/// non-whitespace byte after `{` or after a comma. `seen`/`content` carry
/// whether a `content` member was already read and its value (`None` for a
/// JSON `null`). Yields the content and the index past the closing brace.
/// A `content` member of any other type, or a repeated one, rejects the
/// frame.
pub open spec fn delta_members(
    s: Seq<u8>,
    i: int,
    first: bool,
    seen: bool,
    content: Option<Seq<u8>>,
) -> Option<(Option<Seq<u8>>, int)>
    decreases s.len() - i,
{
    if !(0 <= i < s.len()) {
        None
    } else if first && s[i] == RBRACE {
        Some((content, i + 1))
    } else if s[i] != QUOTE {
        None
    } else {
        match str_body(s, i + 1, seq![]) {
            None => None,
            Some(ke) => {
                let k = ws_end(s, ke.1);
                if !(i < k < s.len() && s[k] == COLON) {
                    None
                } else {
                    let v = ws_end(s, k + 1);
                    if !(i < v <= s.len()) {
                        None
                    } else {
                        let step: Option<(bool, Option<Seq<u8>>, int)> = if ke.0 == key_content() {
                            if seen {
                                None
                            } else if v < s.len() && s[v] == QUOTE {
                                match str_body(s, v + 1, seq![]) {
                                    None => None,
                                    Some(cv) => Some((true, Some(cv.0), cv.1)),
                                }
                            } else if null_at(s, v) {
                                Some((true, None, v + 4))
                            } else {
                                None
                            }
                        } else {
                            match value_end(s, v, MAX_DEPTH) {
                                None => None,
                                Some(j) => Some((seen, content, j)),
                            }
                        };
                        match step {
                            None => None,
                            Some((seen2, content2, j)) => {
                                if !(i < j <= s.len()) {
                                    None
                                } else {
                                    let m = ws_end(s, j);
                                    if !(m < s.len()) {
                                        None
                                    } else if s[m] == RBRACE {
                                        Some((content2, m + 1))
                                    } else if s[m] == COMMA {
                                        let n = ws_end(s, m + 1);
                                        if i < n <= s.len() {
                                            delta_members(s, n, false, seen2, content2)
                                        } else {
                                            None
                                        }
                                    } else {
                                        None
                                    }
                                }
                            },
                        }
                    }
                }
            },
        }
    }
}

/// Members of one element of `choices` in a streamed frame. The element
/// must carry a `delta` object member; `delta` holds its content once seen.
pub open spec fn choice_members(
    s: Seq<u8>,
    i: int,
    first: bool,
    delta: Option<Option<Seq<u8>>>,
) -> Option<(Option<Seq<u8>>, int)>
    decreases s.len() - i,
{
    if !(0 <= i < s.len()) {
        None
    } else if first && s[i] == RBRACE {
        match delta {
            None => None,
            Some(c) => Some((c, i + 1)),
        }
    } else if s[i] != QUOTE {
        None
    } else {
        match str_body(s, i + 1, seq![]) {
            None => None,
            Some(ke) => {
                let k = ws_end(s, ke.1);
                if !(i < k < s.len() && s[k] == COLON) {
                    None
                } else {
                    let v = ws_end(s, k + 1);
                    if !(i < v <= s.len()) {
                        None
                    } else {
                        let step: Option<(Option<Option<Seq<u8>>>, int)> = if ke.0 == key_delta() {
                            if delta is Some {
                                None
                            } else if v < s.len() && s[v] == LBRACE {
                                let d = ws_end(s, v + 1);
                                if v < d <= s.len() {
                                    match delta_members(s, d, true, false, None) {
                                        None => None,
                                        Some(ce) => Some((Some(ce.0), ce.1)),
                                    }
                                } else {
                                    None
                                }
                            } else {
                                None
                            }
                        } else {
                            match value_end(s, v, MAX_DEPTH) {
                                None => None,
                                Some(j) => Some((delta, j)),
                            }
                        };
                        match step {
                            None => None,
                            Some((delta2, j)) => {
                                if !(i < j <= s.len()) {
                                    None
                                } else {
                                    let m = ws_end(s, j);
                                    if !(m < s.len()) {
                                        None
                                    } else if s[m] == RBRACE {
                                        match delta2 {
                                            None => None,
                                            Some(c) => Some((c, m + 1)),
                                        }
                                    } else if s[m] == COMMA {
                                        let n = ws_end(s, m + 1);
                                        if i < n <= s.len() {
                                            choice_members(s, n, false, delta2)
                                        } else {
                                            None
                                        }
                                    } else {
                                        None
                                    }
                                }
                            },
                        }
                    }
                }
            },
        }
    }
}

/// Elements of the `choices` array of a streamed frame, starting at the
/// first non-whitespace byte after `[` or after a comma. Each element must
/// be an object; `acc` collects each element's delta content.
pub open spec fn choices_items(
    s: Seq<u8>,
    i: int,
    first: bool,
    acc: Seq<Option<Seq<u8>>>,
) -> Option<(Seq<Option<Seq<u8>>>, int)>
    decreases s.len() - i,
{
    if !(0 <= i < s.len()) {
        None
    } else if first && s[i] == RBRACKET {
        Some((acc, i + 1))
    } else if s[i] != LBRACE {
        None
    } else {
        let d = ws_end(s, i + 1);
        if !(i < d <= s.len()) {
            None
        } else {
            match choice_members(s, d, true, None) {
                None => None,
                Some(ce) => {
                    if !(i < ce.1 <= s.len()) {
                        None
                    } else {
                        let m = ws_end(s, ce.1);
                        if !(m < s.len()) {
                            None
                        } else if s[m] == RBRACKET {
                            Some((acc.push(ce.0), m + 1))
                        } else if s[m] == COMMA {
                            let n = ws_end(s, m + 1);
                            if i < n <= s.len() {
                                choices_items(s, n, false, acc.push(ce.0))
                            } else {
                                None
                            }
                        } else {
                            None
                        }
                    }
                },
            }
        }
    }
}

/// Members of the top-level streamed frame object. The frame must carry a
/// `choices` array member.
pub open spec fn frame_members(
    s: Seq<u8>,
    i: int,
    first: bool,
    choices: Option<Seq<Option<Seq<u8>>>>,
) -> Option<(Seq<Option<Seq<u8>>>, int)>
    decreases s.len() - i,
{
    if !(0 <= i < s.len()) {
        None
    } else if first && s[i] == RBRACE {
        match choices {
            None => None,
            Some(cs) => Some((cs, i + 1)),
        }
    } else if s[i] != QUOTE {
        None
    } else {
        match str_body(s, i + 1, seq![]) {
            None => None,
            Some(ke) => {
                let k = ws_end(s, ke.1);
                if !(i < k < s.len() && s[k] == COLON) {
                    None
                } else {
                    let v = ws_end(s, k + 1);
                    if !(i < v <= s.len()) {
                        None
                    } else {
                        let step: Option<(Option<Seq<Option<Seq<u8>>>>, int)> = if ke.0
                            == key_choices() {
                            if choices is Some {
                                None
                            } else if v < s.len() && s[v] == LBRACKET {
                                let d = ws_end(s, v + 1);
                                if v < d <= s.len() {
                                    match choices_items(s, d, true, seq![]) {
                                        None => None,
                                        Some(ce) => Some((Some(ce.0), ce.1)),
                                    }
                                } else {
                                    None
                                }
                            } else {
                                None
                            }
                        } else {
                            match value_end(s, v, MAX_DEPTH) {
                                None => None,
                                Some(j) => Some((choices, j)),
                            }
                        };
                        match step {
                            None => None,
                            Some((choices2, j)) => {
                                if !(i < j <= s.len()) {
                                    None
                                } else {
                                    let m = ws_end(s, j);
                                    if !(m < s.len()) {
                                        None
                                    } else if s[m] == RBRACE {
                                        match choices2 {
                                            None => None,
                                            Some(cs) => Some((cs, m + 1)),
                                        }
                                    } else if s[m] == COMMA {
                                        let n = ws_end(s, m + 1);
                                        if i < n <= s.len() {
                                            frame_members(s, n, false, choices2)
                                        } else {
                                            None
                                        }
                                    } else {
                                        None
                                    }
                                }
                            },
                        }
                    }
                }
            },
        }
    }
}

/// Decode one streamed delta frame: the per-choice `delta.content` values,
/// or `None` when the bytes are not one well-formed frame.
pub open spec fn frame_choices(s: Seq<u8>) -> Option<Seq<Option<Seq<u8>>>> {
    let w = ws_end(s, 0);
    if !(0 <= w < s.len() && s[w] == LBRACE) {
        None
    } else {
        let k = ws_end(s, w + 1);
        if !(w < k <= s.len()) {
            None
        } else {
            match frame_members(s, k, true, None) {
                None => None,
                Some(ce) => {
                    if 0 <= ce.1 <= s.len() && ws_end(s, ce.1) == s.len() {
                        Some(ce.0)
                    } else {
                        None
                    }
                },
            }
        }
    }
}

/// Executable mirror of `delta_members`.
pub fn parse_delta_members(
    s: &[u8],
    i: usize,
    first: bool,
    seen: bool,
    content: Option<Vec<u8>>,
) -> (r: Option<(Option<Vec<u8>>, usize)>)
    requires
        i <= s@.len(),
    ensures
        r is None ==> delta_members(s@, i as int, first, seen, opt_view(content)) is None,
        r matches Some(ce) ==> delta_members(s@, i as int, first, seen, opt_view(content))
            == Some((opt_view(ce.0), ce.1 as int)) && ce.1 <= s@.len(),
    decreases s@.len() - i,
{
    if i >= s.len() {
        return None;
    }
    if first && s[i] == RBRACE {
        return Some((content, i + 1));
    }
    if s[i] != QUOTE {
        return None;
    }
    let ke = match parse_string(s, i + 1) {
        None => {
            return None;
        },
        Some(ke) => ke,
    };
    let k = skip_ws(s, ke.1);
    if !(i < k && k < s.len() && s[k] == COLON) {
        return None;
    }
    let v = skip_ws(s, k + 1);
    if !(i < v && v <= s.len()) {
        return None;
    }
    let step: Option<(bool, Option<Vec<u8>>, usize)> = if bytes_eq(
        ke.0.as_slice(),
        key_content_vec().as_slice(),
    ) {
        if seen {
            None
        } else if v < s.len() && s[v] == QUOTE {
            match parse_string(s, v + 1) {
                None => None,
                Some(cv) => Some((true, Some(cv.0), cv.1)),
            }
        } else if null_at_exec(s, v) {
            Some((true, None, v + 4))
        } else {
            None
        }
    } else {
        match skip_value(s, v, MAX_DEPTH) {
            None => None,
            Some(j) => Some((seen, content, j)),
        }
    };
    match step {
        None => None,
        Some((seen2, content2, j)) => {
            if !(i < j && j <= s.len()) {
                return None;
            }
            let m = skip_ws(s, j);
            if !(m < s.len()) {
                None
            } else if s[m] == RBRACE {
                Some((content2, m + 1))
            } else if s[m] == COMMA {
                let n = skip_ws(s, m + 1);
                if i < n && n <= s.len() {
                    parse_delta_members(s, n, false, seen2, content2)
                } else {
                    None
                }
            } else {
                None
            }
        },
    }
}

/// Executable mirror of `choice_members`.
pub fn parse_choice_members(s: &[u8], i: usize, first: bool, delta: Option<Option<Vec<u8>>>) -> (r:
    Option<(Option<Vec<u8>>, usize)>)
    requires
        i <= s@.len(),
    ensures
        r is None ==> choice_members(s@, i as int, first, opt2_view(delta)) is None,
        r matches Some(ce) ==> choice_members(s@, i as int, first, opt2_view(delta)) == Some(
            (opt_view(ce.0), ce.1 as int),
        ) && ce.1 <= s@.len(),
    decreases s@.len() - i,
{
    if i >= s.len() {
        return None;
    }
    if first && s[i] == RBRACE {
        return match delta {
            None => None,
            Some(c) => Some((c, i + 1)),
        };
    }
    if s[i] != QUOTE {
        return None;
    }
    let ke = match parse_string(s, i + 1) {
        None => {
            return None;
        },
        Some(ke) => ke,
    };
    let k = skip_ws(s, ke.1);
    if !(i < k && k < s.len() && s[k] == COLON) {
        return None;
    }
    let v = skip_ws(s, k + 1);
    if !(i < v && v <= s.len()) {
        return None;
    }
    let step: Option<(Option<Option<Vec<u8>>>, usize)> = if bytes_eq(
        ke.0.as_slice(),
        key_delta_vec().as_slice(),
    ) {
        if delta.is_some() {
            None
        } else if v < s.len() && s[v] == LBRACE {
            let d = skip_ws(s, v + 1);
            if v < d && d <= s.len() {
                match parse_delta_members(s, d, true, false, None) {
                    None => None,
                    Some(ce) => Some((Some(ce.0), ce.1)),
                }
            } else {
                None
            }
        } else {
            None
        }
    } else {
        match skip_value(s, v, MAX_DEPTH) {
            None => None,
            Some(j) => Some((delta, j)),
        }
    };
    match step {
        None => None,
        Some((delta2, j)) => {
            if !(i < j && j <= s.len()) {
                return None;
            }
            let m = skip_ws(s, j);
            if !(m < s.len()) {
                None
            } else if s[m] == RBRACE {
                match delta2 {
                    None => None,
                    Some(c) => Some((c, m + 1)),
                }
            } else if s[m] == COMMA {
                let n = skip_ws(s, m + 1);
                if i < n && n <= s.len() {
                    parse_choice_members(s, n, false, delta2)
                } else {
                    None
                }
            } else {
                None
            }
        },
    }
}

/// The view of a doubly optional byte buffer.
pub open spec fn opt2_view(c: Option<Option<Vec<u8>>>) -> Option<Option<Seq<u8>>> {
    match c {
        Some(v) => Some(opt_view(v)),
        None => None,
    }
}

/// The views of a sequence of optional byte buffers.
pub open spec fn opts_view(cs: Seq<Option<Vec<u8>>>) -> Seq<Option<Seq<u8>>> {
    cs.map_values(|c: Option<Vec<u8>>| opt_view(c))
}

/// Executable mirror of `choices_items`.
pub fn parse_choices_items(s: &[u8], i: usize, first: bool, acc: Vec<Option<Vec<u8>>>) -> (r:
    Option<(Vec<Option<Vec<u8>>>, usize)>)
    requires
        i <= s@.len(),
    ensures
        r is None ==> choices_items(s@, i as int, first, opts_view(acc@)) is None,
        r matches Some(ce) ==> choices_items(s@, i as int, first, opts_view(acc@)) == Some(
            (opts_view(ce.0@), ce.1 as int),
        ) && ce.1 <= s@.len(),
    decreases s@.len() - i,
{
    let ghost acc0 = acc@;
    let mut acc = acc;
    if i >= s.len() {
        return None;
    }
    if first && s[i] == RBRACKET {
        return Some((acc, i + 1));
    }
    if s[i] != LBRACE {
        return None;
    }
    let d = skip_ws(s, i + 1);
    if !(i < d && d <= s.len()) {
        return None;
    }
    match parse_choice_members(s, d, true, None) {
        None => None,
        Some(ce) => {
            if !(i < ce.1 && ce.1 <= s.len()) {
                return None;
            }
            let m = skip_ws(s, ce.1);
            if !(m < s.len()) {
                None
            } else if s[m] == RBRACKET {
                acc.push(ce.0);
                assert(opts_view(acc@) =~= opts_view(acc0).push(opt_view(ce.0)));
                Some((acc, m + 1))
            } else if s[m] == COMMA {
                let n = skip_ws(s, m + 1);
                if i < n && n <= s.len() {
                    acc.push(ce.0);
                    assert(opts_view(acc@) =~= opts_view(acc0).push(opt_view(ce.0)));
                    parse_choices_items(s, n, false, acc)
                } else {
                    None
                }
            } else {
                None
            }
        },
    }
}

/// Executable mirror of `frame_members`.
#[verifier::rlimit(60)]
pub fn parse_frame_members(
    s: &[u8],
    i: usize,
    first: bool,
    choices: Option<Vec<Option<Vec<u8>>>>,
) -> (r: Option<(Vec<Option<Vec<u8>>>, usize)>)
    requires
        i <= s@.len(),
    ensures
        r is None ==> frame_members(s@, i as int, first, optchoices_view(choices)) is None,
        r matches Some(ce) ==> frame_members(s@, i as int, first, optchoices_view(choices))
            == Some((opts_view(ce.0@), ce.1 as int)) && ce.1 <= s@.len(),
    decreases s@.len() - i,
{
    if i >= s.len() {
        return None;
    }
    if first && s[i] == RBRACE {
        return match choices {
            None => None,
            Some(cs) => Some((cs, i + 1)),
        };
    }
    if s[i] != QUOTE {
        return None;
    }
    let ke = match parse_string(s, i + 1) {
        None => {
            return None;
        },
        Some(ke) => ke,
    };
    let k = skip_ws(s, ke.1);
    if !(i < k && k < s.len() && s[k] == COLON) {
        return None;
    }
    let v = skip_ws(s, k + 1);
    if !(i < v && v <= s.len()) {
        return None;
    }
    let step: Option<(Option<Vec<Option<Vec<u8>>>>, usize)> = if bytes_eq(
        ke.0.as_slice(),
        key_choices_vec().as_slice(),
    ) {
        if choices.is_some() {
            None
        } else if v < s.len() && s[v] == LBRACKET {
            let d = skip_ws(s, v + 1);
            if v < d && d <= s.len() {
                let empty_acc: Vec<Option<Vec<u8>>> = Vec::new();
                proof {
                    assert(opts_view(empty_acc@) =~= Seq::<Option<Seq<u8>>>::empty());
                }
                match parse_choices_items(s, d, true, empty_acc) {
                    None => None,
                    Some(ce) => Some((Some(ce.0), ce.1)),
                }
            } else {
                None
            }
        } else {
            None
        }
    } else {
        match skip_value(s, v, MAX_DEPTH) {
            None => None,
            Some(j) => Some((choices, j)),
        }
    };
    match step {
        None => None,
        Some((choices2, j)) => {
            if !(i < j && j <= s.len()) {
                return None;
            }
            let m = skip_ws(s, j);
            if !(m < s.len()) {
                None
            } else if s[m] == RBRACE {
                match choices2 {
                    None => None,
                    Some(cs) => Some((cs, m + 1)),
                }
            } else if s[m] == COMMA {
                let n = skip_ws(s, m + 1);
                if i < n && n <= s.len() {
                    parse_frame_members(s, n, false, choices2)
                } else {
                    None
                }
            } else {
                None
            }
        },
    }
}

/// The view of optional collected choices.
pub open spec fn optchoices_view(c: Option<Vec<Option<Vec<u8>>>>) -> Option<
    Seq<Option<Seq<u8>>>,
> {
    match c {
        Some(cs) => Some(opts_view(cs@)),
        None => None,
    }
}

/// Decode one streamed delta frame.
pub fn parse_frame_choices(s: &[u8]) -> (r: Option<Vec<Option<Vec<u8>>>>)
    ensures
        r is None ==> frame_choices(s@) is None,
        r matches Some(cs) ==> frame_choices(s@) == Some(opts_view(cs@)),
{
    let w = skip_ws(s, 0);
    if !(w < s.len() && s[w] == LBRACE) {
        return None;
    }
    let k = skip_ws(s, w + 1);
    match parse_frame_members(s, k, true, None) {
        None => None,
        Some(ce) => {
            if skip_ws(s, ce.1) == s.len() {
                Some(ce.0)
            } else {
                None
            }
        },
    }
}

/// Members of a blocking-response `message` object. The `content` member is
/// required and must be a string.
pub open spec fn message_members(s: Seq<u8>, i: int, first: bool, content: Option<Seq<u8>>) -> Option<
    (Seq<u8>, int),
>
    decreases s.len() - i,
{
    if !(0 <= i < s.len()) {
        None
    } else if first && s[i] == RBRACE {
        match content {
            None => None,
            Some(c) => Some((c, i + 1)),
        }
    } else if s[i] != QUOTE {
        None
    } else {
        match str_body(s, i + 1, seq![]) {
            None => None,
            Some(ke) => {
                let k = ws_end(s, ke.1);
                if !(i < k < s.len() && s[k] == COLON) {
                    None
                } else {
                    let v = ws_end(s, k + 1);
                    if !(i < v <= s.len()) {
                        None
                    } else {
                        let step: Option<(Option<Seq<u8>>, int)> = if ke.0 == key_content() {
                            if content is Some {
                                None
                            } else if v < s.len() && s[v] == QUOTE {
                                match str_body(s, v + 1, seq![]) {
                                    None => None,
                                    Some(cv) => Some((Some(cv.0), cv.1)),
                                }
                            } else {
                                None
                            }
                        } else {
                            match value_end(s, v, MAX_DEPTH) {
                                None => None,
                                Some(j) => Some((content, j)),
                            }
                        };
                        match step {
                            None => None,
                            Some((content2, j)) => {
                                if !(i < j <= s.len()) {
                                    None
                                } else {
                                    let m = ws_end(s, j);
                                    if !(m < s.len()) {
                                        None
                                    } else if s[m] == RBRACE {
                                        match content2 {
                                            None => None,
                                            Some(c) => Some((c, m + 1)),
                                        }
                                    } else if s[m] == COMMA {
                                        let n = ws_end(s, m + 1);
                                        if i < n <= s.len() {
                                            message_members(s, n, false, content2)
                                        } else {
                                            None
                                        }
                                    } else {
                                        None
                                    }
                                }
                            },
                        }
                    }
                }
            },
        }
    }
}

/// Members of one element of `choices` in a blocking response. The element
/// must carry a `message` object member.
pub open spec fn reply_choice_members(s: Seq<u8>, i: int, first: bool, msg: Option<Seq<u8>>) -> Option<
    (Seq<u8>, int),
>
    decreases s.len() - i,
{
    if !(0 <= i < s.len()) {
        None
    } else if first && s[i] == RBRACE {
        match msg {
            None => None,
            Some(c) => Some((c, i + 1)),
        }
    } else if s[i] != QUOTE {
        None
    } else {
        match str_body(s, i + 1, seq![]) {
            None => None,
            Some(ke) => {
                let k = ws_end(s, ke.1);
                if !(i < k < s.len() && s[k] == COLON) {
                    None
                } else {
                    let v = ws_end(s, k + 1);
                    if !(i < v <= s.len()) {
                        None
                    } else {
                        let step: Option<(Option<Seq<u8>>, int)> = if ke.0 == key_message() {
                            if msg is Some {
                                None
                            } else if v < s.len() && s[v] == LBRACE {
                                let d = ws_end(s, v + 1);
                                if v < d <= s.len() {
                                    match message_members(s, d, true, None) {
                                        None => None,
                                        Some(ce) => Some((Some(ce.0), ce.1)),
                                    }
                                } else {
                                    None
                                }
                            } else {
                                None
                            }
                        } else {
                            match value_end(s, v, MAX_DEPTH) {
                                None => None,
                                Some(j) => Some((msg, j)),
                            }
                        };
                        match step {
                            None => None,
                            Some((msg2, j)) => {
                                if !(i < j <= s.len()) {
                                    None
                                } else {
                                    let m = ws_end(s, j);
                                    if !(m < s.len()) {
                                        None
                                    } else if s[m] == RBRACE {
                                        match msg2 {
                                            None => None,
                                            Some(c) => Some((c, m + 1)),
                                        }
                                    } else if s[m] == COMMA {
                                        let n = ws_end(s, m + 1);
                                        if i < n <= s.len() {
                                            reply_choice_members(s, n, false, msg2)
                                        } else {
                                            None
                                        }
                                    } else {
                                        None
                                    }
                                }
                            },
                        }
                    }
                }
            },
        }
    }
}

/// Elements of the `choices` array of a blocking response; `acc` collects
/// each element's message content.
pub open spec fn reply_choices_items(s: Seq<u8>, i: int, first: bool, acc: Seq<Seq<u8>>) -> Option<
    (Seq<Seq<u8>>, int),
>
    decreases s.len() - i,
{
    if !(0 <= i < s.len()) {
        None
    } else if first && s[i] == RBRACKET {
        Some((acc, i + 1))
    } else if s[i] != LBRACE {
        None
    } else {
        let d = ws_end(s, i + 1);
        if !(i < d <= s.len()) {
            None
        } else {
            match reply_choice_members(s, d, true, None) {
                None => None,
                Some(ce) => {
                    if !(i < ce.1 <= s.len()) {
                        None
                    } else {
                        let m = ws_end(s, ce.1);
                        if !(m < s.len()) {
                            None
                        } else if s[m] == RBRACKET {
                            Some((acc.push(ce.0), m + 1))
                        } else if s[m] == COMMA {
                            let n = ws_end(s, m + 1);
                            if i < n <= s.len() {
                                reply_choices_items(s, n, false, acc.push(ce.0))
                            } else {
                                None
                            }
                        } else {
                            None
                        }
                    }
                },
            }
        }
    }
}

/// Members of the top-level blocking-response object; a `choices` array
/// member is required.
pub open spec fn reply_members(s: Seq<u8>, i: int, first: bool, choices: Option<Seq<Seq<u8>>>) -> Option<
    (Seq<Seq<u8>>, int),
>
    decreases s.len() - i,
{
    if !(0 <= i < s.len()) {
        None
    } else if first && s[i] == RBRACE {
        match choices {
            None => None,
            Some(cs) => Some((cs, i + 1)),
        }
    } else if s[i] != QUOTE {
        None
    } else {
        match str_body(s, i + 1, seq![]) {
            None => None,
            Some(ke) => {
                let k = ws_end(s, ke.1);
                if !(i < k < s.len() && s[k] == COLON) {
                    None
                } else {
                    let v = ws_end(s, k + 1);
                    if !(i < v <= s.len()) {
                        None
                    } else {
                        let step: Option<(Option<Seq<Seq<u8>>>, int)> = if ke.0 == key_choices() {
                            if choices is Some {
                                None
                            } else if v < s.len() && s[v] == LBRACKET {
                                let d = ws_end(s, v + 1);
                                if v < d <= s.len() {
                                    match reply_choices_items(s, d, true, seq![]) {
                                        None => None,
                                        Some(ce) => Some((Some(ce.0), ce.1)),
                                    }
                                } else {
                                    None
                                }
                            } else {
                                None
                            }
                        } else {
                            match value_end(s, v, MAX_DEPTH) {
                                None => None,
                                Some(j) => Some((choices, j)),
                            }
                        };
                        match step {
                            None => None,
                            Some((choices2, j)) => {
                                if !(i < j <= s.len()) {
                                    None
                                } else {
                                    let m = ws_end(s, j);
                                    if !(m < s.len()) {
                                        None
                                    } else if s[m] == RBRACE {
                                        match choices2 {
                                            None => None,
                                            Some(cs) => Some((cs, m + 1)),
                                        }
                                    } else if s[m] == COMMA {
                                        let n = ws_end(s, m + 1);
                                        if i < n <= s.len() {
                                            reply_members(s, n, false, choices2)
                                        } else {
                                            None
                                        }
                                    } else {
                                        None
                                    }
                                }
                            },
                        }
                    }
                }
            },
        }
    }
}

/// Decode one blocking chat-completion response: the message content of
/// each choice, in order, or `None` when the bytes are not one well-formed
/// response.
pub open spec fn reply_choices(s: Seq<u8>) -> Option<Seq<Seq<u8>>> {
    let w = ws_end(s, 0);
    if !(0 <= w < s.len() && s[w] == LBRACE) {
        None
    } else {
        let k = ws_end(s, w + 1);
        if !(w < k <= s.len()) {
            None
        } else {
            match reply_members(s, k, true, None) {
                None => None,
                Some(ce) => {
                    if 0 <= ce.1 <= s.len() && ws_end(s, ce.1) == s.len() {
                        Some(ce.0)
                    } else {
                        None
                    }
                },
            }
        }
    }
}

/// Executable mirror of `message_members`.
pub fn parse_message_members(s: &[u8], i: usize, first: bool, content: Option<Vec<u8>>) -> (r:
    Option<(Vec<u8>, usize)>)
    requires
        i <= s@.len(),
    ensures
        r is None ==> message_members(s@, i as int, first, opt_view(content)) is None,
        r matches Some(ce) ==> message_members(s@, i as int, first, opt_view(content)) == Some(
            (ce.0@, ce.1 as int),
        ) && ce.1 <= s@.len(),
    decreases s@.len() - i,
{
    if i >= s.len() {
        return None;
    }
    if first && s[i] == RBRACE {
        return match content {
            None => None,
            Some(c) => Some((c, i + 1)),
        };
    }
    if s[i] != QUOTE {
        return None;
    }
    let ke = match parse_string(s, i + 1) {
        None => {
            return None;
        },
        Some(ke) => ke,
    };
    let k = skip_ws(s, ke.1);
    if !(i < k && k < s.len() && s[k] == COLON) {
        return None;
    }
    let v = skip_ws(s, k + 1);
    if !(i < v && v <= s.len()) {
        return None;
    }
    let step: Option<(Option<Vec<u8>>, usize)> = if bytes_eq(
        ke.0.as_slice(),
        key_content_vec().as_slice(),
    ) {
        if content.is_some() {
            None
        } else if v < s.len() && s[v] == QUOTE {
            match parse_string(s, v + 1) {
                None => None,
                Some(cv) => Some((Some(cv.0), cv.1)),
            }
        } else {
            None
        }
    } else {
        match skip_value(s, v, MAX_DEPTH) {
            None => None,
            Some(j) => Some((content, j)),
        }
    };
    match step {
        None => None,
        Some((content2, j)) => {
            if !(i < j && j <= s.len()) {
                return None;
            }
            let m = skip_ws(s, j);
            if !(m < s.len()) {
                None
            } else if s[m] == RBRACE {
                match content2 {
                    None => None,
                    Some(c) => Some((c, m + 1)),
                }
            } else if s[m] == COMMA {
                let n = skip_ws(s, m + 1);
                if i < n && n <= s.len() {
                    parse_message_members(s, n, false, content2)
                } else {
                    None
                }
            } else {
                None
            }
        },
    }
}

/// Executable mirror of `reply_choice_members`.
pub fn parse_reply_choice_members(s: &[u8], i: usize, first: bool, msg: Option<Vec<u8>>) -> (r:
    Option<(Vec<u8>, usize)>)
    requires
        i <= s@.len(),
    ensures
        r is None ==> reply_choice_members(s@, i as int, first, opt_view(msg)) is None,
        r matches Some(ce) ==> reply_choice_members(s@, i as int, first, opt_view(msg)) == Some(
            (ce.0@, ce.1 as int),
        ) && ce.1 <= s@.len(),
    decreases s@.len() - i,
{
    if i >= s.len() {
        return None;
    }
    if first && s[i] == RBRACE {
        return match msg {
            None => None,
            Some(c) => Some((c, i + 1)),
        };
    }
    if s[i] != QUOTE {
        return None;
    }
    let ke = match parse_string(s, i + 1) {
        None => {
            return None;
        },
        Some(ke) => ke,
    };
    let k = skip_ws(s, ke.1);
    if !(i < k && k < s.len() && s[k] == COLON) {
        return None;
    }
    let v = skip_ws(s, k + 1);
    if !(i < v && v <= s.len()) {
        return None;
    }
    let step: Option<(Option<Vec<u8>>, usize)> = if bytes_eq(
        ke.0.as_slice(),
        key_message_vec().as_slice(),
    ) {
        if msg.is_some() {
            None
        } else if v < s.len() && s[v] == LBRACE {
            let d = skip_ws(s, v + 1);
            if v < d && d <= s.len() {
                match parse_message_members(s, d, true, None) {
                    None => None,
                    Some(ce) => Some((Some(ce.0), ce.1)),
                }
            } else {
                None
            }
        } else {
            None
        }
    } else {
        match skip_value(s, v, MAX_DEPTH) {
            None => None,
            Some(j) => Some((msg, j)),
        }
    };
    match step {
        None => None,
        Some((msg2, j)) => {
            if !(i < j && j <= s.len()) {
                return None;
            }
            let m = skip_ws(s, j);
            if !(m < s.len()) {
                None
            } else if s[m] == RBRACE {
                match msg2 {
                    None => None,
                    Some(c) => Some((c, m + 1)),
                }
            } else if s[m] == COMMA {
                let n = skip_ws(s, m + 1);
                if i < n && n <= s.len() {
                    parse_reply_choice_members(s, n, false, msg2)
                } else {
                    None
                }
            } else {
                None
            }
        },
    }
}

/// The views of a sequence of byte buffers.
pub open spec fn vecs_view(cs: Seq<Vec<u8>>) -> Seq<Seq<u8>> {
    cs.map_values(|c: Vec<u8>| c@)
}

/// Executable mirror of `reply_choices_items`.
pub fn parse_reply_choices_items(s: &[u8], i: usize, first: bool, acc: Vec<Vec<u8>>) -> (r: Option<
    (Vec<Vec<u8>>, usize),
>)
    requires
        i <= s@.len(),
    ensures
        r is None ==> reply_choices_items(s@, i as int, first, vecs_view(acc@)) is None,
        r matches Some(ce) ==> reply_choices_items(s@, i as int, first, vecs_view(acc@)) == Some(
            (vecs_view(ce.0@), ce.1 as int),
        ) && ce.1 <= s@.len(),
    decreases s@.len() - i,
{
    let ghost acc0 = acc@;
    let mut acc = acc;
    if i >= s.len() {
        return None;
    }
    if first && s[i] == RBRACKET {
        return Some((acc, i + 1));
    }
    if s[i] != LBRACE {
        return None;
    }
    let d = skip_ws(s, i + 1);
    if !(i < d && d <= s.len()) {
        return None;
    }
    match parse_reply_choice_members(s, d, true, None) {
        None => None,
        Some(ce) => {
            if !(i < ce.1 && ce.1 <= s.len()) {
                return None;
            }
            let m = skip_ws(s, ce.1);
            if !(m < s.len()) {
                None
            } else if s[m] == RBRACKET {
                let ghost c0 = ce.0@;
                acc.push(ce.0);
                assert(vecs_view(acc@) =~= vecs_view(acc0).push(c0));
                Some((acc, m + 1))
            } else if s[m] == COMMA {
                let n = skip_ws(s, m + 1);
                if i < n && n <= s.len() {
                    let ghost c0 = ce.0@;
                    acc.push(ce.0);
                    assert(vecs_view(acc@) =~= vecs_view(acc0).push(c0));
                    parse_reply_choices_items(s, n, false, acc)
                } else {
                    None
                }
            } else {
                None
            }
        },
    }
}

/// Executable mirror of `reply_members`.
#[verifier::rlimit(60)]
pub fn parse_reply_members(s: &[u8], i: usize, first: bool, choices: Option<Vec<Vec<u8>>>) -> (r:
    Option<(Vec<Vec<u8>>, usize)>)
    requires
        i <= s@.len(),
    ensures
        r is None ==> reply_members(s@, i as int, first, optvecs_view(choices)) is None,
        r matches Some(ce) ==> reply_members(s@, i as int, first, optvecs_view(choices)) == Some(
            (vecs_view(ce.0@), ce.1 as int),
        ) && ce.1 <= s@.len(),
    decreases s@.len() - i,
{
    if i >= s.len() {
        return None;
    }
    if first && s[i] == RBRACE {
        return match choices {
            None => None,
            Some(cs) => Some((cs, i + 1)),
        };
    }
    if s[i] != QUOTE {
        return None;
    }
    let ke = match parse_string(s, i + 1) {
        None => {
            return None;
        },
        Some(ke) => ke,
    };
    let k = skip_ws(s, ke.1);
    if !(i < k && k < s.len() && s[k] == COLON) {
        return None;
    }
    let v = skip_ws(s, k + 1);
    if !(i < v && v <= s.len()) {
        return None;
    }
    let step: Option<(Option<Vec<Vec<u8>>>, usize)> = if bytes_eq(
        ke.0.as_slice(),
        key_choices_vec().as_slice(),
    ) {
        if choices.is_some() {
            None
        } else if v < s.len() && s[v] == LBRACKET {
            let d = skip_ws(s, v + 1);
            if v < d && d <= s.len() {
                let empty_acc: Vec<Vec<u8>> = Vec::new();
                proof {
                    assert(vecs_view(empty_acc@) =~= Seq::<Seq<u8>>::empty());
                }
                match parse_reply_choices_items(s, d, true, empty_acc) {
                    None => None,
                    Some(ce) => Some((Some(ce.0), ce.1)),
                }
            } else {
                None
            }
        } else {
            None
        }
    } else {
        match skip_value(s, v, MAX_DEPTH) {
            None => None,
            Some(j) => Some((choices, j)),
        }
    };
    match step {
        None => None,
        Some((choices2, j)) => {
            if !(i < j && j <= s.len()) {
                return None;
            }
            let m = skip_ws(s, j);
            if !(m < s.len()) {
                None
            } else if s[m] == RBRACE {
                match choices2 {
                    None => None,
                    Some(cs) => Some((cs, m + 1)),
                }
            } else if s[m] == COMMA {
                let n = skip_ws(s, m + 1);
                if i < n && n <= s.len() {
                    parse_reply_members(s, n, false, choices2)
                } else {
                    None
                }
            } else {
                None
            }
        },
    }
}

/// The view of optional collected message contents.
pub open spec fn optvecs_view(c: Option<Vec<Vec<u8>>>) -> Option<Seq<Seq<u8>>> {
    match c {
        Some(cs) => Some(vecs_view(cs@)),
        None => None,
    }
}

/// Decode one blocking chat-completion response.
pub fn parse_reply_choices(s: &[u8]) -> (r: Option<Vec<Vec<u8>>>)
    ensures
        r is None ==> reply_choices(s@) is None,
        r matches Some(cs) ==> reply_choices(s@) == Some(vecs_view(cs@)),
{
    let w = skip_ws(s, 0);
    if !(w < s.len() && s[w] == LBRACE) {
        return None;
    }
    let k = skip_ws(s, w + 1);
    match parse_reply_members(s, k, true, None) {
        None => None,
        Some(ce) => {
            if skip_ws(s, ce.1) == s.len() {
                Some(ce.0)
            } else {
                None
            }
        },
    }
}

/// A `text`/`error` member observed while scanning a worker envelope:
/// absent, present with a string value, or present with some other value.
/// A later member of the same name replaces an earlier one.
pub open spec fn flat2(x: Option<Option<Seq<u8>>>) -> Option<Seq<u8>> {
    match x {
        Some(Some(v)) => Some(v),
        _ => None,
    }
}

/// Members of a worker envelope object, tracking the last `text` and
/// `error` members seen (`Some(None)` when present with a non-string
/// value). Yields the string values of the final `text` and `error`
/// members and the index past the closing brace.
pub open spec fn envelope_members(
    s: Seq<u8>,
    i: int,
    first: bool,
    txt: Option<Option<Seq<u8>>>,
    err: Option<Option<Seq<u8>>>,
) -> Option<((Option<Seq<u8>>, Option<Seq<u8>>), int)>
    decreases s.len() - i,
{
    if !(0 <= i < s.len()) {
        None
    } else if first && s[i] == RBRACE {
        Some(((flat2(txt), flat2(err)), i + 1))
    } else if s[i] != QUOTE {
        None
    } else {
        match str_body(s, i + 1, seq![]) {
            None => None,
            Some(ke) => {
                let k = ws_end(s, ke.1);
                if !(i < k < s.len() && s[k] == COLON) {
                    None
                } else {
                    let v = ws_end(s, k + 1);
                    if !(i < v <= s.len()) {
                        None
                    } else {
                        let is_txt = ke.0 == key_text();
                        let is_err = ke.0 == key_error();
                        let strval: Option<(Seq<u8>, int)> = if v < s.len() && s[v] == QUOTE {
                            str_body(s, v + 1, seq![])
                        } else {
                            None
                        };
                        let step: Option<(Option<Option<Seq<u8>>>, Option<Option<Seq<u8>>>, int)> =
                            match strval {
                            Some(sv) => {
                                if is_txt {
                                    Some((Some(Some(sv.0)), err, sv.1))
                                } else if is_err {
                                    Some((txt, Some(Some(sv.0)), sv.1))
                                } else {
                                    Some((txt, err, sv.1))
                                }
                            },
                            None => {
                                match value_end(s, v, MAX_DEPTH) {
                                    None => None,
                                    Some(j) => {
                                        if is_txt {
                                            Some((Some(None), err, j))
                                        } else if is_err {
                                            Some((txt, Some(None), j))
                                        } else {
                                            Some((txt, err, j))
                                        }
                                    },
                                }
                            },
                        };
                        match step {
                            None => None,
                            Some((txt2, err2, j)) => {
                                if !(i < j <= s.len()) {
                                    None
                                } else {
                                    let m = ws_end(s, j);
                                    if !(m < s.len()) {
                                        None
                                    } else if s[m] == RBRACE {
                                        Some(((flat2(txt2), flat2(err2)), m + 1))
                                    } else if s[m] == COMMA {
                                        let n = ws_end(s, m + 1);
                                        if i < n <= s.len() {
                                            envelope_members(s, n, false, txt2, err2)
                                        } else {
                                            None
                                        }
                                    } else {
                                        None
                                    }
                                }
                            },
                        }
                    }
                }
            },
        }
    }
}

/// Decode one worker envelope line: the string values of its `text` and
/// `error` members. A well-formed JSON value of any other kind decodes to
/// neither field; malformed bytes decode to `None`.
pub open spec fn envelope_fields(s: Seq<u8>) -> Option<(Option<Seq<u8>>, Option<Seq<u8>>)> {
    let w = ws_end(s, 0);
    if !(0 <= w < s.len()) {
        None
    } else if s[w] == LBRACE {
        let k = ws_end(s, w + 1);
        if !(w < k <= s.len()) {
            None
        } else {
            match envelope_members(s, k, true, None, None) {
                None => None,
                Some(fe) => {
                    if 0 <= fe.1 <= s.len() && ws_end(s, fe.1) == s.len() {
                        Some(fe.0)
                    } else {
                        None
                    }
                },
            }
        }
    } else {
        match value_end(s, w, MAX_DEPTH) {
            None => None,
            Some(e) => {
                if 0 <= e <= s.len() && ws_end(s, e) == s.len() {
                    Some((None, None))
                } else {
                    None
                }
            },
        }
    }
}

/// Executable mirror of `envelope_members`.
#[verifier::rlimit(60)]
pub fn parse_envelope_members(
    s: &[u8],
    i: usize,
    first: bool,
    txt: Option<Option<Vec<u8>>>,
    err: Option<Option<Vec<u8>>>,
) -> (r: Option<((Option<Vec<u8>>, Option<Vec<u8>>), usize)>)
    requires
        i <= s@.len(),
    ensures
        r is None ==> envelope_members(s@, i as int, first, opt2_view(txt), opt2_view(err))
            is None,
        r matches Some(fe) ==> envelope_members(s@, i as int, first, opt2_view(txt), opt2_view(err))
            == Some(((opt_view(fe.0.0), opt_view(fe.0.1)), fe.1 as int)) && fe.1 <= s@.len(),
    decreases s@.len() - i,
{
    if i >= s.len() {
        return None;
    }
    if first && s[i] == RBRACE {
        return Some(((flat2_exec(txt), flat2_exec(err)), i + 1));
    }
    if s[i] != QUOTE {
        return None;
    }
    let ke = match parse_string(s, i + 1) {
        None => {
            return None;
        },
        Some(ke) => ke,
    };
    let k = skip_ws(s, ke.1);
    if !(i < k && k < s.len() && s[k] == COLON) {
        return None;
    }
    let v = skip_ws(s, k + 1);
    if !(i < v && v <= s.len()) {
        return None;
    }
    let is_txt = bytes_eq(ke.0.as_slice(), key_text_vec().as_slice());
    let is_err = bytes_eq(ke.0.as_slice(), key_error_vec().as_slice());
    let strval: Option<(Vec<u8>, usize)> = if v < s.len() && s[v] == QUOTE {
        parse_string(s, v + 1)
    } else {
        None
    };
    let step: Option<(Option<Option<Vec<u8>>>, Option<Option<Vec<u8>>>, usize)> = match strval {
        Some(sv) => {
            if is_txt {
                Some((Some(Some(sv.0)), err, sv.1))
            } else if is_err {
                Some((txt, Some(Some(sv.0)), sv.1))
            } else {
                Some((txt, err, sv.1))
            }
        },
        None => {
            match skip_value(s, v, MAX_DEPTH) {
                None => None,
                Some(j) => {
                    if is_txt {
                        Some((Some(None), err, j))
                    } else if is_err {
                        Some((txt, Some(None), j))
                    } else {
                        Some((txt, err, j))
                    }
                },
            }
        },
    };
    match step {
        None => None,
        Some((txt2, err2, j)) => {
            if !(i < j && j <= s.len()) {
                return None;
            }
            let m = skip_ws(s, j);
            if !(m < s.len()) {
                None
            } else if s[m] == RBRACE {
                Some(((flat2_exec(txt2), flat2_exec(err2)), m + 1))
            } else if s[m] == COMMA {
                let n = skip_ws(s, m + 1);
                if i < n && n <= s.len() {
                    parse_envelope_members(s, n, false, txt2, err2)
                } else {
                    None
                }
            } else {
                None
            }
        },
    }
}

fn flat2_exec(x: Option<Option<Vec<u8>>>) -> (r: Option<Vec<u8>>)
    ensures
        opt_view(r) == flat2(opt2_view(x)),
{
    match x {
        Some(Some(v)) => Some(v),
        _ => None,
    }
}

/// Decode one worker envelope line.
pub fn parse_envelope_fields(s: &[u8]) -> (r: Option<(Option<Vec<u8>>, Option<Vec<u8>>)>)
    ensures
        r is None ==> envelope_fields(s@) is None,
        r matches Some(fe) ==> envelope_fields(s@) == Some((opt_view(fe.0), opt_view(fe.1))),
{
    let w = skip_ws(s, 0);
    if !(w < s.len()) {
        return None;
    }
    if s[w] == LBRACE {
        let k = skip_ws(s, w + 1);
        match parse_envelope_members(s, k, true, None, None) {
            None => None,
            Some(fe) => {
                if skip_ws(s, fe.1) == s.len() {
                    Some(fe.0)
                } else {
                    None
                }
            },
        }
    } else {
        match skip_value(s, w, MAX_DEPTH) {
            None => None,
            Some(e) => {
                if skip_ws(s, e) == s.len() {
                    Some((None, None))
                } else {
                    None
                }
            },
        }
    }
}

} // verus!
