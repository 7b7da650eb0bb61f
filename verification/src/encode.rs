//! Verified encoding of the gateway's outgoing JSON: the chat-completion
//! request body and the extraction worker's request line.
use vstd::prelude::*;
use crate::json::{
    QUOTE, BACKSLASH, LF, CR, TAB, BS_CTRL, FF_CTRL, SPACE, COMMA, LBRACE, RBRACE, LOWER_B,
    LOWER_F, LOWER_N, LOWER_R, LOWER_T, LOWER_U, str_body, hex_val, hex4, utf8_enc,
};

verus! {

/// Lowercase hexadecimal digit byte for a value below 16.
pub open spec fn hex_digit(d: int) -> u8 {
    if d < 10 {
        (48 + d) as u8
    } else {
        (87 + d) as u8
    }
}

/// JSON escape of one byte of a string value. Bytes at or above the space
/// character pass through except `"` and `\`; the common control
/// characters use their short escapes and the rest use `\u00XX`.
pub open spec fn esc_byte(b: u8) -> Seq<u8> {
    if b == QUOTE {
        seq![BACKSLASH, QUOTE]
    } else if b == BACKSLASH {
        seq![BACKSLASH, BACKSLASH]
    } else if b == LF {
        seq![BACKSLASH, LOWER_N]
    } else if b == CR {
        seq![BACKSLASH, LOWER_R]
    } else if b == TAB {
        seq![BACKSLASH, LOWER_T]
    } else if b == BS_CTRL {
        seq![BACKSLASH, LOWER_B]
    } else if b == FF_CTRL {
        seq![BACKSLASH, LOWER_F]
    } else if b < SPACE {
        seq![BACKSLASH, LOWER_U, 48u8, 48u8, hex_digit(b as int / 16), hex_digit(b as int % 16)]
    } else {
        seq![b]
    }
}

/// JSON escape of a whole string value.
pub open spec fn esc(s: Seq<u8>) -> Seq<u8>
    decreases s.len(),
{
    if s.len() == 0 {
        seq![]
    } else {
        esc_byte(s.first()) + esc(s.drop_first())
    }
}

pub proof fn lemma_esc_snoc(s: Seq<u8>, x: u8)
    ensures
        esc(s.push(x)) == esc(s) + esc_byte(x),
    decreases s.len(),
{
    if s.len() == 0 {
        assert(s.push(x).first() == x);
        assert(s.push(x).drop_first() =~= Seq::<u8>::empty());
        assert(esc(Seq::<u8>::empty()) =~= Seq::<u8>::empty());
        assert(esc_byte(x) + esc(Seq::<u8>::empty()) =~= esc_byte(x));
        assert(esc(s) + esc_byte(x) =~= esc_byte(x));
    } else {
        assert(s.push(x).first() == s.first());
        assert(s.push(x).drop_first() =~= s.drop_first().push(x));
        lemma_esc_snoc(s.drop_first(), x);
        assert(esc_byte(s.first()) + (esc(s.drop_first()) + esc_byte(x)) =~= (esc_byte(s.first())
            + esc(s.drop_first())) + esc_byte(x));
    }
}

/// Append the escape of `s` to `out`.
pub fn escape_into(out: &mut Vec<u8>, s: &[u8])
    ensures
        final(out)@ == old(out)@ + esc(s@),
{
    let mut i: usize = 0;
    proof {
        assert(s@.take(0) =~= Seq::<u8>::empty());
        assert(esc(s@.take(0)) =~= Seq::<u8>::empty());
        assert(out@ =~= old(out)@ + esc(s@.take(0)));
    }
    while i < s.len()
        invariant
            i <= s@.len(),
            out@ == old(out)@ + esc(s@.take(i as int)),
        decreases s@.len() - i,
    {
        let b = s[i];
        let ghost pre = out@;
        if b == QUOTE {
            out.push(BACKSLASH);
            out.push(QUOTE);
        } else if b == BACKSLASH {
            out.push(BACKSLASH);
            out.push(BACKSLASH);
        } else if b == LF {
            out.push(BACKSLASH);
            out.push(LOWER_N);
        } else if b == CR {
            out.push(BACKSLASH);
            out.push(LOWER_R);
        } else if b == TAB {
            out.push(BACKSLASH);
            out.push(LOWER_T);
        } else if b == BS_CTRL {
            out.push(BACKSLASH);
            out.push(LOWER_B);
        } else if b == FF_CTRL {
            out.push(BACKSLASH);
            out.push(LOWER_F);
        } else if b < SPACE {
            out.push(BACKSLASH);
            out.push(LOWER_U);
            out.push(48);
            out.push(48);
            if b / 16 < 10 {
                out.push(48 + b / 16);
            } else {
                out.push(87 + b / 16);
            }
            if b % 16 < 10 {
                out.push(48 + b % 16);
            } else {
                out.push(87 + b % 16);
            }
        } else {
            out.push(b);
        }
        proof {
            assert(out@ =~= pre + esc_byte(b));
            assert(s@.take(i as int).push(b) =~= s@.take(i as int + 1));
            lemma_esc_snoc(s@.take(i as int), b);
            assert((old(out)@ + esc(s@.take(i as int))) + esc_byte(b) =~= old(out)@ + (esc(
                s@.take(i as int),
            ) + esc_byte(b)));
        }
        i = i + 1;
    }
    proof {
        assert(s@.take(s@.len() as int) =~= s@);
    }
}

/// Parsing an escaped string back yields the original bytes: for any
/// value `v`, when the bytes from `i` hold `esc(v)` followed by a closing
/// quote, the string-body grammar accepts exactly through that quote and
/// decodes `v`.
pub proof fn lemma_escape_roundtrip(v: Seq<u8>, s: Seq<u8>, i: int, acc: Seq<u8>)
    requires
        0 <= i,
        i + esc(v).len() < s.len(),
        s.subrange(i, i + esc(v).len() as int) == esc(v),
        s[i + esc(v).len()] == crate::json::QUOTE,
    ensures
        crate::json::str_body(s, i, acc) == Some(
            (acc + v, i + esc(v).len() + 1),
        ),
    decreases v.len(),
{
    if v.len() == 0 {
        assert(esc(v).len() == 0);
        assert(s[i] == QUOTE);
        assert(acc + v =~= acc);
    } else {
        let x = v.first();
        let v2 = v.drop_first();
        let eb = esc_byte(x);
        let k = eb.len() as int;
        assert(esc(v) == eb + esc(v2));
        assert forall|j: int| 0 <= j < k implies s[i + j] == eb[j] by {
            assert(s.subrange(i, i + esc(v).len() as int)[j] == s[i + j]);
            assert(esc(v)[j] == eb[j]);
        }
        assert(s.subrange(i + k, (i + k) + esc(v2).len() as int) =~= esc(v2)) by {
            assert forall|j: int| 0 <= j < esc(v2).len() implies s.subrange(
                i + k,
                (i + k) + esc(v2).len() as int,
            )[j] == esc(v2)[j] by {
                assert(s.subrange(i, i + esc(v).len() as int)[k + j] == s[i + k + j]);
                assert(esc(v)[k + j] == esc(v2)[j]);
            }
        }
        assert(s[(i + k) + esc(v2).len()] == QUOTE);
        if x == QUOTE || x == BACKSLASH || x == LF || x == CR || x == TAB || x == BS_CTRL || x
            == FF_CTRL {
            assert(s[i + 0] == eb[0]);
            assert(s[i + 1] == eb[1]);
            assert(s[i] == BACKSLASH);
            lemma_escape_roundtrip(v2, s, i + 2, acc.push(x));
            assert(acc.push(x) + v2 =~= acc + v);
        } else if x < SPACE {
            // `\u00XX` with the two hexadecimal digits of `x`.
            assert(s[i + 0] == eb[0]);
            assert(s[i + 1] == eb[1]);
            assert(s[i + 2] == eb[2]);
            assert(s[i + 3] == eb[3]);
            assert(s[i + 4] == eb[4]);
            assert(s[i + 5] == eb[5]);
            assert(s[i] == BACKSLASH);
            assert(s[i + 1] == LOWER_U);
            assert(s[i + 2] == 48);
            assert(s[i + 3] == 48);
            assert(s[i + 4] == hex_digit(x as int / 16));
            assert(s[i + 5] == hex_digit(x as int % 16));
            assert(hex_val(48) == Some(0u32));
            assert(hex_val(hex_digit(x as int / 16)) == Some((x as int / 16) as u32));
            assert(hex_val(hex_digit(x as int % 16)) == Some((x as int % 16) as u32));
            assert(hex4(s, i + 2) == Some(((x as int / 16) * 16 + (x as int % 16)) as u32));
            assert((x as int / 16) * 16 + (x as int % 16) == x as int);
            assert(hex4(s, i + 2) == Some(x as u32));
            assert(utf8_enc(x as u32) =~= seq![x]);
            lemma_escape_roundtrip(v2, s, i + 6, acc + utf8_enc(x as u32));
            assert(acc + utf8_enc(x as u32) =~= acc.push(x));
            assert(acc.push(x) + v2 =~= acc + v);
        } else {
            assert(eb == seq![x]);
            assert(s[i + 0] == eb[0]);
            assert(s[i] == x);
            lemma_escape_roundtrip(v2, s, i + 1, acc.push(x));
            assert(acc.push(x) + v2 =~= acc + v);
        }
    }
}

/// A JSON string literal round-trips: parsed just after its opening
/// quote, whatever follows it, it decodes to the original bytes and ends
/// at its own length.
pub proof fn lemma_string_literal_roundtrip(v: Seq<u8>, rest: Seq<u8>)
    ensures
        crate::json::str_body(json_string(v) + rest, 1, seq![]) == Some(
            (v, json_string(v).len() as int),
        ),
{
    let s = json_string(v) + rest;
    assert(s.subrange(1, 1 + esc(v).len() as int) =~= esc(v));
    assert(s[1 + esc(v).len() as int] == QUOTE);
    lemma_escape_roundtrip(v, s, 1, seq![]);
    assert(seq![] + v =~= v);
}

/// A JSON string literal: quote, escaped bytes, quote.
pub open spec fn json_string(s: Seq<u8>) -> Seq<u8> {
    seq![QUOTE] + esc(s) + seq![QUOTE]
}

/// Append the JSON string literal for `s` to `out`.
pub fn append_json_string(out: &mut Vec<u8>, s: &[u8])
    ensures
        final(out)@ == old(out)@ + json_string(s@),
{
    out.push(QUOTE);
    escape_into(out, s);
    out.push(QUOTE);
    assert(final(out)@ =~= old(out)@ + json_string(s@));
}

/// One message of a chat request: a role and its content.
pub struct ChatMessage {
    pub role: Vec<u8>,
    pub content: Vec<u8>,
}

/// The view of a message: its role and content bytes.
pub open spec fn msg_view(m: ChatMessage) -> (Seq<u8>, Seq<u8>) {
    (m.role@, m.content@)
}

pub open spec fn msgs_view(ms: Seq<ChatMessage>) -> Seq<(Seq<u8>, Seq<u8>)> {
    ms.map_values(|m: ChatMessage| msg_view(m))
}

/// The bytes of `{"role":R,"content":C}`.
pub open spec fn msg_obj(m: (Seq<u8>, Seq<u8>)) -> Seq<u8> {
    seq![123u8, 34u8, 114u8, 111u8, 108u8, 101u8, 34u8, 58u8] + json_string(m.0) + seq![
        44u8,
        34u8,
        99u8,
        111u8,
        110u8,
        116u8,
        101u8,
        110u8,
        116u8,
        34u8,
        58u8,
    ] + json_string(m.1) + seq![125u8]
}

/// The bytes of the message array's elements, comma-separated.
pub open spec fn msgs_bytes(ms: Seq<(Seq<u8>, Seq<u8>)>) -> Seq<u8>
    decreases ms.len(),
{
    if ms.len() == 0 {
        seq![]
    } else if ms.len() == 1 {
        msg_obj(ms[0])
    } else {
        msgs_bytes(ms.drop_last()) + seq![COMMA] + msg_obj(ms.last())
    }
}

/// The chat-completion request body
/// `{"model":M,"messages":[...],"stream":B}`.
pub open spec fn chat_request_bytes(
    model: Seq<u8>,
    ms: Seq<(Seq<u8>, Seq<u8>)>,
    stream: bool,
) -> Seq<u8> {
    seq![123u8, 34u8, 109u8, 111u8, 100u8, 101u8, 108u8, 34u8, 58u8] + json_string(model) + seq![
        44u8,
        34u8,
        109u8,
        101u8,
        115u8,
        115u8,
        97u8,
        103u8,
        101u8,
        115u8,
        34u8,
        58u8,
        91u8,
    ] + msgs_bytes(ms) + seq![93u8, 44u8, 34u8, 115u8, 116u8, 114u8, 101u8, 97u8, 109u8, 34u8, 58u8]
        + (if stream {
        seq![116u8, 114u8, 117u8, 101u8]
    } else {
        seq![102u8, 97u8, 108u8, 115u8, 101u8]
    }) + seq![125u8]
}

fn append_msg(out: &mut Vec<u8>, m: &ChatMessage)
    ensures
        final(out)@ == old(out)@ + msg_obj(msg_view(*m)),
{
    let ghost pre = out@;
    out.push(123);
    out.push(34);
    out.push(114);
    out.push(111);
    out.push(108);
    out.push(101);
    out.push(34);
    out.push(58);
    append_json_string(out, m.role.as_slice());
    out.push(44);
    out.push(34);
    out.push(99);
    out.push(111);
    out.push(110);
    out.push(116);
    out.push(101);
    out.push(110);
    out.push(116);
    out.push(34);
    out.push(58);
    append_json_string(out, m.content.as_slice());
    out.push(125);
    assert(out@ =~= pre + msg_obj(msg_view(*m)));
}

/// Encode a chat-completion request body.
#[verifier::rlimit(100)]
pub fn encode_chat_request(model: &[u8], messages: &Vec<ChatMessage>, stream: bool) -> (r: Vec<
    u8,
>)
    ensures
        r@ == chat_request_bytes(model@, msgs_view(messages@), stream),
{
    let mut out: Vec<u8> = Vec::new();
    out.push(123);
    out.push(34);
    out.push(109);
    out.push(111);
    out.push(100);
    out.push(101);
    out.push(108);
    out.push(34);
    out.push(58);
    append_json_string(&mut out, model);
    out.push(44);
    out.push(34);
    out.push(109);
    out.push(101);
    out.push(115);
    out.push(115);
    out.push(97);
    out.push(103);
    out.push(101);
    out.push(115);
    out.push(34);
    out.push(58);
    out.push(91);
    let ghost head = out@;
    let mut i: usize = 0;
    proof {
        assert(msgs_view(messages@).take(0) =~= Seq::<(Seq<u8>, Seq<u8>)>::empty());
        assert(msgs_bytes(msgs_view(messages@).take(0)) =~= Seq::<u8>::empty());
        assert(out@ =~= head + msgs_bytes(msgs_view(messages@).take(0)));
    }
    while i < messages.len()
        invariant
            i <= messages@.len(),
            out@ == head + msgs_bytes(msgs_view(messages@).take(i as int)),
        decreases messages@.len() - i,
    {
        let ghost pre = out@;
        if i > 0 {
            out.push(44);
        }
        append_msg(&mut out, &messages[i]);
        proof {
            let mv = msgs_view(messages@);
            assert(mv.take(i as int + 1).drop_last() =~= mv.take(i as int));
            assert(mv.take(i as int + 1).last() == mv[i as int]);
            assert(mv[i as int] == msg_view(messages@[i as int]));
            if i == 0 {
                assert(mv.take(1).len() == 1);
                assert(mv.take(1)[0] == mv[0]);
                assert(out@ =~= head + msgs_bytes(mv.take(1)));
            } else {
                assert(out@ =~= head + (msgs_bytes(mv.take(i as int)) + seq![COMMA] + msg_obj(
                    mv[i as int],
                )));
            }
        }
        i = i + 1;
    }
    proof {
        assert(msgs_view(messages@).take(messages@.len() as int) =~= msgs_view(messages@));
    }
    let ghost mid = out@;
    out.push(93);
    out.push(44);
    out.push(34);
    out.push(115);
    out.push(116);
    out.push(114);
    out.push(101);
    out.push(97);
    out.push(109);
    out.push(34);
    out.push(58);
    if stream {
        out.push(116);
        out.push(114);
        out.push(117);
        out.push(101);
    } else {
        out.push(102);
        out.push(97);
        out.push(108);
        out.push(115);
        out.push(101);
    }
    out.push(125);
    proof {
        assert(out@ =~= chat_request_bytes(model@, msgs_view(messages@), stream));
    }
    out
}

/// The worker request line `{"image_path":P}` followed by a newline.
pub open spec fn extract_request_bytes(path: Seq<u8>) -> Seq<u8> {
    seq![
        123u8,
        34u8,
        105u8,
        109u8,
        97u8,
        103u8,
        101u8,
        95u8,
        112u8,
        97u8,
        116u8,
        104u8,
        34u8,
        58u8,
    ] + json_string(path) + seq![125u8, 10u8]
}

/// Encode one extraction request line.
pub fn encode_extract_request(path: &[u8]) -> (r: Vec<u8>)
    ensures
        r@ == extract_request_bytes(path@),
{
    let mut out: Vec<u8> = Vec::new();
    out.push(123);
    out.push(34);
    out.push(105);
    out.push(109);
    out.push(97);
    out.push(103);
    out.push(101);
    out.push(95);
    out.push(112);
    out.push(97);
    out.push(116);
    out.push(104);
    out.push(34);
    out.push(58);
    append_json_string(&mut out, path);
    out.push(125);
    out.push(10);
    proof {
        assert(out@ =~= extract_request_bytes(path@));
    }
    out
}

} // verus!
