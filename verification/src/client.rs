//! The blocking mode of the chat-completion client: building the request
//! body and interpreting the response. The transport itself (the HTTP
//! call) lives in the unverified shell, which hands the status and body
//! bytes back to these functions.
use vstd::prelude::*;
use crate::encode::{ChatMessage, chat_request_bytes, encode_chat_request, msgs_view, msg_view};
use crate::protocol::{reply_choices, parse_reply_choices, vecs_view};

verus! {

/// Connection settings for the chat-completion service. The shell loads
/// and stores these; the gateway only reads them.
pub struct AIConfig {
    pub api_key: String,
    pub model: String,
    pub base_url: String,
}

impl Default for AIConfig {
    /// The stock settings: no credentials, a default model and endpoint.
    fn default() -> (r: AIConfig)
        ensures
            r.api_key@ == Seq::<char>::empty(),
            r.model@ == "qwen-plus"@,
            r.base_url@ == "https://dashscope.aliyuncs.com/compatible-mode/v1"@,
    {
        AIConfig {
            api_key: String::new(),
            model: "qwen-plus".to_owned(),
            base_url: "https://dashscope.aliyuncs.com/compatible-mode/v1".to_owned(),
        }
    }
}

/// The bytes of the role `user`.
pub open spec fn user_role() -> Seq<u8> {
    seq![117u8, 115u8, 101u8, 114u8]
}

/// The bytes of the role `system`.
pub open spec fn system_role() -> Seq<u8> {
    seq![115u8, 121u8, 115u8, 116u8, 101u8, 109u8]
}

pub fn user_role_vec() -> (r: Vec<u8>)
    ensures
        r@ == user_role(),
{
    let mut v: Vec<u8> = Vec::new();
    v.push(117);
    v.push(115);
    v.push(101);
    v.push(114);
    assert(v@ =~= user_role());
    v
}

pub fn system_role_vec() -> (r: Vec<u8>)
    ensures
        r@ == system_role(),
{
    let mut v: Vec<u8> = Vec::new();
    v.push(115);
    v.push(121);
    v.push(115);
    v.push(116);
    v.push(101);
    v.push(109);
    assert(v@ =~= system_role());
    v
}

/// Build the request body for a chat call carrying a system prompt and one
/// user message.
pub fn build_chat_request(model: &[u8], system_prompt: &[u8], user_message: &[u8], stream: bool) -> (
    r: Vec<u8>)
    ensures
        r@ == chat_request_bytes(
            model@,
            seq![(system_role(), system_prompt@), (user_role(), user_message@)],
            stream,
        ),
{
    let mut msgs: Vec<ChatMessage> = Vec::new();
    msgs.push(
        ChatMessage { role: system_role_vec(), content: slice_owned(system_prompt) },
    );
    msgs.push(ChatMessage { role: user_role_vec(), content: slice_owned(user_message) });
    proof {
        assert(msgs_view(msgs@) =~= seq![
            (system_role(), system_prompt@),
            (user_role(), user_message@),
        ]);
    }
    encode_chat_request(model, &msgs, stream)
}

/// An owned copy of a byte slice.
pub fn slice_owned(s: &[u8]) -> (r: Vec<u8>)
    ensures
        r@ == s@,
{
    let r = vstd::slice::slice_to_vec(s);
    assert(r@ =~= s@);
    r
}

/// Failure of one blocking chat call.
#[derive(Debug)]
pub enum ChatError {
    /// The endpoint answered with a non-success status; carries the
    /// response body verbatim.
    ApiStatus(Vec<u8>),
    /// The response body was not one well-formed chat response.
    Protocol,
    /// The response carried no choice at all.
    NoContent,
}

/// Interpret a blocking chat response: a non-success status is an error
/// carrying the body verbatim; a body that does not decode is a protocol
/// error; a response without any choice is the no-content error; otherwise
/// the first choice's message content is returned.
pub fn chat_reply_content(status_ok: bool, body: &[u8]) -> (r: Result<Vec<u8>, ChatError>)
    ensures
        !status_ok ==> (r matches Err(ChatError::ApiStatus(b)) && b@ == body@),
        status_ok && reply_choices(body@) is None ==> r matches Err(ChatError::Protocol),
        status_ok ==> (reply_choices(body@) matches Some(cs) ==> {
            if cs.len() == 0 {
                r matches Err(ChatError::NoContent)
            } else {
                r matches Ok(c) && c@ == cs[0]
            }
        }),
{
    if !status_ok {
        return Err(ChatError::ApiStatus(slice_owned(body)));
    }
    match parse_reply_choices(body) {
        None => Err(ChatError::Protocol),
        Some(cs) => {
            if cs.len() == 0 {
                Err(ChatError::NoContent)
            } else {
                let c = cs[0].clone();
                proof {
                    assert(vecs_view(cs@)[0] == cs@[0]@);
                }
                Ok(c)
            }
        },
    }
}

} // verus!
