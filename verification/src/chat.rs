//! Chat completions: the parts that every request and reply has.

use crate::http;
use crate::http::HttpStatus;
use crate::json;
use crate::json::JsonTree;
use serde_json::Value;
use vstd::prelude::*;
use vstd::string::*;

verus! {

broadcast use vstd::string::group_string_axioms;

/// A request to post.
#[derive(Debug)]
pub struct Post {
    pub url: String,
    /// The body, as JSON text.
    pub body: String,
}

/// What a model says: text, and the arguments of the tools that it calls.
#[derive(Debug)]
pub struct ChoiceMessage {
    pub content: Option<String>,
    pub tool_calls: Vec<String>,
}

/// The reply to a request for a completion.
#[derive(Debug)]
pub enum ChatReply {
    /// There is none that could be read, for this reason.
    Failed(String),
    /// The service refused the request.
    Refused { status: HttpStatus, detail: String },
    /// The completions.
    Choices(Vec<ChoiceMessage>),
}

/// Where completions are asked for.
pub open spec fn completions(base_url: Seq<char>) -> Seq<char> {
    http::address(base_url, "/chat/completions"@)
}

/// A message of a conversation.
pub open spec fn turn(role: Seq<char>, content: JsonTree) -> JsonTree {
    JsonTree::Object(map!["role"@ => JsonTree::Text(role), "content"@ => content])
}

/// A message of a conversation.
pub(crate) fn turn_value(role: &str, content: Value) -> (value: Value)
    ensures
        json::json_tree(value) == turn(role@, json::json_tree(content)),
{
    let value: Value = json::with(
        json::with(json::empty_object(), "role", json::of_text(role)),
        "content",
        content,
    );
    assert(json::json_tree(value) =~= turn(role@, json::json_tree(content)));
    value
}

/// The message for a reply without a completion, if `what` was asked for.
pub open spec fn no_message(reply: ChatReply, what: Seq<char>, none: Seq<char>) -> Option<Seq<char>> {
    match reply {
        ChatReply::Failed(reason) => Some(reason@),
        ChatReply::Refused { status, detail } => Some(http::refusal(what, status, detail@)),
        ChatReply::Choices(choices) => if choices@.len() == 0 {
            Some(none)
        } else {
            None
        },
    }
}

/// The first completion of a reply, or the reason why there is none.
pub fn first_message(reply: ChatReply, what: &str, none: &str) -> (message: Result<
    ChoiceMessage,
    String,
>)
    ensures
        match message {
            Ok(message) => reply matches ChatReply::Choices(choices) && choices@.len() > 0
                && message == choices@[0],
            Err(reason) => no_message(reply, what@, none@) == Some(reason@),
        },
        reply matches ChatReply::Choices(choices) && choices@.len() > 0 <==> message is Ok,
        message matches Err(reason) ==> reason@ == (match reply {
            ChatReply::Failed(failure) => failure@,
            ChatReply::Refused { status, detail } => what@ + " failed ("@ + status.shown@ + "): "@
                + detail@,
            ChatReply::Choices(_) => none@,
        }),
{
    match reply {
        ChatReply::Failed(reason) => Err(reason),
        ChatReply::Refused { status, detail } => Err(http::refused(what, &status, &detail)),
        ChatReply::Choices(choices) => {
            let mut choices: Vec<ChoiceMessage> = choices;
            if choices.len() == 0 {
                Err(none.to_owned())
            } else {
                Ok(choices.remove(0))
            }
        },
    }
}

}
