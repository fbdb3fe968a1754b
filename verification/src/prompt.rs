//! Prompt builder: a pure mapping from (mode, input text, target language,
//! backend) to the chat request sent to the backend.
//!
//! Every request carries three messages: a system instruction selected by the
//! mode, a priming assistant turn that establishes the expected terse reply
//! format, and the user's input text. The model identifier and endpoint
//! depend on the selected backend alone.

use crate::mode::{Backend, Mode};
use vstd::prelude::*;
use vstd::string::StringExecFns;

verus! {

/// The author of one chat message.
#[derive(Clone, Copy, Debug, PartialEq, Eq, Structural)]
pub enum Role {
    System,
    Assistant,
    User,
}

/// One turn of the conversation sent to the backend.
#[derive(Debug)]
pub struct Message {
    pub role: Role,
    pub content: String,
}

/// The outbound request payload: a model identifier and a message sequence.
#[derive(Debug)]
pub struct ChatRequest {
    pub model: String,
    pub messages: Vec<Message>,
}

/// The wire name of a role.
pub open spec fn role_name(r: Role) -> Seq<char> {
    match r {
        Role::System => "system"@,
        Role::Assistant => "assistant"@,
        Role::User => "user"@,
    }
}

/// The model identifier embedded in payloads for a backend.
pub open spec fn model_id(b: Backend) -> Seq<char> {
    match b {
        Backend::ChatGpt => "gpt-4o-mini"@,
        Backend::Grok => "grok-2-latest"@,
    }
}

/// The completion endpoint of a backend.
pub open spec fn endpoint_url(b: Backend) -> Seq<char> {
    match b {
        Backend::ChatGpt => "https://api.openai.com/v1/chat/completions"@,
        Backend::Grok => "https://api.x.ai/v1/chat/completions"@,
    }
}

/// The system instruction selected by the mode; only translation reads the
/// target language.
pub open spec fn system_instruction(m: Mode, language: Seq<char>) -> Seq<char> {
    match m {
        Mode::Translation => "You are a professional translation engine. Please translate the text into "@
            + language + " without explanation."@,
        Mode::Polishing => "You are a professional polishing engine. Please polish the text."@,
        Mode::Completion => "You are a professional completion engine. Please complete the text."@,
    }
}

/// The priming assistant turn for a mode and backend.
pub open spec fn priming_reply(m: Mode, b: Backend) -> Seq<char> {
    match b {
        Backend::ChatGpt => match m {
            Mode::Translation => "Yes, I understand. Please give me the sentence. I reply only the translated sentence, otherwise reply empty string."@,
            Mode::Polishing => "Yes, I understand. Please give me the sentence. I reply only the polished sentence, otherwise reply empty string."@,
            Mode::Completion => "Yes, I understand. Please give me the sentence."@,
        },
        Backend::Grok => "Yes, I understand. Please give me the sentence."@,
    }
}

/// The request `build` produces for the given inputs: exactly three messages
/// — system instruction, priming turn, user text — under the backend's model.
pub open spec fn is_request_for(
    r: ChatRequest,
    m: Mode,
    text: Seq<char>,
    language: Seq<char>,
    b: Backend,
) -> bool {
    &&& r.model@ == model_id(b)
    &&& r.messages@.len() == 3
    &&& r.messages@[0].role == Role::System
    &&& r.messages@[0].content@ == system_instruction(m, language)
    &&& r.messages@[1].role == Role::Assistant
    &&& r.messages@[1].content@ == priming_reply(m, b)
    &&& r.messages@[2].role == Role::User
    &&& r.messages@[2].content@ == text
}

impl Role {
    /// The wire name, as the HTTP contract spells it.
    pub fn name(&self) -> (r: &'static str)
        ensures
            r@ == role_name(*self),
    {
        match self {
            Role::System => "system",
            Role::Assistant => "assistant",
            Role::User => "user",
        }
    }
}

/// The completion endpoint URL of a backend.
pub fn endpoint(b: Backend) -> (r: &'static str)
    ensures
        r@ == endpoint_url(b),
{
    match b {
        Backend::ChatGpt => "https://api.openai.com/v1/chat/completions",
        Backend::Grok => "https://api.x.ai/v1/chat/completions",
    }
}

/// The model identifier of a backend.
pub fn model(b: Backend) -> (r: &'static str)
    ensures
        r@ == model_id(b),
{
    match b {
        Backend::ChatGpt => "gpt-4o-mini",
        Backend::Grok => "grok-2-latest",
    }
}

fn system_message(m: Mode, language: &str) -> (r: String)
    ensures
        r@ == system_instruction(m, language@),
{
    match m {
        Mode::Translation => {
            let mut s =
                "You are a professional translation engine. Please translate the text into ".to_owned();
            s.append(language);
            s.append(" without explanation.");
            s
        },
        Mode::Polishing => "You are a professional polishing engine. Please polish the text.".to_owned(),
        Mode::Completion => "You are a professional completion engine. Please complete the text.".to_owned(),
    }
}

fn priming_message(m: Mode, b: Backend) -> (r: String)
    ensures
        r@ == priming_reply(m, b),
{
    match b {
        Backend::ChatGpt => match m {
            Mode::Translation => "Yes, I understand. Please give me the sentence. I reply only the translated sentence, otherwise reply empty string.".to_owned(),
            Mode::Polishing => "Yes, I understand. Please give me the sentence. I reply only the polished sentence, otherwise reply empty string.".to_owned(),
            Mode::Completion => "Yes, I understand. Please give me the sentence.".to_owned(),
        },
        Backend::Grok => "Yes, I understand. Please give me the sentence.".to_owned(),
    }
}

/// Builds the request for one accepted submission. Identical inputs yield an
/// identical payload: every field is pinned by `is_request_for`.
pub fn build(m: Mode, text: &str, language: &str, b: Backend) -> (r: ChatRequest)
    ensures
        is_request_for(r, m, text@, language@, b),
{
    let model = model(b).to_owned();
    let mut messages: Vec<Message> = Vec::new();
    messages.push(Message { role: Role::System, content: system_message(m, language) });
    messages.push(Message { role: Role::Assistant, content: priming_message(m, b) });
    messages.push(Message { role: Role::User, content: text.to_owned() });
    ChatRequest { model, messages }
}

} // verus!
