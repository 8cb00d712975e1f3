//! The client state for a completion session: the backend model, the API
//! token, a session identifier, and the conversation context, together with
//! the pure halves of the completion cycle.
//!
//! The network transport itself lives outside this crate: it takes the
//! encoded request body from `request_body`, and hands the raw reply text to
//! `parse_removing_newlines`; `reply_message` and `fold_response` then
//! decide what enters the context.

use vstd::prelude::*;

use crate::chat_context::ChatContext;
use crate::chat_response::ChatResponse;
use crate::error::ChatError;
use crate::json::decode_response_spec;
use crate::message::Message;
use crate::text::strip_nl;

verus! {

/// Relies on uuid's `Uuid::new_v4` and its `Display` impl: a fresh random
/// version-4 UUID rendered in the hyphenated form, which is always 36
/// characters long.  Nothing more is assumed of a random identifier.
#[verifier::external_body]
fn new_session_id() -> (r: String)
    ensures
        r@.len() == 36,
{
    uuid::Uuid::new_v4().to_string()
}

/// The model a fresh session speaks to when none is chosen.
pub fn default_model() -> (r: String)
    ensures
        r@ == ("gpt-3.5-turbo-0613")@,
{
    String::from_str("gpt-3.5-turbo-0613")
}

/// Accumulates the optional pieces of a client before `build` puts them
/// together, filling in the defaults.
pub struct ChatGPTBuilder {
    pub model: Option<String>,
    pub openai_api_token: Option<String>,
    pub session_id: Option<String>,
    pub chat_context: Option<ChatContext>,
}

impl ChatGPTBuilder {
    /// Start a builder with no piece set.
    pub fn new() -> (r: ChatGPTBuilder)
        ensures
            r.model is None,
            r.openai_api_token is None,
            r.session_id is None,
            r.chat_context is None,
    {
        ChatGPTBuilder { model: None, openai_api_token: None, session_id: None, chat_context: None }
    }

    /// Choose the backend model.
    pub fn model(self, model: String) -> (r: ChatGPTBuilder)
        ensures
            r.model == Some(model),
            r.openai_api_token == self.openai_api_token,
            r.session_id == self.session_id,
            r.chat_context == self.chat_context,
    {
        ChatGPTBuilder { model: Some(model), ..self }
    }

    /// Supply the API token; without one, `build` fails.
    pub fn openai_api_token(self, openai_api_token: String) -> (r: ChatGPTBuilder)
        ensures
            r.openai_api_token == Some(openai_api_token),
            r.model == self.model,
            r.session_id == self.session_id,
            r.chat_context == self.chat_context,
    {
        ChatGPTBuilder { openai_api_token: Some(openai_api_token), ..self }
    }

    /// Choose the session identifier instead of a generated one.
    pub fn session_id(self, session_id: String) -> (r: ChatGPTBuilder)
        ensures
            r.session_id == Some(session_id),
            r.model == self.model,
            r.openai_api_token == self.openai_api_token,
            r.chat_context == self.chat_context,
    {
        ChatGPTBuilder { session_id: Some(session_id), ..self }
    }

    /// Start from an existing conversation context instead of an empty one.
    pub fn chat_context(self, chat_context: ChatContext) -> (r: ChatGPTBuilder)
        ensures
            r.chat_context == Some(chat_context),
            r.model == self.model,
            r.openai_api_token == self.openai_api_token,
            r.session_id == self.session_id,
    {
        ChatGPTBuilder { chat_context: Some(chat_context), ..self }
    }

    /// Put the client state together: the model defaults to
    /// `gpt-3.5-turbo-0613`, the session identifier to a fresh UUID, and
    /// the context to an empty one for the chosen model.  Fails when no API
    /// token was supplied.
    pub fn build(self) -> (r: Result<ChatGPT, ChatError>)
        ensures
            self.openai_api_token is None ==> (r matches Err(e) && e == ChatError::MissingApiToken),
            self.openai_api_token is Some ==> (r matches Ok(g) && {
                &&& g.model@ == (match self.model {
                    Some(m) => m@,
                    None => ("gpt-3.5-turbo-0613")@,
                })
                &&& g.openai_api_token == self.openai_api_token.unwrap()
                &&& (self.session_id is Some ==> g.session_id == self.session_id.unwrap())
                &&& (self.session_id is None ==> g.session_id@.len() == 36)
                &&& (match self.chat_context {
                    Some(c) => g.chat_context == c,
                    None => g.chat_context@.model == g.model@ && g.chat_context@.messages.len()
                        == 0 && g.chat_context@.functions.len() == 0
                        && g.chat_context.function_call is None,
                })
            }),
    {
        let model = match self.model {
            Some(m) => m,
            None => default_model(),
        };
        let openai_api_token = match self.openai_api_token {
            Some(t) => t,
            None => {
                return Err(ChatError::MissingApiToken);
            },
        };
        let session_id = match self.session_id {
            Some(s) => s,
            None => new_session_id(),
        };
        let chat_context = match self.chat_context {
            Some(c) => c,
            None => ChatContext::new(model.clone()),
        };
        Ok(ChatGPT { model, openai_api_token, session_id, chat_context })
    }
}

/// The assembled client state: everything a transport needs to send a
/// completion request, except the connection itself.
pub struct ChatGPT {
    pub model: String,
    pub openai_api_token: String,
    pub session_id: String,
    pub chat_context: ChatContext,
}

impl ChatGPT {
    /// Assemble the client state from its parts directly.
    pub fn new(
        model: String,
        openai_api_token: String,
        session_id: String,
        chat_context: ChatContext,
    ) -> (r: Result<ChatGPT, ChatError>)
        ensures
            r matches Ok(g) && g.model == model && g.openai_api_token == openai_api_token
                && g.session_id == session_id && g.chat_context == chat_context,
    {
        Ok(ChatGPT { model, openai_api_token, session_id, chat_context })
    }

    /// The encoded request body for the current context; what a transport
    /// sends to the completion endpoint.
    pub fn request_body(&self) -> (r: String)
        ensures
            r@ == crate::chat_context::chat_context_wire(self.chat_context@),
    {
        self.chat_context.encode_for_wire()
    }

    /// Append one turn to the conversation.
    pub fn push_message(&mut self, message: Message)
        ensures
            final(self).chat_context@.messages == old(self).chat_context@.messages.push(message@),
            final(self).chat_context.model == old(self).chat_context.model,
            final(self).chat_context@.functions == old(self).chat_context@.functions,
            final(self).chat_context.function_call == old(self).chat_context.function_call,
            final(self).model == old(self).model,
            final(self).openai_api_token == old(self).openai_api_token,
            final(self).session_id == old(self).session_id,
    {
        self.chat_context.push_message(message);
    }

    /// Replace the whole turn sequence of the conversation.
    pub fn set_messages(&mut self, messages: Vec<Message>)
        ensures
            final(self).chat_context@.messages == messages.deep_view(),
            final(self).chat_context.model == old(self).chat_context.model,
            final(self).chat_context@.functions == old(self).chat_context@.functions,
            final(self).chat_context.function_call == old(self).chat_context.function_call,
            final(self).model == old(self).model,
            final(self).openai_api_token == old(self).openai_api_token,
            final(self).session_id == old(self).session_id,
    {
        self.chat_context.set_messages(messages);
    }

    /// Advertise one more function declaration.
    pub fn push_function(&mut self, function: crate::function_specification::FunctionSpecification)
        ensures
            final(self).chat_context@.functions == old(self).chat_context@.functions.push(
                function@,
            ),
            final(self).chat_context.model == old(self).chat_context.model,
            final(self).chat_context@.messages == old(self).chat_context@.messages,
            final(self).chat_context.function_call == old(self).chat_context.function_call,
            final(self).model == old(self).model,
            final(self).openai_api_token == old(self).openai_api_token,
            final(self).session_id == old(self).session_id,
    {
        self.chat_context.push_function(function);
    }

    /// Replace the whole list of advertised function declarations.
    pub fn set_functions(
        &mut self,
        functions: Vec<crate::function_specification::FunctionSpecification>,
    )
        ensures
            final(self).chat_context@.functions == functions.deep_view(),
            final(self).chat_context.model == old(self).chat_context.model,
            final(self).chat_context@.messages == old(self).chat_context@.messages,
            final(self).chat_context.function_call == old(self).chat_context.function_call,
            final(self).model == old(self).model,
            final(self).openai_api_token == old(self).openai_api_token,
            final(self).session_id == old(self).session_id,
    {
        self.chat_context.set_functions(functions);
    }

    /// The content of the last turn in the conversation, if any.
    pub fn last_content(&self) -> (r: Option<String>)
        ensures
            r.deep_view() == (if self.chat_context@.messages.len() == 0 {
                None::<Seq<char>>
            } else {
                self.chat_context@.messages.last().content
            }),
    {
        self.chat_context.last_content()
    }

    /// The function call of the last turn in the conversation, if any.
    pub fn last_function(&self) -> (r: Option<(String, String)>)
        ensures
            ({
                let ms = self.chat_context@.messages;
                if ms.len() == 0 {
                    r is None
                } else {
                    match ms.last().function_call {
                        Some(fc) => r matches Some(p) && p.0@ == fc.name && p.1@ == fc.arguments,
                        None => r is None,
                    }
                }
            }),
    {
        self.chat_context.last_function_call()
    }

    /// Fold a decoded reply back into the context: the first choice's turn
    /// is appended; an envelope without choices leaves the context as it
    /// was.  A function-invoking reply arrives as an assistant turn with no
    /// content and a populated function call, and is stored exactly so.
    pub fn fold_response(&mut self, response: &ChatResponse)
        ensures
            response@.choices.len() == 0 ==> final(self).chat_context@.messages == old(
                self,
            ).chat_context@.messages,
            response@.choices.len() > 0 ==> final(self).chat_context@.messages == old(
                self,
            ).chat_context@.messages.push(response@.choices[0].message),
            final(self).chat_context.model == old(self).chat_context.model,
            final(self).chat_context@.functions == old(self).chat_context@.functions,
            final(self).chat_context.function_call == old(self).chat_context.function_call,
            final(self).model == old(self).model,
            final(self).openai_api_token == old(self).openai_api_token,
            final(self).session_id == old(self).session_id,
    {
        match response.message() {
            Some(m) => {
                self.chat_context.push_message(m);
            },
            None => {},
        }
    }
}

/// Decode raw reply text into a response envelope, first stripping every
/// literal newline from the whole body.  The external API has been seen to
/// embed unescaped newlines inside string values, which would break the
/// parse; the stripping is applied to the full body before any parsing, so
/// it also flattens newlines that were legitimately part of decoded string
/// content.  A reply that still does not parse is reported with the
/// stripped text attached.
pub fn parse_removing_newlines(response: String) -> (r: Result<ChatResponse, ChatError>)
    ensures
        ({
            let stripped = strip_nl(response@);
            match decode_response_spec(stripped) {
                Some(v) => r matches Ok(e) && e@ == v,
                None => r matches Err(e) && e matches ChatError::Decode(t) && t@ == stripped,
            }
        }),
{
    let stripped = crate::text::strip_newlines(response.as_str());
    match crate::decode::decode_chat_response(stripped.as_str()) {
        Some(e) => Ok(e),
        None => Err(ChatError::Decode(stripped)),
    }
}

/// The turn that a completion produced: the first choice's message.  An
/// envelope with no choice at all is a decode-level error, never an empty
/// turn.
pub fn reply_message(response: &ChatResponse) -> (r: Result<Message, ChatError>)
    ensures
        response@.choices.len() == 0 ==> (r matches Err(e) && e == ChatError::MissingChoice),
        response@.choices.len() > 0 ==> (r matches Ok(m) && m@ == response@.choices[0].message),
{
    match response.message() {
        Some(m) => Ok(m),
        None => Err(ChatError::MissingChoice),
    }
}

} // verus!
