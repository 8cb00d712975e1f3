//! One exchange turn: a role, optional text content, an optional name, and
//! an optional function invocation, together with its wire encoding.
//!
//! The wire protocol requires the `content` key to be present even on turns
//! that carry none: the encoder then emits an empty string.  Keys are written
//! in the fixed order `role, content, name, function_call`, and `name` and
//! `function_call` are omitted when absent.

use vstd::prelude::*;

use crate::error::ChatError;
use crate::escape_json::{escape_seq, EscapeJson};

verus! {

/// An assistant turn's request to invoke a declared function.
#[derive(Debug, PartialEq)]
pub struct FunctionCall {
    pub name: String,
    /// An opaque string holding a serialized parameter payload; transported
    /// as an escaped string, not as a nested object.
    pub arguments: String,
}

/// A message sent by the user or the bot.
#[derive(Debug, PartialEq)]
pub struct Message {
    pub role: String,
    pub content: Option<String>,
    pub name: Option<String>,
    pub function_call: Option<FunctionCall>,
}

/// The mathematical model of a `FunctionCall`.
pub ghost struct FunctionCallView {
    pub name: Seq<char>,
    pub arguments: Seq<char>,
}

/// The mathematical model of a `Message`.
pub ghost struct MessageView {
    pub role: Seq<char>,
    pub content: Option<Seq<char>>,
    pub name: Option<Seq<char>>,
    pub function_call: Option<FunctionCallView>,
}

impl View for FunctionCall {
    type V = FunctionCallView;

    open spec fn view(&self) -> FunctionCallView {
        FunctionCallView { name: self.name@, arguments: self.arguments@ }
    }
}

impl View for Message {
    type V = MessageView;

    open spec fn view(&self) -> MessageView {
        MessageView {
            role: self.role@,
            content: self.content.deep_view(),
            name: self.name.deep_view(),
            function_call: match self.function_call {
                Some(fc) => Some(fc@),
                None => None,
            },
        }
    }
}

impl DeepView for FunctionCall {
    type V = FunctionCallView;

    open spec fn deep_view(&self) -> FunctionCallView {
        self.view()
    }
}

impl DeepView for Message {
    type V = MessageView;

    open spec fn deep_view(&self) -> MessageView {
        self.view()
    }
}

impl Clone for FunctionCall {
    fn clone(&self) -> (r: Self)
        ensures
            r == *self,
    {
        FunctionCall { name: self.name.clone(), arguments: self.arguments.clone() }
    }
}

impl Clone for Message {
    fn clone(&self) -> (r: Self)
        ensures
            r == *self,
    {
        Message {
            role: self.role.clone(),
            content: match &self.content {
                Some(c) => Some(c.clone()),
                None => None,
            },
            name: match &self.name {
                Some(n) => Some(n.clone()),
                None => None,
            },
            function_call: match &self.function_call {
                Some(fc) => Some(fc.clone()),
                None => None,
            },
        }
    }
}

/// The wire form of a function call: the name raw, the arguments escaped.
pub open spec fn function_call_wire(fc: FunctionCallView) -> Seq<char> {
    ("{\"name\":\"")@ + fc.name + ("\",\"arguments\":\"")@ + escape_seq(fc.arguments) + ("\"}")@
}

/// The `content` segment of a turn's wire form: always present, an empty
/// string standing in where the turn carries no content.
pub open spec fn msg_content_part(m: MessageView) -> Seq<char> {
    (",\"content\":\"")@ + (match m.content {
        Some(c) => escape_seq(c),
        None => Seq::empty(),
    }) + ("\"")@
}

/// The `name` segment of a turn's wire form, empty when absent.
pub open spec fn msg_name_part(m: MessageView) -> Seq<char> {
    match m.name {
        Some(n) => (",\"name\":\"")@ + n + ("\"")@,
        None => Seq::empty(),
    }
}

/// The `function_call` segment of a turn's wire form, empty when absent.
pub open spec fn msg_fc_part(m: MessageView) -> Seq<char> {
    match m.function_call {
        Some(fc) => (",\"function_call\":")@ + function_call_wire(fc),
        None => Seq::empty(),
    }
}

/// The wire form of a whole turn.
pub open spec fn message_wire(m: MessageView) -> Seq<char> {
    ("{\"role\":\"")@ + m.role + ("\"")@ + msg_content_part(m) + msg_name_part(m) + msg_fc_part(m)
        + ("}")@
}

/// A turn without content is encoded with an explicit empty `content`
/// string: the `content` key is never absent from the wire form.
pub proof fn lemma_encode_no_content(m: MessageView)
    requires
        m.content is None,
    ensures
        message_wire(m) == ("{\"role\":\"")@ + m.role + ("\",\"content\":\"\"")@ + msg_name_part(m)
            + msg_fc_part(m) + ("}")@,
{
    reveal_strlit("\"");
    reveal_strlit(",\"content\":\"");
    reveal_strlit("\",\"content\":\"\"");
    assert(message_wire(m) =~= ("{\"role\":\"")@ + m.role + ("\",\"content\":\"\"")@
        + msg_name_part(m) + msg_fc_part(m) + ("}")@);
}

impl FunctionCall {
    /// Emit the wire form; valid JSON, no trailing commas, the arguments
    /// escaped so that quotes and newlines inside them cannot break it.
    pub fn encode_for_wire(&self) -> (r: String)
        ensures
            r@ == function_call_wire(self@),
    {
        let mut out = String::from_str("{\"name\":\"");
        out.append(self.name.as_str());
        out.append("\",\"arguments\":\"");
        let e = self.arguments.escape_json();
        out.append(e.as_str());
        out.append("\"}");
        proof {
            assert(out@ =~= function_call_wire(self@));
        }
        out
    }
}

impl Message {
    /// Construct an empty turn carrying only a role.
    pub fn new(role: String) -> (r: Message)
        ensures
            r.role == role,
            r.content is None,
            r.name is None,
            r.function_call is None,
    {
        Message { role, content: None, name: None, function_call: None }
    }

    /// Construct a `user` turn from raw text; the text is escaped here, at
    /// construction, so that the stored value is wire-ready.
    pub fn new_user_message(content: String) -> (r: Message)
        ensures
            r.role@ == ("user")@,
            r.content matches Some(c) && c@ == escape_seq(content@),
            r.name is None,
            r.function_call is None,
    {
        let content = content.escape_json();
        Message { role: String::from_str("user"), content: Some(content), name: None, function_call: None }
    }

    /// Set the text content of the turn; stored as given, escaped when the
    /// turn is encoded.
    pub fn set_content(&mut self, content: String)
        ensures
            final(self).content == Some(content),
            final(self).role == old(self).role,
            final(self).name == old(self).name,
            final(self).function_call == old(self).function_call,
    {
        self.content = Some(content);
    }

    /// Set the name of the function whose output this turn reports.
    pub fn set_name(&mut self, name: String)
        ensures
            final(self).name == Some(name),
            final(self).role == old(self).role,
            final(self).content == old(self).content,
            final(self).function_call == old(self).function_call,
    {
        self.name = Some(name);
    }

    /// Attach a function invocation to the turn.
    pub fn set_function_call(&mut self, function_call: FunctionCall)
        ensures
            final(self).function_call == Some(function_call),
            final(self).role == old(self).role,
            final(self).content == old(self).content,
            final(self).name == old(self).name,
    {
        self.function_call = Some(function_call);
    }

    /// Emit the wire form: keys in the order `role, content, name,
    /// function_call`; `content` always present (an empty string standing in
    /// when absent); `name` and `function_call` omitted when absent; no
    /// trailing commas.
    pub fn encode_for_wire(&self) -> (r: String)
        ensures
            r@ == message_wire(self@),
    {
        let mut out = String::from_str("{\"role\":\"");
        out.append(self.role.as_str());
        out.append("\"");
        out.append(",\"content\":\"");
        match &self.content {
            Some(c) => {
                let e = c.escape_json();
                out.append(e.as_str());
            },
            None => {},
        }
        out.append("\"");
        match &self.name {
            Some(n) => {
                out.append(",\"name\":\"");
                out.append(n.as_str());
                out.append("\"");
            },
            None => {},
        }
        match &self.function_call {
            Some(fc) => {
                out.append(",\"function_call\":");
                let e = fc.encode_for_wire();
                out.append(e.as_str());
            },
            None => {},
        }
        out.append("}");
        proof {
            assert(out@ =~= message_wire(self@));
        }
        out
    }
}

/// Accumulates the optional fields of a turn and performs construction-time
/// normalization (escaping of the content) exactly once, at `build`.
pub struct MessageBuilder {
    pub role: Option<String>,
    pub content: Option<String>,
    pub name: Option<String>,
    pub function_call: Option<FunctionCall>,
}

impl MessageBuilder {
    /// Start a builder with no field set.
    pub fn new() -> (r: MessageBuilder)
        ensures
            r.role is None,
            r.content is None,
            r.name is None,
            r.function_call is None,
    {
        MessageBuilder { role: None, content: None, name: None, function_call: None }
    }

    /// Set the role of the turn being built.
    pub fn role(self, role: String) -> (r: MessageBuilder)
        ensures
            r.role == Some(role),
            r.content == self.content,
            r.name == self.name,
            r.function_call == self.function_call,
    {
        MessageBuilder { role: Some(role), ..self }
    }

    /// Set the raw content of the turn being built; escaped at `build`.
    pub fn content(self, content: String) -> (r: MessageBuilder)
        ensures
            r.content == Some(content),
            r.role == self.role,
            r.name == self.name,
            r.function_call == self.function_call,
    {
        MessageBuilder { content: Some(content), ..self }
    }

    /// Set the name of the turn being built.
    pub fn name(self, name: String) -> (r: MessageBuilder)
        ensures
            r.name == Some(name),
            r.role == self.role,
            r.content == self.content,
            r.function_call == self.function_call,
    {
        MessageBuilder { name: Some(name), ..self }
    }

    /// Attach a function invocation to the turn being built.
    pub fn function_call(self, function_call: FunctionCall) -> (r: MessageBuilder)
        ensures
            r.function_call == Some(function_call),
            r.role == self.role,
            r.content == self.content,
            r.name == self.name,
    {
        MessageBuilder { function_call: Some(function_call), ..self }
    }

    /// Build the turn: the role defaults to `user`, and the content, if any,
    /// is escaped here so that the stored value is wire-ready.
    pub fn build(self) -> (r: Result<Message, ChatError>)
        ensures
            r matches Ok(m) && m.role@ == (match self.role {
                Some(ro) => ro@,
                None => ("user")@,
            }) && m.content.deep_view() == (match self.content {
                Some(c) => Some(escape_seq(c@)),
                None => None::<Seq<char>>,
            }) && m.name == self.name && m.function_call == self.function_call,
    {
        let role = match self.role {
            Some(ro) => ro,
            None => String::from_str("user"),
        };
        let content = match self.content {
            Some(c) => Some(c.escape_json()),
            None => None,
        };
        Ok(Message { role, content, name: self.name, function_call: self.function_call })
    }
}

} // verus!
