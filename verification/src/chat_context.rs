//! The ordered conversation state bound to one model: turns, advertised
//! function declarations, and the function-call directive, with the wire
//! encoding of the whole request body.
//!
//! Empty collections are omitted from the wire form entirely: a context
//! with no turns encodes without a `messages` key, one with no declarations
//! without a `functions` key, and an unset directive without a
//! `function_call` key.

use vstd::prelude::*;

use crate::function_specification::{function_specification_wire, FunctionSpecification,
    FunctionSpecificationView};
use crate::message::{message_wire, Message, MessageView};
use crate::text::{comma_join, lemma_comma_join_push};

verus! {

/// The long-lived, mutable conversation aggregate.
#[derive(Clone, Debug)]
pub struct ChatContext {
    pub model: String,
    pub messages: Vec<Message>,
    pub functions: Vec<FunctionSpecification>,
    pub function_call: Option<String>,
}

/// The mathematical model of a `ChatContext`.
pub ghost struct ChatContextView {
    pub model: Seq<char>,
    pub messages: Seq<MessageView>,
    pub functions: Seq<FunctionSpecificationView>,
    pub function_call: Option<Seq<char>>,
}

impl View for ChatContext {
    type V = ChatContextView;

    open spec fn view(&self) -> ChatContextView {
        ChatContextView {
            model: self.model@,
            messages: Seq::new(self.messages@.len(), |i: int| self.messages@[i]@),
            functions: Seq::new(self.functions@.len(), |i: int| self.functions@[i]@),
            function_call: self.function_call.deep_view(),
        }
    }
}

/// The `messages` segment of the wire form, omitted entirely when the
/// context holds no turn.
pub open spec fn ctx_messages_part(c: ChatContextView) -> Seq<char> {
    if c.messages.len() == 0 {
        Seq::empty()
    } else {
        (",\"messages\":[")@ + comma_join(c.messages.map_values(|m: MessageView| message_wire(m)))
            + ("]")@
    }
}

/// The `functions` segment of the wire form, omitted entirely when no
/// declaration is advertised.
pub open spec fn ctx_functions_part(c: ChatContextView) -> Seq<char> {
    if c.functions.len() == 0 {
        Seq::empty()
    } else {
        (",\"functions\":[")@ + comma_join(
            c.functions.map_values(|f: FunctionSpecificationView| function_specification_wire(f)),
        ) + ("]")@
    }
}

/// The `function_call` directive segment of the wire form, omitted when the
/// directive is unset.
pub open spec fn ctx_directive_part(c: ChatContextView) -> Seq<char> {
    match c.function_call {
        Some(d) => (",\"function_call\":\"")@ + d + ("\"")@,
        None => Seq::empty(),
    }
}

/// The wire form of a whole request body, keys in the order `model,
/// messages, functions, function_call`.
pub open spec fn chat_context_wire(c: ChatContextView) -> Seq<char> {
    ("{\"model\":\"")@ + c.model + ("\"")@ + ctx_messages_part(c) + ctx_functions_part(c)
        + ctx_directive_part(c) + ("}")@
}

/// A context with zero turns encodes without any `messages` segment: the
/// wire form is the model, the functions, and the directive alone.
pub proof fn lemma_encode_no_messages(c: ChatContextView)
    requires
        c.messages.len() == 0,
    ensures
        chat_context_wire(c) == ("{\"model\":\"")@ + c.model + ("\"")@ + ctx_functions_part(c)
            + ctx_directive_part(c) + ("}")@,
{
    assert(chat_context_wire(c) =~= ("{\"model\":\"")@ + c.model + ("\"")@ + ctx_functions_part(c)
        + ctx_directive_part(c) + ("}")@);
}

impl ChatContext {
    /// Create a context for the given model, with no turns, no function
    /// declarations, and no function-call directive.
    pub fn new(model: String) -> (r: ChatContext)
        ensures
            r.model == model,
            r@.messages.len() == 0,
            r@.functions.len() == 0,
            r.function_call is None,
    {
        ChatContext { model, messages: Vec::new(), functions: Vec::new(), function_call: None }
    }

    /// Append one turn at the end of the conversation.
    pub fn push_message(&mut self, message: Message)
        ensures
            final(self)@.messages == old(self)@.messages.push(message@),
            final(self).model == old(self).model,
            final(self)@.functions == old(self)@.functions,
            final(self).function_call == old(self).function_call,
    {
        self.messages.push(message);
        proof {
            assert(self@.messages =~= old(self)@.messages.push(self.messages@.last()@));
            assert(self@.functions =~= old(self)@.functions);
        }
    }

    /// Replace the whole turn sequence, overwriting the history.
    pub fn set_messages(&mut self, messages: Vec<Message>)
        ensures
            final(self)@.messages == messages.deep_view(),
            final(self).model == old(self).model,
            final(self)@.functions == old(self)@.functions,
            final(self).function_call == old(self).function_call,
    {
        self.messages = messages;
        proof {
            assert(self@.messages =~= self.messages.deep_view());
            assert(self@.functions =~= old(self)@.functions);
        }
    }

    /// Append one function declaration.
    pub fn push_function(&mut self, functions: FunctionSpecification)
        ensures
            final(self)@.functions == old(self)@.functions.push(functions@),
            final(self).model == old(self).model,
            final(self)@.messages == old(self)@.messages,
            final(self).function_call == old(self).function_call,
    {
        self.functions.push(functions);
        proof {
            assert(self@.functions =~= old(self)@.functions.push(self.functions@.last()@));
            assert(self@.messages =~= old(self)@.messages);
        }
    }

    /// Replace the whole list of advertised function declarations.
    pub fn set_functions(&mut self, functions: Vec<FunctionSpecification>)
        ensures
            final(self)@.functions == functions.deep_view(),
            final(self).model == old(self).model,
            final(self)@.messages == old(self)@.messages,
            final(self).function_call == old(self).function_call,
    {
        self.functions = functions;
        proof {
            assert(self@.functions =~= self.functions.deep_view());
            assert(self@.messages =~= old(self)@.messages);
        }
    }

    /// Set the function-call directive for the next completion.
    pub fn set_function_call(&mut self, function_call: String)
        ensures
            final(self).function_call == Some(function_call),
            final(self).model == old(self).model,
            final(self)@.messages == old(self)@.messages,
            final(self)@.functions == old(self)@.functions,
    {
        self.function_call = Some(function_call);
        proof {
            assert(self@.messages =~= old(self)@.messages);
            assert(self@.functions =~= old(self)@.functions);
        }
    }

    /// The content of the last turn: `None` when the context holds no turn
    /// or the last turn carries no content.
    pub fn last_content(&self) -> (r: Option<String>)
        ensures
            r.deep_view() == (if self@.messages.len() == 0 {
                None::<Seq<char>>
            } else {
                self@.messages.last().content
            }),
    {
        if self.messages.len() == 0 {
            None
        } else {
            match &self.messages[self.messages.len() - 1].content {
                Some(c) => Some(c.clone()),
                None => None,
            }
        }
    }

    /// The name and arguments of the last turn's function call: `None` when
    /// the context holds no turn or the last turn carries no function call.
    pub fn last_function_call(&self) -> (r: Option<(String, String)>)
        ensures
            ({
                let ms = self@.messages;
                if ms.len() == 0 {
                    r is None
                } else {
                    match ms.last().function_call {
                        Some(fc) => r matches Some(p) && p.0@ == fc.name && p.1@ == fc.arguments,
                        None => r is None,
                    }
                }
            }),
    {
        if self.messages.len() == 0 {
            None
        } else {
            match &self.messages[self.messages.len() - 1].function_call {
                Some(f) => Some((f.name.clone(), f.arguments.clone())),
                None => None,
            }
        }
    }

    /// Emit the wire form of the whole request body.
    pub fn encode_for_wire(&self) -> (r: String)
        ensures
            r@ == chat_context_wire(self@),
    {
        let mut out = String::from_str("{\"model\":\"");
        out.append(self.model.as_str());
        out.append("\"");
        if self.messages.len() > 0 {
            out.append(",\"messages\":[");
            let ghost pre = out@;
            let ghost items = self@.messages.map_values(|m: MessageView| message_wire(m));
            let mut i: usize = 0;
            proof {
                assert(items.take(0int) =~= Seq::<Seq<char>>::empty());
                assert(out@ =~= pre + comma_join(items.take(0int)));
            }
            while i < self.messages.len()
                invariant
                    i <= self.messages.len(),
                    items == self@.messages.map_values(|m: MessageView| message_wire(m)),
                    items.len() == self.messages@.len(),
                    forall|j: int|
                        0 <= j < self.messages@.len() ==> items[j] == message_wire(
                            self.messages@[j]@,
                        ),
                    out@ == pre + comma_join(items.take(i as int)),
                decreases self.messages.len() - i,
            {
                if i > 0 {
                    out.append(",");
                }
                let e = self.messages[i].encode_for_wire();
                out.append(e.as_str());
                proof {
                    reveal_strlit(",");
                    assert(items.take(i + 1) =~= items.take(i as int).push(items[i as int]));
                    lemma_comma_join_push(items.take(i as int), items[i as int]);
                    assert(out@ =~= pre + comma_join(items.take(i + 1)));
                }
                i = i + 1;
            }
            proof {
                assert(items.take(self.messages@.len() as int) =~= items);
            }
            out.append("]");
        }
        if self.functions.len() > 0 {
            out.append(",\"functions\":[");
            let ghost pre = out@;
            let ghost items = self@.functions.map_values(
                |f: FunctionSpecificationView| function_specification_wire(f),
            );
            let mut i: usize = 0;
            proof {
                assert(items.take(0int) =~= Seq::<Seq<char>>::empty());
                assert(out@ =~= pre + comma_join(items.take(0int)));
            }
            while i < self.functions.len()
                invariant
                    i <= self.functions.len(),
                    items == self@.functions.map_values(
                        |f: FunctionSpecificationView| function_specification_wire(f),
                    ),
                    items.len() == self.functions@.len(),
                    forall|j: int|
                        0 <= j < self.functions@.len() ==> items[j] == function_specification_wire(
                            self.functions@[j]@,
                        ),
                    out@ == pre + comma_join(items.take(i as int)),
                decreases self.functions.len() - i,
            {
                if i > 0 {
                    out.append(",");
                }
                let e = self.functions[i].encode_for_wire();
                out.append(e.as_str());
                proof {
                    reveal_strlit(",");
                    assert(items.take(i + 1) =~= items.take(i as int).push(items[i as int]));
                    lemma_comma_join_push(items.take(i as int), items[i as int]);
                    assert(out@ =~= pre + comma_join(items.take(i + 1)));
                }
                i = i + 1;
            }
            proof {
                assert(items.take(self.functions@.len() as int) =~= items);
            }
            out.append("]");
        }
        match &self.function_call {
            Some(d) => {
                out.append(",\"function_call\":\"");
                out.append(d.as_str());
                out.append("\"");
            },
            None => {},
        }
        out.append("}");
        proof {
            assert(out@ =~= chat_context_wire(self@));
        }
        out
    }
}

} // verus!
