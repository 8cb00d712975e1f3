//! The decoded response envelope returned by the completion transport: an
//! identifier, a creation timestamp, the list of choices each carrying a
//! turn, and the usage counters, with wire encoders for diagnostics.

use vstd::prelude::*;

use crate::message::{message_wire, Message, MessageView};
use crate::text::{comma_join, dec_rep, lemma_comma_join_push, u64_to_string};

verus! {

/// One choice of the response envelope: an index, the turn the assistant
/// produced, and why generation stopped.
#[derive(Clone, Debug, PartialEq)]
pub struct Choice {
    pub index: u64,
    pub message: Message,
    pub finish_reason: String,
}

/// The token accounting of one completion.
#[derive(Clone, Debug, PartialEq)]
pub struct Usage {
    pub prompt_tokens: u32,
    pub completion_tokens: u32,
    pub total_tokens: u32,
}

/// The top-level response envelope.
#[derive(Debug, PartialEq)]
pub struct ChatResponse {
    pub id: String,
    pub object: String,
    pub created: u64,
    pub choices: Vec<Choice>,
    pub usage: Usage,
}

/// The mathematical model of a `Choice`.
pub ghost struct ChoiceView {
    pub index: nat,
    pub message: MessageView,
    pub finish_reason: Seq<char>,
}

/// The mathematical model of a `Usage`.
pub ghost struct UsageView {
    pub prompt_tokens: nat,
    pub completion_tokens: nat,
    pub total_tokens: nat,
}

/// The mathematical model of a `ChatResponse`.
pub ghost struct ChatResponseView {
    pub id: Seq<char>,
    pub object: Seq<char>,
    pub created: nat,
    pub choices: Seq<ChoiceView>,
    pub usage: UsageView,
}

impl View for Choice {
    type V = ChoiceView;

    open spec fn view(&self) -> ChoiceView {
        ChoiceView {
            index: self.index as nat,
            message: self.message@,
            finish_reason: self.finish_reason@,
        }
    }
}

impl DeepView for Choice {
    type V = ChoiceView;

    open spec fn deep_view(&self) -> ChoiceView {
        self.view()
    }
}

impl View for Usage {
    type V = UsageView;

    open spec fn view(&self) -> UsageView {
        UsageView {
            prompt_tokens: self.prompt_tokens as nat,
            completion_tokens: self.completion_tokens as nat,
            total_tokens: self.total_tokens as nat,
        }
    }
}

impl View for ChatResponse {
    type V = ChatResponseView;

    open spec fn view(&self) -> ChatResponseView {
        ChatResponseView {
            id: self.id@,
            object: self.object@,
            created: self.created as nat,
            choices: self.choices.deep_view(),
            usage: self.usage@,
        }
    }
}

/// The wire form of one choice.
pub open spec fn choice_wire(c: ChoiceView) -> Seq<char> {
    ("{\"index\":")@ + dec_rep(c.index) + (",\"message\":")@ + message_wire(c.message) + (
    ",\"finish_reason\":\"")@ + c.finish_reason + ("\"}")@
}

/// The wire form of the usage counters.
pub open spec fn usage_wire(u: UsageView) -> Seq<char> {
    ("{\"prompt_tokens\":")@ + dec_rep(u.prompt_tokens) + (",\"completion_tokens\":")@ + dec_rep(
        u.completion_tokens,
    ) + (",\"total_tokens\":")@ + dec_rep(u.total_tokens) + ("}")@
}

/// The wire form of the whole response envelope.
pub open spec fn chat_response_wire(r: ChatResponseView) -> Seq<char> {
    ("{\"id\":\"")@ + r.id + ("\",\"object\":\"")@ + r.object + ("\",\"created\":")@ + dec_rep(
        r.created,
    ) + (",\"choices\":[")@ + comma_join(r.choices.map_values(|c: ChoiceView| choice_wire(c))) + (
    "],\"usage\":")@ + usage_wire(r.usage) + ("}")@
}

impl Choice {
    /// Emit the wire form of this choice.
    pub fn encode_for_wire(&self) -> (r: String)
        ensures
            r@ == choice_wire(self@),
    {
        let mut out = String::from_str("{\"index\":");
        let e = u64_to_string(self.index);
        out.append(e.as_str());
        out.append(",\"message\":");
        let e = self.message.encode_for_wire();
        out.append(e.as_str());
        out.append(",\"finish_reason\":\"");
        out.append(self.finish_reason.as_str());
        out.append("\"}");
        proof {
            assert(out@ =~= choice_wire(self@));
        }
        out
    }
}

impl Usage {
    /// Emit the wire form of the usage counters.
    pub fn encode_for_wire(&self) -> (r: String)
        ensures
            r@ == usage_wire(self@),
    {
        let mut out = String::from_str("{\"prompt_tokens\":");
        let e = u64_to_string(self.prompt_tokens as u64);
        out.append(e.as_str());
        out.append(",\"completion_tokens\":");
        let e = u64_to_string(self.completion_tokens as u64);
        out.append(e.as_str());
        out.append(",\"total_tokens\":");
        let e = u64_to_string(self.total_tokens as u64);
        out.append(e.as_str());
        out.append("}");
        proof {
            assert(out@ =~= usage_wire(self@));
        }
        out
    }
}

impl ChatResponse {
    /// The content of the first choice's turn: `None` when the envelope
    /// holds no choice or that turn carries no content.
    pub fn content(&self) -> (r: Option<String>)
        ensures
            r.deep_view() == (if self@.choices.len() == 0 {
                None::<Seq<char>>
            } else {
                self@.choices[0].message.content
            }),
    {
        if self.choices.len() == 0 {
            None
        } else {
            match &self.choices[0].message.content {
                Some(c) => Some(c.clone()),
                None => None,
            }
        }
    }

    /// The name and arguments of the first choice's function call: `None`
    /// when the envelope holds no choice or that turn carries no function
    /// call.
    pub fn function_call(&self) -> (r: Option<(String, String)>)
        ensures
            ({
                let cs = self@.choices;
                if cs.len() == 0 {
                    r is None
                } else {
                    match cs[0].message.function_call {
                        Some(fc) => r matches Some(p) && p.0@ == fc.name && p.1@ == fc.arguments,
                        None => r is None,
                    }
                }
            }),
    {
        if self.choices.len() == 0 {
            None
        } else {
            match &self.choices[0].message.function_call {
                Some(f) => Some((f.name.clone(), f.arguments.clone())),
                None => None,
            }
        }
    }

    /// The turn of the first choice: the message that the assistant sends,
    /// `None` when the envelope holds no choice.
    pub fn message(&self) -> (r: Option<Message>)
        ensures
            ({
                let cs = self@.choices;
                if cs.len() == 0 {
                    r is None
                } else {
                    r matches Some(m) && m@ == cs[0].message
                }
            }),
    {
        if self.choices.len() == 0 {
            None
        } else {
            Some(self.choices[0].message.clone())
        }
    }

    /// Emit the wire form of the whole envelope.
    pub fn encode_for_wire(&self) -> (r: String)
        ensures
            r@ == chat_response_wire(self@),
    {
        let mut out = String::from_str("{\"id\":\"");
        out.append(self.id.as_str());
        out.append("\",\"object\":\"");
        out.append(self.object.as_str());
        out.append("\",\"created\":");
        let e = u64_to_string(self.created);
        out.append(e.as_str());
        out.append(",\"choices\":[");
        let ghost pre = out@;
        let ghost items = self@.choices.map_values(|c: ChoiceView| choice_wire(c));
        let mut i: usize = 0;
        proof {
            assert(items.take(0int) =~= Seq::<Seq<char>>::empty());
            assert(out@ =~= pre + comma_join(items.take(0int)));
        }
        while i < self.choices.len()
            invariant
                i <= self.choices.len(),
                items == self@.choices.map_values(|c: ChoiceView| choice_wire(c)),
                items.len() == self.choices@.len(),
                forall|j: int|
                    0 <= j < self.choices@.len() ==> items[j] == choice_wire(self.choices@[j]@),
                out@ == pre + comma_join(items.take(i as int)),
            decreases self.choices.len() - i,
        {
            if i > 0 {
                out.append(",");
            }
            let e = self.choices[i].encode_for_wire();
            out.append(e.as_str());
            proof {
                reveal_strlit(",");
                assert(items.take(i + 1) =~= items.take(i as int).push(items[i as int]));
                lemma_comma_join_push(items.take(i as int), items[i as int]);
                assert(out@ =~= pre + comma_join(items.take(i + 1)));
            }
            i = i + 1;
        }
        proof {
            assert(items.take(self.choices@.len() as int) =~= items);
        }
        out.append("],\"usage\":");
        let e = self.usage.encode_for_wire();
        out.append(e.as_str());
        out.append("}");
        proof {
            assert(out@ =~= chat_response_wire(self@));
        }
        out
    }
}

} // verus!
