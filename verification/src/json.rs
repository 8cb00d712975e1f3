//! The mathematical grammar of the wire format: recursive-descent parsers
//! written as spec functions that consume characters from the front of a
//! sequence and return the decoded value with the remaining input.
//!
//! The parsers tolerate whitespace between tokens, accept object members in
//! any order, skip unknown members, and treat a repeated member as
//! overriding the earlier one.  Inside strings they decode exactly the
//! escape sequences that the encoder emits; an unknown escape code fails
//! the parse.  The executable decoder in `decode` is specified against
//! these functions, and the round-trip laws in `laws` are proved of them.

use vstd::prelude::*;

use crate::chat_response::{ChatResponseView, ChoiceView, UsageView};
use crate::escape_json::unescaped_char;
use crate::function_specification::{FunctionSpecificationView, ParametersView, PropertyView};
use crate::message::{FunctionCallView, MessageView};

verus! {

/// The whitespace characters that may separate tokens.
pub open spec fn is_ws(c: char) -> bool {
    c == ' ' || c == '\n' || c == '\r' || c == '\t'
}

/// Drop leading whitespace.
pub open spec fn skip_ws(s: Seq<char>) -> Seq<char>
    decreases s.len(),
{
    if s.len() > 0 && is_ws(s[0]) {
        skip_ws(s.drop_first())
    } else {
        s
    }
}

/// Decode a string body, the opening quote already consumed: characters up
/// to the closing quote, with escape sequences decoded.
pub open spec fn parse_str_body(s: Seq<char>) -> Option<(Seq<char>, Seq<char>)>
    decreases s.len(),
{
    if s.len() == 0 {
        None
    } else if s[0] == '"' {
        Some((Seq::empty(), s.drop_first()))
    } else if s[0] == '\\' {
        if s.len() < 2 {
            None
        } else {
            match unescaped_char(s[1]) {
                None => None,
                Some(c) => match parse_str_body(s.skip(2)) {
                    None => None,
                    Some((t, r)) => Some((seq![c] + t, r)),
                },
            }
        }
    } else {
        match parse_str_body(s.drop_first()) {
            None => None,
            Some((t, r)) => Some((seq![s[0]] + t, r)),
        }
    }
}

/// Decode a quoted string from the front of the input.
pub open spec fn parse_string(s: Seq<char>) -> Option<(Seq<char>, Seq<char>)> {
    if s.len() > 0 && s[0] == '"' {
        parse_str_body(s.drop_first())
    } else {
        None
    }
}

/// A decimal digit character.
pub open spec fn is_digit(c: char) -> bool {
    48 <= c as u32 && c as u32 <= 57
}

/// The numeric value of a digit character.
pub open spec fn digit_val(c: char) -> nat {
    (c as u32 - 48) as nat
}

/// Split the longest run of leading digits from the rest of the input.
pub open spec fn parse_digits(s: Seq<char>) -> (Seq<char>, Seq<char>)
    decreases s.len(),
{
    if s.len() > 0 && is_digit(s[0]) {
        let (d, r) = parse_digits(s.drop_first());
        (seq![s[0]] + d, r)
    } else {
        (Seq::empty(), s)
    }
}

/// The value of a digit run, most significant digit first.
pub open spec fn digits_val(d: Seq<char>) -> nat
    decreases d.len(),
{
    if d.len() == 0 {
        0
    } else {
        digits_val(d.drop_last()) * 10 + digit_val(d.last())
    }
}

/// Decode an unsigned integer: there must be at least one digit and the
/// value must fit in a `u64`.
pub open spec fn parse_u64(s: Seq<char>) -> Option<(u64, Seq<char>)> {
    let (d, r) = parse_digits(s);
    if d.len() == 0 {
        None
    } else if digits_val(d) > u64::MAX {
        None
    } else {
        Some((digits_val(d) as u64, r))
    }
}

/// A character that may occur in a number lexeme.
pub open spec fn is_num_char(c: char) -> bool {
    is_digit(c) || c == '-' || c == '+' || c == '.' || c == 'e' || c == 'E'
}

/// Drop a number lexeme from the front of the input.
pub open spec fn skip_num_chars(s: Seq<char>) -> Seq<char>
    decreases s.len(),
{
    if s.len() > 0 && is_num_char(s[0]) {
        skip_num_chars(s.drop_first())
    } else {
        s
    }
}

/// The input starts with the literal `null`.
pub open spec fn starts_null(s: Seq<char>) -> bool {
    s.len() >= 4 && s[0] == 'n' && s[1] == 'u' && s[2] == 'l' && s[3] == 'l'
}

/// Skip one JSON value of any shape, returning the remaining input.
pub open spec fn skip_value(s: Seq<char>) -> Option<Seq<char>>
    decreases s.len(), 0int,
{
    if s.len() == 0 {
        None
    } else if s[0] == '"' {
        match parse_str_body(s.drop_first()) {
            None => None,
            Some((t, r)) => Some(r),
        }
    } else if s[0] == '{' {
        skip_members(s.drop_first(), true)
    } else if s[0] == '[' {
        skip_elements(s.drop_first(), true)
    } else if s[0] == 't' {
        if s.len() >= 4 && s[1] == 'r' && s[2] == 'u' && s[3] == 'e' {
            Some(s.skip(4))
        } else {
            None
        }
    } else if s[0] == 'f' {
        if s.len() >= 5 && s[1] == 'a' && s[2] == 'l' && s[3] == 's' && s[4] == 'e' {
            Some(s.skip(5))
        } else {
            None
        }
    } else if s[0] == 'n' {
        if starts_null(s) {
            Some(s.skip(4))
        } else {
            None
        }
    } else if is_digit(s[0]) || s[0] == '-' {
        Some(skip_num_chars(s))
    } else {
        None
    }
}

/// Skip the members of an object, the opening brace already consumed; a
/// closing brace may come at once only when no member was consumed yet.
pub open spec fn skip_members(s: Seq<char>, first: bool) -> Option<Seq<char>>
    decreases s.len(), 1int,
{
    let s0 = skip_ws(s);
    if s0.len() == 0 {
        None
    } else if s0[0] == '}' && first {
        Some(s0.drop_first())
    } else {
        match parse_string(s0) {
            None => None,
            Some((k, r1)) => {
                let r2 = skip_ws(r1);
                if r2.len() == 0 || r2[0] != ':' {
                    None
                } else {
                    let r3 = skip_ws(r2.drop_first());
                    if r3.len() < s.len() {
                        match skip_value(r3) {
                            None => None,
                            Some(r4) => {
                                let r5 = skip_ws(r4);
                                if r5.len() == 0 {
                                    None
                                } else if r5[0] == '}' {
                                    Some(r5.drop_first())
                                } else if r5[0] == ',' && r5.drop_first().len() < s.len() {
                                    skip_members(r5.drop_first(), false)
                                } else {
                                    None
                                }
                            },
                        }
                    } else {
                        None
                    }
                }
            },
        }
    }
}

/// Skip the elements of an array, the opening bracket already consumed; a
/// closing bracket may come at once only when no element was consumed yet.
pub open spec fn skip_elements(s: Seq<char>, first: bool) -> Option<Seq<char>>
    decreases s.len(), 1int,
{
    let s0 = skip_ws(s);
    if s0.len() == 0 {
        None
    } else if s0[0] == ']' && first {
        Some(s0.drop_first())
    } else if s0.len() > s.len() {
        None
    } else {
        match skip_value(s0) {
            None => None,
            Some(r1) => {
                let r2 = skip_ws(r1);
                if r2.len() == 0 {
                    None
                } else if r2[0] == ']' {
                    Some(r2.drop_first())
                } else if r2[0] == ',' && r2.drop_first().len() < s.len() {
                    skip_elements(r2.drop_first(), false)
                } else {
                    None
                }
            },
        }
    }
}

/// Build a function call once its members are exhausted: both `name` and
/// `arguments` must have been seen.
pub open spec fn fc_finish(
    name: Option<Seq<char>>,
    arguments: Option<Seq<char>>,
    rest: Seq<char>,
) -> Option<(FunctionCallView, Seq<char>)> {
    match (name, arguments) {
        (Some(n), Some(a)) => Some((FunctionCallView { name: n, arguments: a }, rest)),
        _ => None,
    }
}

/// Decode the members of a function-call object, the opening brace already
/// consumed: `name` and `arguments` are required strings, unknown members
/// are skipped, a repeated member overrides the earlier one.
pub open spec fn parse_fc_members(
    s: Seq<char>,
    first: bool,
    name: Option<Seq<char>>,
    arguments: Option<Seq<char>>,
) -> Option<(FunctionCallView, Seq<char>)>
    decreases s.len(),
{
    let s0 = skip_ws(s);
    if s0.len() == 0 {
        None
    } else if s0[0] == '}' && first {
        fc_finish(name, arguments, s0.drop_first())
    } else {
        match parse_string(s0) {
            None => None,
            Some((k, r1)) => {
                let r2 = skip_ws(r1);
                if r2.len() == 0 || r2[0] != ':' {
                    None
                } else {
                    let r3 = skip_ws(r2.drop_first());
                    let stepped: Option<(Option<Seq<char>>, Option<Seq<char>>, Seq<char>)> = if k
                        == ("name")@ {
                        match parse_string(r3) {
                            None => None,
                            Some((v, r4)) => Some((Some(v), arguments, r4)),
                        }
                    } else if k == ("arguments")@ {
                        match parse_string(r3) {
                            None => None,
                            Some((v, r4)) => Some((name, Some(v), r4)),
                        }
                    } else {
                        match skip_value(r3) {
                            None => None,
                            Some(r4) => Some((name, arguments, r4)),
                        }
                    };
                    match stepped {
                        None => None,
                        Some((name2, args2, r4)) => {
                            let r5 = skip_ws(r4);
                            if r5.len() == 0 {
                                None
                            } else if r5[0] == '}' {
                                fc_finish(name2, args2, r5.drop_first())
                            } else if r5[0] == ',' && r5.drop_first().len() < s.len() {
                                parse_fc_members(r5.drop_first(), false, name2, args2)
                            } else {
                                None
                            }
                        },
                    }
                }
            },
        }
    }
}

/// Decode a function-call object from the front of the input.
pub open spec fn parse_function_call(s: Seq<char>) -> Option<(FunctionCallView, Seq<char>)> {
    let s0 = skip_ws(s);
    if s0.len() > 0 && s0[0] == '{' {
        parse_fc_members(s0.drop_first(), true, None, None)
    } else {
        None
    }
}

/// Build a turn once its members are exhausted: `role` is required, the
/// other members default to absent.
pub open spec fn msg_finish(
    role: Option<Seq<char>>,
    content: Option<Seq<char>>,
    name: Option<Seq<char>>,
    fc: Option<FunctionCallView>,
    rest: Seq<char>,
) -> Option<(MessageView, Seq<char>)> {
    match role {
        Some(ro) => Some(
            (MessageView { role: ro, content: content, name: name, function_call: fc }, rest),
        ),
        None => None,
    }
}

/// Decode the members of a turn object, the opening brace already consumed:
/// `role` is a required string; `content` and `name` may be strings or
/// `null`; `function_call` may be an object or `null`; unknown members are
/// skipped; a repeated member overrides the earlier one.  A `null` decodes
/// to "no value", never to an empty string or an empty object.
pub open spec fn parse_msg_members(
    s: Seq<char>,
    first: bool,
    role: Option<Seq<char>>,
    content: Option<Seq<char>>,
    name: Option<Seq<char>>,
    fc: Option<FunctionCallView>,
) -> Option<(MessageView, Seq<char>)>
    decreases s.len(),
{
    let s0 = skip_ws(s);
    if s0.len() == 0 {
        None
    } else if s0[0] == '}' && first {
        msg_finish(role, content, name, fc, s0.drop_first())
    } else {
        match parse_string(s0) {
            None => None,
            Some((k, r1)) => {
                let r2 = skip_ws(r1);
                if r2.len() == 0 || r2[0] != ':' {
                    None
                } else {
                    let r3 = skip_ws(r2.drop_first());
                    let stepped: Option<
                        (
                            Option<Seq<char>>,
                            Option<Seq<char>>,
                            Option<Seq<char>>,
                            Option<FunctionCallView>,
                            Seq<char>,
                        ),
                    > = if k == ("role")@ {
                        match parse_string(r3) {
                            None => None,
                            Some((v, r4)) => Some((Some(v), content, name, fc, r4)),
                        }
                    } else if k == ("content")@ {
                        if starts_null(r3) {
                            Some((role, None, name, fc, r3.skip(4)))
                        } else {
                            match parse_string(r3) {
                                None => None,
                                Some((v, r4)) => Some((role, Some(v), name, fc, r4)),
                            }
                        }
                    } else if k == ("name")@ {
                        if starts_null(r3) {
                            Some((role, content, None, fc, r3.skip(4)))
                        } else {
                            match parse_string(r3) {
                                None => None,
                                Some((v, r4)) => Some((role, content, Some(v), fc, r4)),
                            }
                        }
                    } else if k == ("function_call")@ {
                        if starts_null(r3) {
                            Some((role, content, name, None, r3.skip(4)))
                        } else {
                            match parse_function_call(r3) {
                                None => None,
                                Some((v, r4)) => Some((role, content, name, Some(v), r4)),
                            }
                        }
                    } else {
                        match skip_value(r3) {
                            None => None,
                            Some(r4) => Some((role, content, name, fc, r4)),
                        }
                    };
                    match stepped {
                        None => None,
                        Some((role2, content2, name2, fc2, r4)) => {
                            let r5 = skip_ws(r4);
                            if r5.len() == 0 {
                                None
                            } else if r5[0] == '}' {
                                msg_finish(role2, content2, name2, fc2, r5.drop_first())
                            } else if r5[0] == ',' && r5.drop_first().len() < s.len() {
                                parse_msg_members(r5.drop_first(), false, role2, content2, name2, fc2)
                            } else {
                                None
                            }
                        },
                    }
                }
            },
        }
    }
}

/// Decode a turn object from the front of the input.
pub open spec fn parse_message(s: Seq<char>) -> Option<(MessageView, Seq<char>)> {
    let s0 = skip_ws(s);
    if s0.len() > 0 && s0[0] == '{' {
        parse_msg_members(s0.drop_first(), true, None, None, None, None)
    } else {
        None
    }
}

/// Decode the elements of an array of strings, the opening bracket already
/// consumed.
pub open spec fn parse_sa_elements(s: Seq<char>, first: bool, acc: Seq<Seq<char>>) -> Option<
    (Seq<Seq<char>>, Seq<char>),
>
    decreases s.len(),
{
    let s0 = skip_ws(s);
    if s0.len() == 0 {
        None
    } else if s0[0] == ']' && first {
        Some((acc, s0.drop_first()))
    } else {
        match parse_string(s0) {
            None => None,
            Some((v, r1)) => {
                let r2 = skip_ws(r1);
                if r2.len() == 0 {
                    None
                } else if r2[0] == ']' {
                    Some((acc.push(v), r2.drop_first()))
                } else if r2[0] == ',' && r2.drop_first().len() < s.len() {
                    parse_sa_elements(r2.drop_first(), false, acc.push(v))
                } else {
                    None
                }
            },
        }
    }
}

/// Decode an array of strings from the front of the input.
pub open spec fn parse_string_array(s: Seq<char>) -> Option<(Seq<Seq<char>>, Seq<char>)> {
    let s0 = skip_ws(s);
    if s0.len() > 0 && s0[0] == '[' {
        parse_sa_elements(s0.drop_first(), true, Seq::empty())
    } else {
        None
    }
}

/// Build a property once its members are exhausted: `type` is required.
pub open spec fn property_finish(
    type_: Option<Seq<char>>,
    description: Option<Seq<char>>,
    enum_: Option<Seq<Seq<char>>>,
    rest: Seq<char>,
) -> Option<(PropertyView, Seq<char>)> {
    match type_ {
        Some(t) => Some((PropertyView { type_: t, description: description, enum_: enum_ }, rest)),
        None => None,
    }
}

/// Decode the members of a property object, the opening brace already
/// consumed: `type` is a required string, `description` may be a string or
/// `null`, `enum` may be an array of strings or `null`; unknown members are
/// skipped.
pub open spec fn parse_property_members(
    s: Seq<char>,
    first: bool,
    type_: Option<Seq<char>>,
    description: Option<Seq<char>>,
    enum_: Option<Seq<Seq<char>>>,
) -> Option<(PropertyView, Seq<char>)>
    decreases s.len(),
{
    let s0 = skip_ws(s);
    if s0.len() == 0 {
        None
    } else if s0[0] == '}' && first {
        property_finish(type_, description, enum_, s0.drop_first())
    } else {
        match parse_string(s0) {
            None => None,
            Some((k, r1)) => {
                let r2 = skip_ws(r1);
                if r2.len() == 0 || r2[0] != ':' {
                    None
                } else {
                    let r3 = skip_ws(r2.drop_first());
                    let stepped: Option<
                        (Option<Seq<char>>, Option<Seq<char>>, Option<Seq<Seq<char>>>, Seq<char>),
                    > = if k == ("type")@ {
                        match parse_string(r3) {
                            None => None,
                            Some((v, r4)) => Some((Some(v), description, enum_, r4)),
                        }
                    } else if k == ("description")@ {
                        if starts_null(r3) {
                            Some((type_, None, enum_, r3.skip(4)))
                        } else {
                            match parse_string(r3) {
                                None => None,
                                Some((v, r4)) => Some((type_, Some(v), enum_, r4)),
                            }
                        }
                    } else if k == ("enum")@ {
                        if starts_null(r3) {
                            Some((type_, description, None, r3.skip(4)))
                        } else {
                            match parse_string_array(r3) {
                                None => None,
                                Some((v, r4)) => Some((type_, description, Some(v), r4)),
                            }
                        }
                    } else {
                        match skip_value(r3) {
                            None => None,
                            Some(r4) => Some((type_, description, enum_, r4)),
                        }
                    };
                    match stepped {
                        None => None,
                        Some((t2, d2, e2, r4)) => {
                            let r5 = skip_ws(r4);
                            if r5.len() == 0 {
                                None
                            } else if r5[0] == '}' {
                                property_finish(t2, d2, e2, r5.drop_first())
                            } else if r5[0] == ',' && r5.drop_first().len() < s.len() {
                                parse_property_members(r5.drop_first(), false, t2, d2, e2)
                            } else {
                                None
                            }
                        },
                    }
                }
            },
        }
    }
}

/// Decode a property object from the front of the input.
pub open spec fn parse_property(s: Seq<char>) -> Option<(PropertyView, Seq<char>)> {
    let s0 = skip_ws(s);
    if s0.len() > 0 && s0[0] == '{' {
        parse_property_members(s0.drop_first(), true, None, None, None)
    } else {
        None
    }
}

/// Decode the members of a `properties` object, the opening brace already
/// consumed: every member's value must be a property object; the pairs keep
/// the document's order.
pub open spec fn parse_props_members(
    s: Seq<char>,
    first: bool,
    acc: Seq<(Seq<char>, PropertyView)>,
) -> Option<(Seq<(Seq<char>, PropertyView)>, Seq<char>)>
    decreases s.len(),
{
    let s0 = skip_ws(s);
    if s0.len() == 0 {
        None
    } else if s0[0] == '}' && first {
        Some((acc, s0.drop_first()))
    } else {
        match parse_string(s0) {
            None => None,
            Some((k, r1)) => {
                let r2 = skip_ws(r1);
                if r2.len() == 0 || r2[0] != ':' {
                    None
                } else {
                    let r3 = skip_ws(r2.drop_first());
                    match parse_property(r3) {
                        None => None,
                        Some((v, r4)) => {
                            let r5 = skip_ws(r4);
                            if r5.len() == 0 {
                                None
                            } else if r5[0] == '}' {
                                Some((acc.push((k, v)), r5.drop_first()))
                            } else if r5[0] == ',' && r5.drop_first().len() < s.len() {
                                parse_props_members(r5.drop_first(), false, acc.push((k, v)))
                            } else {
                                None
                            }
                        },
                    }
                }
            },
        }
    }
}

/// Decode a `properties` object from the front of the input.
pub open spec fn parse_props(s: Seq<char>) -> Option<(Seq<(Seq<char>, PropertyView)>, Seq<char>)> {
    let s0 = skip_ws(s);
    if s0.len() > 0 && s0[0] == '{' {
        parse_props_members(s0.drop_first(), true, Seq::empty())
    } else {
        None
    }
}

/// Build a parameters object once its members are exhausted: `type`,
/// `properties` and `required` must all have been seen.
pub open spec fn parameters_finish(
    type_: Option<Seq<char>>,
    properties: Option<Seq<(Seq<char>, PropertyView)>>,
    required: Option<Seq<Seq<char>>>,
    rest: Seq<char>,
) -> Option<(ParametersView, Seq<char>)> {
    match (type_, properties, required) {
        (Some(t), Some(p), Some(q)) => Some(
            (ParametersView { type_: t, properties: p, required: q }, rest),
        ),
        _ => None,
    }
}

/// Decode the members of a parameters object, the opening brace already
/// consumed: `type` is a required string, `properties` a required object of
/// properties, `required` a required array of strings; unknown members are
/// skipped.
pub open spec fn parse_parameters_members(
    s: Seq<char>,
    first: bool,
    type_: Option<Seq<char>>,
    properties: Option<Seq<(Seq<char>, PropertyView)>>,
    required: Option<Seq<Seq<char>>>,
) -> Option<(ParametersView, Seq<char>)>
    decreases s.len(),
{
    let s0 = skip_ws(s);
    if s0.len() == 0 {
        None
    } else if s0[0] == '}' && first {
        parameters_finish(type_, properties, required, s0.drop_first())
    } else {
        match parse_string(s0) {
            None => None,
            Some((k, r1)) => {
                let r2 = skip_ws(r1);
                if r2.len() == 0 || r2[0] != ':' {
                    None
                } else {
                    let r3 = skip_ws(r2.drop_first());
                    let stepped: Option<
                        (
                            Option<Seq<char>>,
                            Option<Seq<(Seq<char>, PropertyView)>>,
                            Option<Seq<Seq<char>>>,
                            Seq<char>,
                        ),
                    > = if k == ("type")@ {
                        match parse_string(r3) {
                            None => None,
                            Some((v, r4)) => Some((Some(v), properties, required, r4)),
                        }
                    } else if k == ("properties")@ {
                        match parse_props(r3) {
                            None => None,
                            Some((v, r4)) => Some((type_, Some(v), required, r4)),
                        }
                    } else if k == ("required")@ {
                        match parse_string_array(r3) {
                            None => None,
                            Some((v, r4)) => Some((type_, properties, Some(v), r4)),
                        }
                    } else {
                        match skip_value(r3) {
                            None => None,
                            Some(r4) => Some((type_, properties, required, r4)),
                        }
                    };
                    match stepped {
                        None => None,
                        Some((t2, p2, q2, r4)) => {
                            let r5 = skip_ws(r4);
                            if r5.len() == 0 {
                                None
                            } else if r5[0] == '}' {
                                parameters_finish(t2, p2, q2, r5.drop_first())
                            } else if r5[0] == ',' && r5.drop_first().len() < s.len() {
                                parse_parameters_members(r5.drop_first(), false, t2, p2, q2)
                            } else {
                                None
                            }
                        },
                    }
                }
            },
        }
    }
}

/// Decode a parameters object from the front of the input.
pub open spec fn parse_parameters(s: Seq<char>) -> Option<(ParametersView, Seq<char>)> {
    let s0 = skip_ws(s);
    if s0.len() > 0 && s0[0] == '{' {
        parse_parameters_members(s0.drop_first(), true, None, None, None)
    } else {
        None
    }
}

/// Build a function declaration once its members are exhausted: `name` is
/// required.
pub open spec fn funcspec_finish(
    name: Option<Seq<char>>,
    description: Option<Seq<char>>,
    parameters: Option<ParametersView>,
    rest: Seq<char>,
) -> Option<(FunctionSpecificationView, Seq<char>)> {
    match name {
        Some(n) => Some(
            (
                FunctionSpecificationView {
                    name: n,
                    description: description,
                    parameters: parameters,
                },
                rest,
            ),
        ),
        None => None,
    }
}

/// Decode the members of a function-declaration object, the opening brace
/// already consumed: `name` is a required string, `description` may be a
/// string or `null`, `parameters` may be a parameters object or `null`;
/// unknown members are skipped.
pub open spec fn parse_funcspec_members(
    s: Seq<char>,
    first: bool,
    name: Option<Seq<char>>,
    description: Option<Seq<char>>,
    parameters: Option<ParametersView>,
) -> Option<(FunctionSpecificationView, Seq<char>)>
    decreases s.len(),
{
    let s0 = skip_ws(s);
    if s0.len() == 0 {
        None
    } else if s0[0] == '}' && first {
        funcspec_finish(name, description, parameters, s0.drop_first())
    } else {
        match parse_string(s0) {
            None => None,
            Some((k, r1)) => {
                let r2 = skip_ws(r1);
                if r2.len() == 0 || r2[0] != ':' {
                    None
                } else {
                    let r3 = skip_ws(r2.drop_first());
                    let stepped: Option<
                        (Option<Seq<char>>, Option<Seq<char>>, Option<ParametersView>, Seq<char>),
                    > = if k == ("name")@ {
                        match parse_string(r3) {
                            None => None,
                            Some((v, r4)) => Some((Some(v), description, parameters, r4)),
                        }
                    } else if k == ("description")@ {
                        if starts_null(r3) {
                            Some((name, None, parameters, r3.skip(4)))
                        } else {
                            match parse_string(r3) {
                                None => None,
                                Some((v, r4)) => Some((name, Some(v), parameters, r4)),
                            }
                        }
                    } else if k == ("parameters")@ {
                        if starts_null(r3) {
                            Some((name, description, None, r3.skip(4)))
                        } else {
                            match parse_parameters(r3) {
                                None => None,
                                Some((v, r4)) => Some((name, description, Some(v), r4)),
                            }
                        }
                    } else {
                        match skip_value(r3) {
                            None => None,
                            Some(r4) => Some((name, description, parameters, r4)),
                        }
                    };
                    match stepped {
                        None => None,
                        Some((n2, d2, p2, r4)) => {
                            let r5 = skip_ws(r4);
                            if r5.len() == 0 {
                                None
                            } else if r5[0] == '}' {
                                funcspec_finish(n2, d2, p2, r5.drop_first())
                            } else if r5[0] == ',' && r5.drop_first().len() < s.len() {
                                parse_funcspec_members(r5.drop_first(), false, n2, d2, p2)
                            } else {
                                None
                            }
                        },
                    }
                }
            },
        }
    }
}

/// Decode a function-declaration object from the front of the input.
pub open spec fn parse_funcspec(s: Seq<char>) -> Option<(FunctionSpecificationView, Seq<char>)> {
    let s0 = skip_ws(s);
    if s0.len() > 0 && s0[0] == '{' {
        parse_funcspec_members(s0.drop_first(), true, None, None, None)
    } else {
        None
    }
}

/// Build a choice once its members are exhausted: `index`, `message` and
/// `finish_reason` must all have been seen.
pub open spec fn choice_finish(
    index: Option<u64>,
    message: Option<MessageView>,
    finish_reason: Option<Seq<char>>,
    rest: Seq<char>,
) -> Option<(ChoiceView, Seq<char>)> {
    match (index, message, finish_reason) {
        (Some(i), Some(m), Some(f)) => Some(
            (ChoiceView { index: i as nat, message: m, finish_reason: f }, rest),
        ),
        _ => None,
    }
}

/// Decode the members of a choice object, the opening brace already
/// consumed: `index` is a required unsigned number, `message` a required
/// turn object, `finish_reason` a required string; unknown members are
/// skipped.
pub open spec fn parse_choice_members(
    s: Seq<char>,
    first: bool,
    index: Option<u64>,
    message: Option<MessageView>,
    finish_reason: Option<Seq<char>>,
) -> Option<(ChoiceView, Seq<char>)>
    decreases s.len(),
{
    let s0 = skip_ws(s);
    if s0.len() == 0 {
        None
    } else if s0[0] == '}' && first {
        choice_finish(index, message, finish_reason, s0.drop_first())
    } else {
        match parse_string(s0) {
            None => None,
            Some((k, r1)) => {
                let r2 = skip_ws(r1);
                if r2.len() == 0 || r2[0] != ':' {
                    None
                } else {
                    let r3 = skip_ws(r2.drop_first());
                    let stepped: Option<
                        (Option<u64>, Option<MessageView>, Option<Seq<char>>, Seq<char>),
                    > = if k == ("index")@ {
                        match parse_u64(r3) {
                            None => None,
                            Some((v, r4)) => Some((Some(v), message, finish_reason, r4)),
                        }
                    } else if k == ("message")@ {
                        match parse_message(r3) {
                            None => None,
                            Some((v, r4)) => Some((index, Some(v), finish_reason, r4)),
                        }
                    } else if k == ("finish_reason")@ {
                        match parse_string(r3) {
                            None => None,
                            Some((v, r4)) => Some((index, message, Some(v), r4)),
                        }
                    } else {
                        match skip_value(r3) {
                            None => None,
                            Some(r4) => Some((index, message, finish_reason, r4)),
                        }
                    };
                    match stepped {
                        None => None,
                        Some((i2, m2, f2, r4)) => {
                            let r5 = skip_ws(r4);
                            if r5.len() == 0 {
                                None
                            } else if r5[0] == '}' {
                                choice_finish(i2, m2, f2, r5.drop_first())
                            } else if r5[0] == ',' && r5.drop_first().len() < s.len() {
                                parse_choice_members(r5.drop_first(), false, i2, m2, f2)
                            } else {
                                None
                            }
                        },
                    }
                }
            },
        }
    }
}

/// Decode a choice object from the front of the input.
pub open spec fn parse_choice(s: Seq<char>) -> Option<(ChoiceView, Seq<char>)> {
    let s0 = skip_ws(s);
    if s0.len() > 0 && s0[0] == '{' {
        parse_choice_members(s0.drop_first(), true, None, None, None)
    } else {
        None
    }
}

/// Decode the elements of the `choices` array, the opening bracket already
/// consumed.
pub open spec fn parse_choices_elements(s: Seq<char>, first: bool, acc: Seq<ChoiceView>) -> Option<
    (Seq<ChoiceView>, Seq<char>),
>
    decreases s.len(),
{
    let s0 = skip_ws(s);
    if s0.len() == 0 {
        None
    } else if s0[0] == ']' && first {
        Some((acc, s0.drop_first()))
    } else {
        match parse_choice(s0) {
            None => None,
            Some((v, r1)) => {
                let r2 = skip_ws(r1);
                if r2.len() == 0 {
                    None
                } else if r2[0] == ']' {
                    Some((acc.push(v), r2.drop_first()))
                } else if r2[0] == ',' && r2.drop_first().len() < s.len() {
                    parse_choices_elements(r2.drop_first(), false, acc.push(v))
                } else {
                    None
                }
            },
        }
    }
}

/// Decode the `choices` array from the front of the input.
pub open spec fn parse_choices(s: Seq<char>) -> Option<(Seq<ChoiceView>, Seq<char>)> {
    let s0 = skip_ws(s);
    if s0.len() > 0 && s0[0] == '[' {
        parse_choices_elements(s0.drop_first(), true, Seq::empty())
    } else {
        None
    }
}

/// Build the usage counters once their members are exhausted: all three
/// counters must have been seen and fit in 32 bits.
pub open spec fn usage_finish(
    prompt_tokens: Option<u64>,
    completion_tokens: Option<u64>,
    total_tokens: Option<u64>,
    rest: Seq<char>,
) -> Option<(UsageView, Seq<char>)> {
    match (prompt_tokens, completion_tokens, total_tokens) {
        (Some(p), Some(c), Some(t)) => if p <= u32::MAX && c <= u32::MAX && t <= u32::MAX {
            Some(
                (
                    UsageView {
                        prompt_tokens: p as nat,
                        completion_tokens: c as nat,
                        total_tokens: t as nat,
                    },
                    rest,
                ),
            )
        } else {
            None
        },
        _ => None,
    }
}

/// Decode the members of the usage object, the opening brace already
/// consumed: the three token counters are required unsigned numbers that
/// must fit in 32 bits; unknown members are skipped.
pub open spec fn parse_usage_members(
    s: Seq<char>,
    first: bool,
    prompt_tokens: Option<u64>,
    completion_tokens: Option<u64>,
    total_tokens: Option<u64>,
) -> Option<(UsageView, Seq<char>)>
    decreases s.len(),
{
    let s0 = skip_ws(s);
    if s0.len() == 0 {
        None
    } else if s0[0] == '}' && first {
        usage_finish(prompt_tokens, completion_tokens, total_tokens, s0.drop_first())
    } else {
        match parse_string(s0) {
            None => None,
            Some((k, r1)) => {
                let r2 = skip_ws(r1);
                if r2.len() == 0 || r2[0] != ':' {
                    None
                } else {
                    let r3 = skip_ws(r2.drop_first());
                    let stepped: Option<(Option<u64>, Option<u64>, Option<u64>, Seq<char>)> = if k
                        == ("prompt_tokens")@ {
                        match parse_u64(r3) {
                            None => None,
                            Some((v, r4)) => Some((Some(v), completion_tokens, total_tokens, r4)),
                        }
                    } else if k == ("completion_tokens")@ {
                        match parse_u64(r3) {
                            None => None,
                            Some((v, r4)) => Some((prompt_tokens, Some(v), total_tokens, r4)),
                        }
                    } else if k == ("total_tokens")@ {
                        match parse_u64(r3) {
                            None => None,
                            Some((v, r4)) => Some((prompt_tokens, completion_tokens, Some(v), r4)),
                        }
                    } else {
                        match skip_value(r3) {
                            None => None,
                            Some(r4) => Some((prompt_tokens, completion_tokens, total_tokens, r4)),
                        }
                    };
                    match stepped {
                        None => None,
                        Some((p2, c2, t2, r4)) => {
                            let r5 = skip_ws(r4);
                            if r5.len() == 0 {
                                None
                            } else if r5[0] == '}' {
                                usage_finish(p2, c2, t2, r5.drop_first())
                            } else if r5[0] == ',' && r5.drop_first().len() < s.len() {
                                parse_usage_members(r5.drop_first(), false, p2, c2, t2)
                            } else {
                                None
                            }
                        },
                    }
                }
            },
        }
    }
}

/// Decode the usage object from the front of the input.
pub open spec fn parse_usage(s: Seq<char>) -> Option<(UsageView, Seq<char>)> {
    let s0 = skip_ws(s);
    if s0.len() > 0 && s0[0] == '{' {
        parse_usage_members(s0.drop_first(), true, None, None, None)
    } else {
        None
    }
}

/// Build the response envelope once its members are exhausted: `id`,
/// `object`, `created`, `choices` and `usage` must all have been seen.
pub open spec fn response_finish(
    id: Option<Seq<char>>,
    object: Option<Seq<char>>,
    created: Option<u64>,
    choices: Option<Seq<ChoiceView>>,
    usage: Option<UsageView>,
    rest: Seq<char>,
) -> Option<(ChatResponseView, Seq<char>)> {
    match (id, object, created, choices, usage) {
        (Some(i), Some(o), Some(cr), Some(ch), Some(u)) => Some(
            (
                ChatResponseView {
                    id: i,
                    object: o,
                    created: cr as nat,
                    choices: ch,
                    usage: u,
                },
                rest,
            ),
        ),
        _ => None,
    }
}

/// Decode the members of the response envelope, the opening brace already
/// consumed: `id` and `object` are required strings, `created` a required
/// unsigned number, `choices` a required array of choices, `usage` a
/// required usage object; unknown members are skipped.
pub open spec fn parse_response_members(
    s: Seq<char>,
    first: bool,
    id: Option<Seq<char>>,
    object: Option<Seq<char>>,
    created: Option<u64>,
    choices: Option<Seq<ChoiceView>>,
    usage: Option<UsageView>,
) -> Option<(ChatResponseView, Seq<char>)>
    decreases s.len(),
{
    let s0 = skip_ws(s);
    if s0.len() == 0 {
        None
    } else if s0[0] == '}' && first {
        response_finish(id, object, created, choices, usage, s0.drop_first())
    } else {
        match parse_string(s0) {
            None => None,
            Some((k, r1)) => {
                let r2 = skip_ws(r1);
                if r2.len() == 0 || r2[0] != ':' {
                    None
                } else {
                    let r3 = skip_ws(r2.drop_first());
                    let stepped: Option<
                        (
                            Option<Seq<char>>,
                            Option<Seq<char>>,
                            Option<u64>,
                            Option<Seq<ChoiceView>>,
                            Option<UsageView>,
                            Seq<char>,
                        ),
                    > = if k == ("id")@ {
                        match parse_string(r3) {
                            None => None,
                            Some((v, r4)) => Some((Some(v), object, created, choices, usage, r4)),
                        }
                    } else if k == ("object")@ {
                        match parse_string(r3) {
                            None => None,
                            Some((v, r4)) => Some((id, Some(v), created, choices, usage, r4)),
                        }
                    } else if k == ("created")@ {
                        match parse_u64(r3) {
                            None => None,
                            Some((v, r4)) => Some((id, object, Some(v), choices, usage, r4)),
                        }
                    } else if k == ("choices")@ {
                        match parse_choices(r3) {
                            None => None,
                            Some((v, r4)) => Some((id, object, created, Some(v), usage, r4)),
                        }
                    } else if k == ("usage")@ {
                        match parse_usage(r3) {
                            None => None,
                            Some((v, r4)) => Some((id, object, created, choices, Some(v), r4)),
                        }
                    } else {
                        match skip_value(r3) {
                            None => None,
                            Some(r4) => Some((id, object, created, choices, usage, r4)),
                        }
                    };
                    match stepped {
                        None => None,
                        Some((i2, o2, cr2, ch2, u2, r4)) => {
                            let r5 = skip_ws(r4);
                            if r5.len() == 0 {
                                None
                            } else if r5[0] == '}' {
                                response_finish(i2, o2, cr2, ch2, u2, r5.drop_first())
                            } else if r5[0] == ',' && r5.drop_first().len() < s.len() {
                                parse_response_members(r5.drop_first(), false, i2, o2, cr2, ch2, u2)
                            } else {
                                None
                            }
                        },
                    }
                }
            },
        }
    }
}

/// Decode a response envelope from the front of the input.
pub open spec fn parse_response(s: Seq<char>) -> Option<(ChatResponseView, Seq<char>)> {
    let s0 = skip_ws(s);
    if s0.len() > 0 && s0[0] == '{' {
        parse_response_members(s0.drop_first(), true, None, None, None, None, None)
    } else {
        None
    }
}

/// Decode a whole input as one turn object: nothing but whitespace may
/// follow it.
pub open spec fn decode_message_spec(s: Seq<char>) -> Option<MessageView> {
    match parse_message(s) {
        Some((m, r)) => if skip_ws(r).len() == 0 {
            Some(m)
        } else {
            None
        },
        None => None,
    }
}

/// Decode a whole input as one function declaration: nothing but whitespace
/// may follow it.
pub open spec fn decode_funcspec_spec(s: Seq<char>) -> Option<FunctionSpecificationView> {
    match parse_funcspec(s) {
        Some((f, r)) => if skip_ws(r).len() == 0 {
            Some(f)
        } else {
            None
        },
        None => None,
    }
}

/// Decode a whole input as one response envelope: nothing but whitespace
/// may follow it.
pub open spec fn decode_response_spec(s: Seq<char>) -> Option<ChatResponseView> {
    match parse_response(s) {
        Some((r, rest)) => if skip_ws(rest).len() == 0 {
            Some(r)
        } else {
            None
        },
        None => None,
    }
}

} // verus!
