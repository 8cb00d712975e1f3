//! The round-trip laws of the turn codec: decoding the wire encoding of a
//! turn gives the turn back.  The escaping utility's own round-trip law
//! lives beside the escaper in `escape_json`.

use vstd::prelude::*;

use crate::escape_json::{escape_seq, escaped_char, lemma_escape_plain, needs_escape, plain_seq,
    unescaped_char};
use crate::json::{fc_finish, is_ws, msg_finish, parse_fc_members, parse_function_call,
    parse_message, parse_msg_members, parse_str_body, parse_string, skip_ws, starts_null};
use crate::message::{function_call_wire, message_wire, msg_content_part, msg_fc_part,
    msg_name_part, FunctionCallView, MessageView};

verus! {

/// Decoding a string body that was produced by the escaper stops exactly at
/// the closing quote and recovers the original characters.
pub proof fn lemma_parse_body_escaped(k: Seq<char>, rest: Seq<char>)
    ensures
        parse_str_body(escape_seq(k) + seq!['"'] + rest) == Some((k, rest)),
    decreases k.len(),
{
    let e = escape_seq(k);
    if k.len() == 0 {
        assert(e =~= Seq::<char>::empty());
        let s = e + seq!['"'] + rest;
        assert(s =~= seq!['"'] + rest);
        assert(s[0] == '"');
        assert(s.drop_first() =~= rest);
        assert(Seq::<char>::empty() =~= k);
    } else {
        lemma_parse_body_escaped(k.drop_first(), rest);
        let c = k[0];
        let e1 = escaped_char(c);
        let etail = escape_seq(k.drop_first());
        assert(e =~= e1 + etail);
        let s = e + seq!['"'] + rest;
        if needs_escape(c) {
            assert(e1.len() == 2 && e1[0] == '\\');
            assert(s[0] == '\\');
            assert(s.len() >= 2);
            assert(s[1] == e1[1]);
            assert(unescaped_char(e1[1]) == Some(c));
            assert(s.skip(2) =~= etail + seq!['"'] + rest);
            assert(seq![c] + k.drop_first() =~= k);
        } else {
            assert(e1 =~= seq![c]);
            assert(s[0] == c);
            assert(c != '"' && c != '\\');
            assert(s.drop_first() =~= etail + seq!['"'] + rest);
            assert(seq![c] + k.drop_first() =~= k);
        }
    }
}

/// Decoding a quoted, escaped string recovers the original characters and
/// leaves exactly the input after the closing quote.
pub proof fn lemma_parse_string_escaped(k: Seq<char>, rest: Seq<char>)
    ensures
        parse_string(seq!['"'] + escape_seq(k) + seq!['"'] + rest) == Some((k, rest)),
{
    let s = seq!['"'] + escape_seq(k) + seq!['"'] + rest;
    assert(s[0] == '"');
    assert(s.drop_first() =~= escape_seq(k) + seq!['"'] + rest);
    lemma_parse_body_escaped(k, rest);
}

/// The member keys of the wire format contain no character that would be
/// escaped, and they are pairwise distinct.
proof fn lemma_keys_plain()
    ensures
        plain_seq(("role")@),
        plain_seq(("content")@),
        plain_seq(("name")@),
        plain_seq(("function_call")@),
        plain_seq(("arguments")@),
        ("role")@ != ("content")@,
        ("role")@ != ("name")@,
        ("content")@ != ("name")@,
        ("function_call")@ != ("role")@,
        ("function_call")@ != ("content")@,
        ("function_call")@ != ("name")@,
        ("name")@ != ("arguments")@,
{
    reveal_strlit("role");
    reveal_strlit("content");
    reveal_strlit("name");
    reveal_strlit("function_call");
    reveal_strlit("arguments");
    assert forall|i: int| 0 <= i < ("role")@.len() implies !needs_escape(("role")@[i]) by {
        let s = ("role")@;
        if i == 0 {
            assert(s[0] == 'r');
        } else if i == 1 {
            assert(s[1] == 'o');
        } else if i == 2 {
            assert(s[2] == 'l');
        } else {
            assert(s[3] == 'e');
        }
    }
    assert forall|i: int| 0 <= i < ("content")@.len() implies !needs_escape(("content")@[i]) by {
        let s = ("content")@;
        if i == 0 {
            assert(s[0] == 'c');
        } else if i == 1 {
            assert(s[1] == 'o');
        } else if i == 2 {
            assert(s[2] == 'n');
        } else if i == 3 {
            assert(s[3] == 't');
        } else if i == 4 {
            assert(s[4] == 'e');
        } else if i == 5 {
            assert(s[5] == 'n');
        } else {
            assert(s[6] == 't');
        }
    }
    assert forall|i: int| 0 <= i < ("name")@.len() implies !needs_escape(("name")@[i]) by {
        let s = ("name")@;
        if i == 0 {
            assert(s[0] == 'n');
        } else if i == 1 {
            assert(s[1] == 'a');
        } else if i == 2 {
            assert(s[2] == 'm');
        } else {
            assert(s[3] == 'e');
        }
    }
    assert forall|i: int|
        0 <= i < ("function_call")@.len() implies !needs_escape(("function_call")@[i]) by {
        let s = ("function_call")@;
        if i == 0 {
            assert(s[0] == 'f');
        } else if i == 1 {
            assert(s[1] == 'u');
        } else if i == 2 {
            assert(s[2] == 'n');
        } else if i == 3 {
            assert(s[3] == 'c');
        } else if i == 4 {
            assert(s[4] == 't');
        } else if i == 5 {
            assert(s[5] == 'i');
        } else if i == 6 {
            assert(s[6] == 'o');
        } else if i == 7 {
            assert(s[7] == 'n');
        } else if i == 8 {
            assert(s[8] == '_');
        } else if i == 9 {
            assert(s[9] == 'c');
        } else if i == 10 {
            assert(s[10] == 'a');
        } else if i == 11 {
            assert(s[11] == 'l');
        } else {
            assert(s[12] == 'l');
        }
    }
    assert forall|i: int| 0 <= i < ("arguments")@.len() implies !needs_escape(("arguments")@[i]) by {
        let s = ("arguments")@;
        if i == 0 {
            assert(s[0] == 'a');
        } else if i == 1 {
            assert(s[1] == 'r');
        } else if i == 2 {
            assert(s[2] == 'g');
        } else if i == 3 {
            assert(s[3] == 'u');
        } else if i == 4 {
            assert(s[4] == 'm');
        } else if i == 5 {
            assert(s[5] == 'e');
        } else if i == 6 {
            assert(s[6] == 'n');
        } else if i == 7 {
            assert(s[7] == 't');
        } else {
            assert(s[8] == 's');
        }
    }
    assert(("role")@[0] == 'r' && ("name")@[0] == 'n');
}

/// The opening literal of a turn's wire form, split into its tokens.
proof fn lemma_role_key_split()
    ensures
        ("{\"role\":\"")@ == seq!['{'] + (seq!['"'] + ("role")@ + seq!['"'] + seq![':']
            + seq!['"']),
{
    reveal_strlit("{\"role\":\"");
    reveal_strlit("role");
    let a = ("{\"role\":\"")@;
    let b = seq!['{'] + (seq!['"'] + ("role")@ + seq!['"'] + seq![':'] + seq!['"']);
    assert(a.len() == 9);
    assert(b.len() == 9);
    assert forall|i: int| 0 <= i < 9 implies a[i] == b[i] by {
        if i == 0 {
            assert(a[0] == '{' && b[0] == '{');
        } else if i == 1 {
            assert(a[1] == '"' && b[1] == '"');
        } else if i == 2 {
            assert(a[2] == 'r' && b[2] == 'r');
        } else if i == 3 {
            assert(a[3] == 'o' && b[3] == 'o');
        } else if i == 4 {
            assert(a[4] == 'l' && b[4] == 'l');
        } else if i == 5 {
            assert(a[5] == 'e' && b[5] == 'e');
        } else if i == 6 {
            assert(a[6] == '"' && b[6] == '"');
        } else if i == 7 {
            assert(a[7] == ':' && b[7] == ':');
        } else {
            assert(a[8] == '"' && b[8] == '"');
        }
    }
    assert(a =~= b);
}

/// The `content` key literal of a turn's wire form, split into its tokens.
proof fn lemma_content_key_split()
    ensures
        (",\"content\":\"")@ == seq![','] + (seq!['"'] + ("content")@ + seq!['"'] + seq![':']
            + seq!['"']),
{
    reveal_strlit(",\"content\":\"");
    reveal_strlit("content");
    let a = (",\"content\":\"")@;
    let b = seq![','] + (seq!['"'] + ("content")@ + seq!['"'] + seq![':'] + seq!['"']);
    assert(a.len() == 12);
    assert(b.len() == 12);
    assert forall|i: int| 0 <= i < 12 implies a[i] == b[i] by {
        if i == 0 {
            assert(a[0] == ',' && b[0] == ',');
        } else if i == 1 {
            assert(a[1] == '"' && b[1] == '"');
        } else if i == 2 {
            assert(a[2] == 'c' && b[2] == 'c');
        } else if i == 3 {
            assert(a[3] == 'o' && b[3] == 'o');
        } else if i == 4 {
            assert(a[4] == 'n' && b[4] == 'n');
        } else if i == 5 {
            assert(a[5] == 't' && b[5] == 't');
        } else if i == 6 {
            assert(a[6] == 'e' && b[6] == 'e');
        } else if i == 7 {
            assert(a[7] == 'n' && b[7] == 'n');
        } else if i == 8 {
            assert(a[8] == 't' && b[8] == 't');
        } else if i == 9 {
            assert(a[9] == '"' && b[9] == '"');
        } else if i == 10 {
            assert(a[10] == ':' && b[10] == ':');
        } else {
            assert(a[11] == '"' && b[11] == '"');
        }
    }
    assert(a =~= b);
}

/// The `name` key literal of a turn's wire form, split into its tokens.
proof fn lemma_name_key_split()
    ensures
        (",\"name\":\"")@ == seq![','] + (seq!['"'] + ("name")@ + seq!['"'] + seq![':']
            + seq!['"']),
{
    reveal_strlit(",\"name\":\"");
    reveal_strlit("name");
    let a = (",\"name\":\"")@;
    let b = seq![','] + (seq!['"'] + ("name")@ + seq!['"'] + seq![':'] + seq!['"']);
    assert(a.len() == 9);
    assert(b.len() == 9);
    assert forall|i: int| 0 <= i < 9 implies a[i] == b[i] by {
        if i == 0 {
            assert(a[0] == ',' && b[0] == ',');
        } else if i == 1 {
            assert(a[1] == '"' && b[1] == '"');
        } else if i == 2 {
            assert(a[2] == 'n' && b[2] == 'n');
        } else if i == 3 {
            assert(a[3] == 'a' && b[3] == 'a');
        } else if i == 4 {
            assert(a[4] == 'm' && b[4] == 'm');
        } else if i == 5 {
            assert(a[5] == 'e' && b[5] == 'e');
        } else if i == 6 {
            assert(a[6] == '"' && b[6] == '"');
        } else if i == 7 {
            assert(a[7] == ':' && b[7] == ':');
        } else {
            assert(a[8] == '"' && b[8] == '"');
        }
    }
    assert(a =~= b);
}

/// The `function_call` key literal of a turn's wire form, split into its
/// tokens.
proof fn lemma_fc_key_split()
    ensures
        (",\"function_call\":")@ == seq![','] + (seq!['"'] + ("function_call")@ + seq!['"']
            + seq![':']),
{
    reveal_strlit(",\"function_call\":");
    reveal_strlit("function_call");
    let a = (",\"function_call\":")@;
    let b = seq![','] + (seq!['"'] + ("function_call")@ + seq!['"'] + seq![':']);
    assert(a.len() == 17);
    assert(b.len() == 17);
    assert forall|i: int| 0 <= i < 17 implies a[i] == b[i] by {
        if i == 0 {
            assert(a[0] == ',' && b[0] == ',');
        } else if i == 1 {
            assert(a[1] == '"' && b[1] == '"');
        } else if i == 2 {
            assert(a[2] == 'f' && b[2] == 'f');
        } else if i == 3 {
            assert(a[3] == 'u' && b[3] == 'u');
        } else if i == 4 {
            assert(a[4] == 'n' && b[4] == 'n');
        } else if i == 5 {
            assert(a[5] == 'c' && b[5] == 'c');
        } else if i == 6 {
            assert(a[6] == 't' && b[6] == 't');
        } else if i == 7 {
            assert(a[7] == 'i' && b[7] == 'i');
        } else if i == 8 {
            assert(a[8] == 'o' && b[8] == 'o');
        } else if i == 9 {
            assert(a[9] == 'n' && b[9] == 'n');
        } else if i == 10 {
            assert(a[10] == '_' && b[10] == '_');
        } else if i == 11 {
            assert(a[11] == 'c' && b[11] == 'c');
        } else if i == 12 {
            assert(a[12] == 'a' && b[12] == 'a');
        } else if i == 13 {
            assert(a[13] == 'l' && b[13] == 'l');
        } else if i == 14 {
            assert(a[14] == 'l' && b[14] == 'l');
        } else if i == 15 {
            assert(a[15] == '"' && b[15] == '"');
        } else {
            assert(a[16] == ':' && b[16] == ':');
        }
    }
    assert(a =~= b);
}

/// One string-valued member of a function-call object, written without any
/// whitespace, advances the member parser as the wire format expects.
proof fn lemma_fc_string_member(
    k: Seq<char>,
    v: Seq<char>,
    rest: Seq<char>,
    first: bool,
    name: Option<Seq<char>>,
    arguments: Option<Seq<char>>,
)
    requires
        plain_seq(k),
        k == ("name")@ || k == ("arguments")@,
    ensures
        ({
            let s = seq!['"'] + k + seq!['"'] + seq![':'] + (seq!['"'] + escape_seq(v) + seq!['"']
                + rest);
            let name2 = if k == ("name")@ {
                Some(v)
            } else {
                name
            };
            let args2 = if k == ("arguments")@ {
                Some(v)
            } else {
                arguments
            };
            &&& (rest.len() > 0 && rest[0] == ',') ==> parse_fc_members(s, first, name, arguments)
                == parse_fc_members(rest.drop_first(), false, name2, args2)
            &&& (rest.len() > 0 && rest[0] == '}') ==> parse_fc_members(s, first, name, arguments)
                == fc_finish(name2, args2, rest.drop_first())
        }),

{
    lemma_keys_plain();
    let s = seq!['"'] + k + seq!['"'] + seq![':'] + (seq!['"'] + escape_seq(v) + seq!['"'] + rest);
    assert(s[0] == '"');
    assert(!is_ws('"'));
    assert(skip_ws(s) == s);
    let rest_k = seq![':'] + (seq!['"'] + escape_seq(v) + seq!['"'] + rest);
    lemma_escape_plain(k);
    lemma_parse_string_escaped(k, rest_k);
    assert(seq!['"'] + escape_seq(k) + seq!['"'] + rest_k =~= s);
    assert(parse_string(s) == Some((k, rest_k)));
    assert(rest_k[0] == ':');
    assert(!is_ws(':'));
    assert(skip_ws(rest_k) == rest_k);
    let r3 = rest_k.drop_first();
    assert(r3 =~= seq!['"'] + escape_seq(v) + seq!['"'] + rest);
    assert(r3[0] == '"');
    assert(skip_ws(r3) == r3);
    lemma_parse_string_escaped(v, rest);
    assert(parse_string(r3) == Some((v, rest)));
    if rest.len() > 0 && (rest[0] == ',' || rest[0] == '}') {
        assert(!is_ws(rest[0]));
        assert(skip_ws(rest) == rest);
        if rest[0] == ',' {
            assert(rest.drop_first().len() < s.len());
        }
    }
}

/// One string-valued member of a turn object, written without any
/// whitespace, advances the member parser as the wire format expects.
proof fn lemma_msg_string_member(
    k: Seq<char>,
    v: Seq<char>,
    rest: Seq<char>,
    first: bool,
    role: Option<Seq<char>>,
    content: Option<Seq<char>>,
    name: Option<Seq<char>>,
    fc: Option<FunctionCallView>,
)
    requires
        plain_seq(k),
        k == ("role")@ || k == ("content")@ || k == ("name")@,
    ensures
        ({
            let s = seq!['"'] + k + seq!['"'] + seq![':'] + (seq!['"'] + escape_seq(v) + seq!['"']
                + rest);
            let role2 = if k == ("role")@ {
                Some(v)
            } else {
                role
            };
            let content2 = if k == ("content")@ {
                Some(v)
            } else {
                content
            };
            let name2 = if k == ("name")@ {
                Some(v)
            } else {
                name
            };
            &&& (rest.len() > 0 && rest[0] == ',') ==> parse_msg_members(
                s,
                first,
                role,
                content,
                name,
                fc,
            ) == parse_msg_members(rest.drop_first(), false, role2, content2, name2, fc)
            &&& (rest.len() > 0 && rest[0] == '}') ==> parse_msg_members(
                s,
                first,
                role,
                content,
                name,
                fc,
            ) == msg_finish(role2, content2, name2, fc, rest.drop_first())
        }),

{
    lemma_keys_plain();
    let s = seq!['"'] + k + seq!['"'] + seq![':'] + (seq!['"'] + escape_seq(v) + seq!['"'] + rest);
    assert(s[0] == '"');
    assert(skip_ws(s) == s);
    let rest_k = seq![':'] + (seq!['"'] + escape_seq(v) + seq!['"'] + rest);
    lemma_escape_plain(k);
    lemma_parse_string_escaped(k, rest_k);
    assert(seq!['"'] + escape_seq(k) + seq!['"'] + rest_k =~= s);
    assert(parse_string(s) == Some((k, rest_k)));
    assert(rest_k[0] == ':');
    assert(skip_ws(rest_k) == rest_k);
    let r3 = rest_k.drop_first();
    assert(r3 =~= seq!['"'] + escape_seq(v) + seq!['"'] + rest);
    assert(r3[0] == '"');
    assert(skip_ws(r3) == r3);
    assert(!starts_null(r3));
    lemma_parse_string_escaped(v, rest);
    assert(parse_string(r3) == Some((v, rest)));
    if rest.len() > 0 && (rest[0] == ',' || rest[0] == '}') {
        assert(!is_ws(rest[0]));
        assert(skip_ws(rest) == rest);
        if rest[0] == ',' {
            assert(rest.drop_first().len() < s.len());
        }
    }
}

/// Decoding the wire form of a function call recovers it exactly, provided
/// its name holds no character that the encoder would escape.
pub proof fn lemma_parse_fc_wire(fc: FunctionCallView, rest: Seq<char>)
    requires
        plain_seq(fc.name),
    ensures
        parse_function_call(function_call_wire(fc) + rest) == Some((fc, rest)),
{
    lemma_keys_plain();
    reveal_strlit("{\"name\":\"");
    reveal_strlit("\",\"arguments\":\"");
    reveal_strlit("\"}");
    reveal_strlit("name");
    reveal_strlit("arguments");
    let w = function_call_wire(fc) + rest;
    assert(w[0] == '{');
    assert(skip_ws(w) == w);
    lemma_escape_plain(fc.name);
    let rest2 = seq!['}'] + rest;
    let s2 = seq!['"'] + ("arguments")@ + seq!['"'] + seq![':'] + (seq!['"'] + escape_seq(
        fc.arguments,
    ) + seq!['"'] + rest2);
    let s1 = seq!['"'] + ("name")@ + seq!['"'] + seq![':'] + (seq!['"'] + escape_seq(fc.name)
        + seq!['"'] + (seq![','] + s2));
    assert(w.drop_first() =~= s1);
    let tail = seq![','] + s2;
    assert(tail[0] == ',');
    lemma_fc_string_member(("name")@, fc.name, tail, true, None, None);
    assert(tail.drop_first() =~= s2);
    assert(rest2[0] == '}');
    lemma_fc_string_member(("arguments")@, fc.arguments, rest2, false, Some(fc.name), None);
    assert(rest2.drop_first() =~= rest);
    assert(fc_finish(Some(fc.name), Some(fc.arguments), rest) == Some(
        (FunctionCallView { name: fc.name, arguments: fc.arguments }, rest),
    ));
    assert(FunctionCallView { name: fc.name, arguments: fc.arguments } == fc);
    assert(parse_function_call(w) == parse_fc_members(s1, true, None, None));
    assert(parse_fc_members(s1, true, None, None) == parse_fc_members(s2, false, Some(fc.name), None));
    assert(parse_fc_members(s2, false, Some(fc.name), None) == fc_finish(
        Some(fc.name),
        Some(fc.arguments),
        rest2.drop_first(),
    ));
}

/// The `function_call` member of a turn object, written without any
/// whitespace, advances the member parser as the wire format expects.
proof fn lemma_msg_fc_member(
    fcv: FunctionCallView,
    rest: Seq<char>,
    first: bool,
    role: Option<Seq<char>>,
    content: Option<Seq<char>>,
    name: Option<Seq<char>>,
    fcacc: Option<FunctionCallView>,
)
    requires
        plain_seq(fcv.name),
    ensures
        ({
            let s = seq!['"'] + ("function_call")@ + seq!['"'] + seq![':'] + (function_call_wire(
                fcv,
            ) + rest);
            &&& (rest.len() > 0 && rest[0] == ',') ==> parse_msg_members(
                s,
                first,
                role,
                content,
                name,
                fcacc,
            ) == parse_msg_members(rest.drop_first(), false, role, content, name, Some(fcv))
            &&& (rest.len() > 0 && rest[0] == '}') ==> parse_msg_members(
                s,
                first,
                role,
                content,
                name,
                fcacc,
            ) == msg_finish(role, content, name, Some(fcv), rest.drop_first())
        }),

{
    lemma_keys_plain();
    reveal_strlit("{\"name\":\"");
    let s = seq!['"'] + ("function_call")@ + seq!['"'] + seq![':'] + (function_call_wire(fcv)
        + rest);
    assert(s[0] == '"');
    assert(skip_ws(s) == s);
    let rest_k = seq![':'] + (function_call_wire(fcv) + rest);
    lemma_escape_plain(("function_call")@);
    lemma_parse_string_escaped(("function_call")@, rest_k);
    assert(seq!['"'] + escape_seq(("function_call")@) + seq!['"'] + rest_k =~= s);
    assert(parse_string(s) == Some((("function_call")@, rest_k)));
    assert(rest_k[0] == ':');
    assert(skip_ws(rest_k) == rest_k);
    let r3 = rest_k.drop_first();
    assert(r3 =~= function_call_wire(fcv) + rest);
    assert(r3[0] == '{');
    assert(skip_ws(r3) == r3);
    assert(!starts_null(r3));
    lemma_parse_fc_wire(fcv, rest);
    assert(parse_function_call(r3) == Some((fcv, rest)));
    if rest.len() > 0 && (rest[0] == ',' || rest[0] == '}') {
        assert(!is_ws(rest[0]));
        assert(skip_ws(rest) == rest);
        if rest[0] == ',' {
            assert(rest.drop_first().len() < s.len());
        }
    }
}

/// The round-trip law of the turn codec: decoding the wire encoding of any
/// turn that carries content gives back its role, content, name and
/// function call exactly, and consumes the whole input.  The role, the
/// name and the called function's name must hold no character that the
/// encoder would escape, as the wire format writes them raw.
#[verifier::rlimit(100)]
#[verifier::spinoff_prover]
pub proof fn lemma_turn_round_trip(m: MessageView)
    requires
        plain_seq(m.role),
        m.content is Some,
        m.name is Some ==> plain_seq(m.name.unwrap()),
        m.function_call is Some ==> plain_seq(m.function_call.unwrap().name),
    ensures
        parse_message(message_wire(m)) == Some((m, Seq::<char>::empty())),
{
    lemma_keys_plain();
    reveal_strlit("{\"role\":\"");
    reveal_strlit("\"");
    reveal_strlit(",\"content\":\"");
    reveal_strlit(",\"name\":\"");
    reveal_strlit(",\"function_call\":");
    reveal_strlit("}");
    lemma_escape_plain(m.role);
    let c = m.content.unwrap();
    let w = message_wire(m);
    let zz = seq!['}'];
    let empty = Seq::<char>::empty();
    assert(("}")@ =~= zz);
    assert(zz.drop_first() =~= empty);
    lemma_role_key_split();
    lemma_content_key_split();
    lemma_name_key_split();
    lemma_fc_key_split();

    let rest_n = msg_name_part(m) + (msg_fc_part(m) + zz);
    let s2 = seq!['"'] + ("content")@ + seq!['"'] + seq![':'] + (seq!['"'] + escape_seq(c)
        + seq!['"'] + rest_n);
    let s1 = seq!['"'] + ("role")@ + seq!['"'] + seq![':'] + (seq!['"'] + escape_seq(m.role)
        + seq!['"'] + (seq![','] + s2));
    assert(w =~= seq!['{'] + s1);
    assert(w[0] == '{');
    assert(skip_ws(w) == w);
    assert(w.drop_first() =~= s1);
    assert(parse_message(w) == parse_msg_members(s1, true, None, None, None, None));

    let tail1 = seq![','] + s2;
    assert(tail1[0] == ',');
    lemma_msg_string_member(("role")@, m.role, tail1, true, None, None, None, None);
    assert(tail1.drop_first() =~= s2);
    assert(parse_msg_members(s1, true, None, None, None, None) == parse_msg_members(
        s2,
        false,
        Some(m.role),
        None,
        None,
        None,
    ));

    match m.name {
        Some(n) => {
            lemma_escape_plain(n);
            let s3 = seq!['"'] + ("name")@ + seq!['"'] + seq![':'] + (seq!['"'] + escape_seq(n)
                + seq!['"'] + (msg_fc_part(m) + zz));
            assert(rest_n =~= seq![','] + s3);
            assert(rest_n[0] == ',');
            lemma_msg_string_member(("content")@, c, rest_n, false, Some(m.role), None, None, None);
            assert(rest_n.drop_first() =~= s3);
            assert(parse_msg_members(s2, false, Some(m.role), None, None, None)
                == parse_msg_members(s3, false, Some(m.role), Some(c), None, None));
            match m.function_call {
                Some(fcv) => {
                    let rest_f = msg_fc_part(m) + zz;
                    assert(rest_f =~= seq![','] + (seq!['"'] + ("function_call")@ + seq!['"']
                        + seq![':'] + (function_call_wire(fcv) + zz)));
                    assert(rest_f[0] == ',');
                    lemma_msg_string_member(
                        ("name")@,
                        n,
                        rest_f,
                        false,
                        Some(m.role),
                        Some(c),
                        None,
                        None,
                    );
                    let s4 = seq!['"'] + ("function_call")@ + seq!['"'] + seq![':']
                        + (function_call_wire(fcv) + zz);
                    assert(rest_f.drop_first() =~= s4);
                    assert(parse_msg_members(s3, false, Some(m.role), Some(c), None, None)
                        == parse_msg_members(s4, false, Some(m.role), Some(c), Some(n), None));
                    assert(zz[0] == '}');
                    lemma_msg_fc_member(fcv, zz, false, Some(m.role), Some(c), Some(n), None);
                    assert(parse_msg_members(s4, false, Some(m.role), Some(c), Some(n), None)
                        == msg_finish(Some(m.role), Some(c), Some(n), Some(fcv), zz.drop_first()));
                    assert(msg_finish(Some(m.role), Some(c), Some(n), Some(fcv), empty) == Some(
                        (
                            MessageView {
                                role: m.role,
                                content: Some(c),
                                name: Some(n),
                                function_call: Some(fcv),
                            },
                            empty,
                        ),
                    ));
                    assert(MessageView {
                        role: m.role,
                        content: Some(c),
                        name: Some(n),
                        function_call: Some(fcv),
                    } == m);
                },
                None => {
                    let rest_f = msg_fc_part(m) + zz;
                    assert(rest_f =~= zz);
                    assert(rest_f[0] == '}');
                    lemma_msg_string_member(
                        ("name")@,
                        n,
                        rest_f,
                        false,
                        Some(m.role),
                        Some(c),
                        None,
                        None,
                    );
                    assert(rest_f.drop_first() =~= empty);
                    assert(parse_msg_members(s3, false, Some(m.role), Some(c), None, None)
                        == msg_finish(Some(m.role), Some(c), Some(n), None, rest_f.drop_first()));
                    assert(msg_finish(Some(m.role), Some(c), Some(n), None, empty) == Some(
                        (
                            MessageView {
                                role: m.role,
                                content: Some(c),
                                name: Some(n),
                                function_call: None,
                            },
                            empty,
                        ),
                    ));
                    assert(MessageView {
                        role: m.role,
                        content: Some(c),
                        name: Some(n),
                        function_call: None,
                    } == m);
                },
            }
        },
        None => {
            assert(msg_name_part(m) =~= empty);
            match m.function_call {
                Some(fcv) => {
                    assert(rest_n =~= seq![','] + (seq!['"'] + ("function_call")@ + seq!['"']
                        + seq![':'] + (function_call_wire(fcv) + zz)));
                    assert(rest_n[0] == ',');
                    lemma_msg_string_member(
                        ("content")@,
                        c,
                        rest_n,
                        false,
                        Some(m.role),
                        None,
                        None,
                        None,
                    );
                    let s4 = seq!['"'] + ("function_call")@ + seq!['"'] + seq![':']
                        + (function_call_wire(fcv) + zz);
                    assert(rest_n.drop_first() =~= s4);
                    assert(parse_msg_members(s2, false, Some(m.role), None, None, None)
                        == parse_msg_members(s4, false, Some(m.role), Some(c), None, None));
                    assert(zz[0] == '}');
                    lemma_msg_fc_member(fcv, zz, false, Some(m.role), Some(c), None, None);
                    assert(parse_msg_members(s4, false, Some(m.role), Some(c), None, None)
                        == msg_finish(Some(m.role), Some(c), None, Some(fcv), zz.drop_first()));
                    assert(msg_finish(Some(m.role), Some(c), None, Some(fcv), empty) == Some(
                        (
                            MessageView {
                                role: m.role,
                                content: Some(c),
                                name: None,
                                function_call: Some(fcv),
                            },
                            empty,
                        ),
                    ));
                    assert(MessageView {
                        role: m.role,
                        content: Some(c),
                        name: None,
                        function_call: Some(fcv),
                    } == m);
                },
                None => {
                    assert(rest_n =~= zz);
                    assert(rest_n[0] == '}');
                    lemma_msg_string_member(
                        ("content")@,
                        c,
                        rest_n,
                        false,
                        Some(m.role),
                        None,
                        None,
                        None,
                    );
                    assert(rest_n.drop_first() =~= empty);
                    assert(parse_msg_members(s2, false, Some(m.role), None, None, None)
                        == msg_finish(Some(m.role), Some(c), None, None, rest_n.drop_first()));
                    assert(msg_finish(Some(m.role), Some(c), None, None, empty) == Some(
                        (
                            MessageView {
                                role: m.role,
                                content: Some(c),
                                name: None,
                                function_call: None,
                            },
                            empty,
                        ),
                    ));
                    assert(MessageView {
                        role: m.role,
                        content: Some(c),
                        name: None,
                        function_call: None,
                    } == m);
                },
            }
        },
    }
}

} // verus!
