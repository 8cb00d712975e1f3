//! The executable decoder: each parsing function mirrors its spec-level
//! counterpart in `json` exactly, and the public functions at the bottom
//! decode a whole input as one turn, one function declaration, or one
//! response envelope.

use vstd::prelude::*;

use crate::chat_response::ChoiceView;
use crate::function_specification::PropertyView;
use crate::json::{decode_funcspec_spec, decode_message_spec, decode_response_spec, is_digit,
    is_num_char, is_ws, parse_choice, parse_choice_members, parse_choices,
    parse_choices_elements, parse_digits, parse_fc_members, parse_funcspec,
    parse_funcspec_members, parse_function_call, parse_message, parse_msg_members,
    parse_parameters, parse_parameters_members, parse_property, parse_property_members,
    parse_props, parse_props_members, parse_response, parse_response_members, parse_sa_elements,
    parse_str_body, parse_string, parse_string_array, parse_u64, parse_usage,
    parse_usage_members, skip_elements, skip_members, skip_num_chars, skip_value, skip_ws,
    starts_null, digit_val, digits_val};
use crate::escape_json::unescaped_char;

verus! {

/// The characters of a string, gathered for random access while parsing.
pub(crate) fn to_chars(s: &str) -> (r: Vec<char>)
    ensures
        r@ == s@,
{
    let n = s.unicode_len();
    let mut out: Vec<char> = Vec::new();
    let mut i: usize = 0;
    while i < n
        invariant
            n == s@.len(),
            i <= n,
            out@ == s@.take(i as int),
        decreases n - i,
    {
        out.push(s.get_char(i));
        proof {
            assert(s@.take(i + 1) =~= s@.take(i as int).push(s@[i as int]));
        }
        i = i + 1;
    }
    proof {
        assert(s@.take(n as int) =~= s@);
    }
    out
}

/// Advance past whitespace, mirroring `skip_ws`.
fn ws(s: &Vec<char>, i: usize) -> (j: usize)
    requires
        i <= s@.len(),
    ensures
        i <= j <= s@.len(),
        skip_ws(s@.skip(i as int)) == s@.skip(j as int),
{
    let mut j = i;
    while j < s.len() && (s[j] == ' ' || s[j] == '\n' || s[j] == '\r' || s[j] == '\t')
        invariant
            i <= j <= s@.len(),
            skip_ws(s@.skip(i as int)) == skip_ws(s@.skip(j as int)),
        decreases s@.len() - j,
    {
        proof {
            assert(s@.skip(j as int)[0] == s@[j as int]);
            assert(s@.skip(j as int).drop_first() =~= s@.skip(j + 1));
        }
        j = j + 1;
    }
    proof {
        if j < s.len() {
            assert(s@.skip(j as int)[0] == s@[j as int]);
            assert(!is_ws(s@.skip(j as int)[0]));
        } else {
            assert(s@.skip(j as int).len() == 0);
        }
    }
    j
}

/// Decode a string body, mirroring `parse_str_body`.
fn p_str_body(s: &Vec<char>, i: usize) -> (r: Option<(String, usize)>)
    requires
        i <= s@.len(),
    ensures
        match r {
            Some(p) => p.1 <= s@.len() && parse_str_body(s@.skip(i as int)) == Some(
                (p.0@, s@.skip(p.1 as int)),
            ),
            None => parse_str_body(s@.skip(i as int)) is None,
        },

{
    let mut out = String::new();
    let mut j = i;
    loop
        invariant
            i <= j <= s@.len(),
            parse_str_body(s@.skip(i as int)) == (match parse_str_body(s@.skip(j as int)) {
                Some((t, rr)) => Some((out@ + t, rr)),
                None => None::<(Seq<char>, Seq<char>)>,
            }),
        decreases s@.len() - j,
    {
        if j >= s.len() {
            proof {
                assert(s@.skip(j as int).len() == 0);
            }
            return None;
        }
        let c = s[j];
        proof {
            assert(s@.skip(j as int)[0] == c);
            assert(s@.skip(j as int).drop_first() =~= s@.skip(j + 1));
        }
        if c == '"' {
            proof {
                assert(parse_str_body(s@.skip(j as int)) == Some(
                    (Seq::<char>::empty(), s@.skip(j + 1)),
                ));
                assert(out@ + Seq::<char>::empty() =~= out@);
            }
            return Some((out, j + 1));
        } else if c == '\\' {
            if j + 1 >= s.len() {
                proof {
                    assert(s@.skip(j as int).len() < 2);
                }
                return None;
            }
            let c2 = s[j + 1];
            proof {
                assert(s@.skip(j as int)[1] == c2);
                assert(s@.skip(j as int).skip(2) =~= s@.skip(j + 2));
            }
            let u: char = match c2 {
                '\\' => '\\',
                '"' => '"',
                'n' => '\n',
                'r' => '\r',
                't' => '\t',
                'b' => '\x08',
                'f' => '\x0C',
                _ => {
                    proof {
                        assert(unescaped_char(c2) is None);
                    }
                    return None;
                },
            };
            proof {
                assert(unescaped_char(c2) == Some(u));
            }
            let ghost pre = out@;
            crate::text::push_char(&mut out, u);
            proof {
                if parse_str_body(s@.skip(j + 2)) is Some {
                    let tr = parse_str_body(s@.skip(j + 2)).unwrap();
                    assert(pre + (seq![u] + tr.0) =~= pre.push(u) + tr.0);
                }
            }
            j = j + 2;
        } else {
            let ghost pre = out@;
            crate::text::push_char(&mut out, c);
            proof {
                if parse_str_body(s@.skip(j + 1)) is Some {
                    let tr = parse_str_body(s@.skip(j + 1)).unwrap();
                    assert(pre + (seq![c] + tr.0) =~= pre.push(c) + tr.0);
                }
            }
            j = j + 1;
        }
    }
}

/// Decode a quoted string, mirroring `parse_string`.
fn p_string(s: &Vec<char>, i: usize) -> (r: Option<(String, usize)>)
    requires
        i <= s@.len(),
    ensures
        match r {
            Some(p) => p.1 <= s@.len() && parse_string(s@.skip(i as int)) == Some(
                (p.0@, s@.skip(p.1 as int)),
            ),
            None => parse_string(s@.skip(i as int)) is None,
        },

{
    if i < s.len() && s[i] == '"' {
        proof {
            assert(s@.skip(i as int)[0] == '"');
            assert(s@.skip(i as int).drop_first() =~= s@.skip(i + 1));
        }
        p_str_body(s, i + 1)
    } else {
        proof {
            if i < s.len() {
                assert(s@.skip(i as int)[0] == s@[i as int]);
            } else {
                assert(s@.skip(i as int).len() == 0);
            }
        }
        None
    }
}

/// Decode an unsigned integer, mirroring `parse_u64`.
fn p_u64(s: &Vec<char>, i: usize) -> (r: Option<(u64, usize)>)
    requires
        i <= s@.len(),
    ensures
        match r {
            Some(p) => p.1 <= s@.len() && parse_u64(s@.skip(i as int)) == Some(
                (p.0, s@.skip(p.1 as int)),
            ),
            None => parse_u64(s@.skip(i as int)) is None,
        },

{
    let mut j = i;
    let mut val: u64 = 0;
    let mut over: bool = false;
    proof {
        assert(s@.subrange(i as int, i as int) =~= Seq::<char>::empty());
    }
    while j < s.len() && 48 <= s[j] as u32 && s[j] as u32 <= 57
        invariant
            i <= j <= s@.len(),
            parse_digits(s@.skip(i as int)) == (
            (s@.subrange(i as int, j as int) + parse_digits(s@.skip(j as int)).0, parse_digits(
                s@.skip(j as int),
            ).1)),
            forall|t: int| i <= t < j ==> is_digit(s@[t]),
            !over ==> val as nat == digits_val(s@.subrange(i as int, j as int)),
            over ==> digits_val(s@.subrange(i as int, j as int)) > u64::MAX,
        decreases s@.len() - j,
    {
        let c = s[j];
        proof {
            assert(s@.skip(j as int)[0] == c);
            assert(is_digit(c));
            assert(s@.skip(j as int).drop_first() =~= s@.skip(j + 1));
            assert(s@.subrange(i as int, j + 1).drop_last() =~= s@.subrange(i as int, j as int));
            assert(s@.subrange(i as int, j + 1).last() == c);
            assert(s@.subrange(i as int, j as int) + (seq![c] + parse_digits(s@.skip(j + 1)).0)
                =~= s@.subrange(i as int, j + 1) + parse_digits(s@.skip(j + 1)).0);
        }
        let d: u64 = (c as u32 as u64) - 48;
        proof {
            assert(d == digit_val(c));
        }
        if !over {
            let wide: u128 = (val as u128) * 10 + (d as u128);
            if wide > u64::MAX as u128 {
                over = true;
                proof {
                    assert(digits_val(s@.subrange(i as int, j + 1)) == digits_val(
                        s@.subrange(i as int, j as int),
                    ) * 10 + digit_val(c));
                }
            } else {
                val = (wide) as u64;
                proof {
                    assert(digits_val(s@.subrange(i as int, j + 1)) == digits_val(
                        s@.subrange(i as int, j as int),
                    ) * 10 + digit_val(c));
                }
            }
        } else {
            proof {
                assert(digits_val(s@.subrange(i as int, j + 1)) == digits_val(
                    s@.subrange(i as int, j as int),
                ) * 10 + digit_val(c));
                assert(digits_val(s@.subrange(i as int, j as int)) * 10 + digit_val(c)
                    > u64::MAX);
            }
        }
        j = j + 1;
    }
    proof {
        if j < s.len() {
            assert(s@.skip(j as int)[0] == s@[j as int]);
            assert(!is_digit(s@.skip(j as int)[0]));
        } else {
            assert(s@.skip(j as int).len() == 0);
        }
        assert(parse_digits(s@.skip(j as int)).0 =~= Seq::<char>::empty());
        assert(parse_digits(s@.skip(j as int)).1 =~= s@.skip(j as int));
        assert(s@.subrange(i as int, j as int) + Seq::<char>::empty() =~= s@.subrange(
            i as int,
            j as int,
        ));
        assert(parse_digits(s@.skip(i as int)).0 =~= s@.subrange(i as int, j as int));
        assert(parse_digits(s@.skip(i as int)).1 =~= s@.skip(j as int));
    }
    if j == i {
        return None;
    }
    if over {
        return None;
    }
    Some((val, j))
}

/// Advance past a number lexeme, mirroring `skip_num_chars`.
fn skip_num(s: &Vec<char>, i: usize) -> (j: usize)
    requires
        i <= s@.len(),
    ensures
        i <= j <= s@.len(),
        skip_num_chars(s@.skip(i as int)) == s@.skip(j as int),
{
    let mut j = i;
    while j < s.len() && ((48 <= s[j] as u32 && s[j] as u32 <= 57) || s[j] == '-' || s[j] == '+'
        || s[j] == '.' || s[j] == 'e' || s[j] == 'E')
        invariant
            i <= j <= s@.len(),
            skip_num_chars(s@.skip(i as int)) == skip_num_chars(s@.skip(j as int)),
        decreases s@.len() - j,
    {
        proof {
            assert(s@.skip(j as int)[0] == s@[j as int]);
            assert(s@.skip(j as int).drop_first() =~= s@.skip(j + 1));
        }
        j = j + 1;
    }
    proof {
        if j < s.len() {
            assert(s@.skip(j as int)[0] == s@[j as int]);
            assert(!is_num_char(s@.skip(j as int)[0]));
        } else {
            assert(s@.skip(j as int).len() == 0);
        }
    }
    j
}

/// Skip one JSON value, mirroring `skip_value`.
fn sk_value(s: &Vec<char>, i: usize) -> (r: Option<usize>)
    requires
        i <= s@.len(),
    ensures
        match r {
            Some(j) => j <= s@.len() && skip_value(s@.skip(i as int)) == Some(s@.skip(j as int)),
            None => skip_value(s@.skip(i as int)) is None,
        },

    decreases s@.len() - i, 0int,
{
    if i >= s.len() {
        proof {
            assert(s@.skip(i as int).len() == 0);
        }
        return None;
    }
    let c = s[i];
    proof {
        assert(s@.skip(i as int)[0] == c);
        assert(s@.skip(i as int).drop_first() =~= s@.skip(i + 1));
    }
    if c == '"' {
        match p_str_body(s, i + 1) {
            Some(p) => Some(p.1),
            None => None,
        }
    } else if c == '{' {
        sk_members(s, i + 1, true)
    } else if c == '[' {
        sk_elements(s, i + 1, true)
    } else if c == 't' {
        if s.len() - i > 3 && s[i + 1] == 'r' && s[i + 2] == 'u' && s[i + 3] == 'e' {
            proof {
                assert(s@.skip(i as int)[1] == s@[i + 1]);
                assert(s@.skip(i as int)[2] == s@[i + 2]);
                assert(s@.skip(i as int)[3] == s@[i + 3]);
                assert(s@.skip(i as int).skip(4) =~= s@.skip(i + 4));
            }
            Some(i + 4)
        } else {
            proof {
                if s.len() - i > 3 {
                    assert(s@.skip(i as int)[1] == s@[i + 1]);
                    assert(s@.skip(i as int)[2] == s@[i + 2]);
                    assert(s@.skip(i as int)[3] == s@[i + 3]);
                }
            }
            None
        }
    } else if c == 'f' {
        if s.len() - i > 4 && s[i + 1] == 'a' && s[i + 2] == 'l' && s[i + 3] == 's' && s[i + 4]
            == 'e' {
            proof {
                assert(s@.skip(i as int)[1] == s@[i + 1]);
                assert(s@.skip(i as int)[2] == s@[i + 2]);
                assert(s@.skip(i as int)[3] == s@[i + 3]);
                assert(s@.skip(i as int)[4] == s@[i + 4]);
                assert(s@.skip(i as int).skip(5) =~= s@.skip(i + 5));
            }
            Some(i + 5)
        } else {
            proof {
                if s.len() - i > 4 {
                    assert(s@.skip(i as int)[1] == s@[i + 1]);
                    assert(s@.skip(i as int)[2] == s@[i + 2]);
                    assert(s@.skip(i as int)[3] == s@[i + 3]);
                    assert(s@.skip(i as int)[4] == s@[i + 4]);
                }
            }
            None
        }
    } else if c == 'n' {
        if s.len() - i > 3 && s[i + 1] == 'u' && s[i + 2] == 'l' && s[i + 3] == 'l' {
            proof {
                assert(s@.skip(i as int)[1] == s@[i + 1]);
                assert(s@.skip(i as int)[2] == s@[i + 2]);
                assert(s@.skip(i as int)[3] == s@[i + 3]);
                assert(starts_null(s@.skip(i as int)));
                assert(s@.skip(i as int).skip(4) =~= s@.skip(i + 4));
            }
            Some(i + 4)
        } else {
            proof {
                if s.len() - i > 3 {
                    assert(s@.skip(i as int)[1] == s@[i + 1]);
                    assert(s@.skip(i as int)[2] == s@[i + 2]);
                    assert(s@.skip(i as int)[3] == s@[i + 3]);
                }
                assert(!starts_null(s@.skip(i as int)));
            }
            None
        }
    } else if (48 <= c as u32 && c as u32 <= 57) || c == '-' {
        Some(skip_num(s, i))
    } else {
        None
    }
}

/// Check whether the null literal stands at the given position.
fn at_null(s: &Vec<char>, i: usize) -> (r: bool)
    requires
        i <= s@.len(),
    ensures
        r == starts_null(s@.skip(i as int)),
{
    if s.len() - i > 3 && s[i] == 'n' && s[i + 1] == 'u' && s[i + 2] == 'l' && s[i + 3] == 'l' {
        proof {
            assert(s@.skip(i as int)[0] == s@[i as int]);
            assert(s@.skip(i as int)[1] == s@[i + 1]);
            assert(s@.skip(i as int)[2] == s@[i + 2]);
            assert(s@.skip(i as int)[3] == s@[i + 3]);
        }
        true
    } else {
        proof {
            if s.len() - i > 3 {
                assert(s@.skip(i as int)[0] == s@[i as int]);
                assert(s@.skip(i as int)[1] == s@[i + 1]);
                assert(s@.skip(i as int)[2] == s@[i + 2]);
                assert(s@.skip(i as int)[3] == s@[i + 3]);
            }
        }
        false
    }
}

/// Skip the members of an object, mirroring `skip_members`.
fn sk_members(s: &Vec<char>, i: usize, first: bool) -> (r: Option<usize>)
    requires
        i <= s@.len(),
    ensures
        match r {
            Some(j) => j <= s@.len() && skip_members(s@.skip(i as int), first) == Some(
                s@.skip(j as int),
            ),
            None => skip_members(s@.skip(i as int), first) is None,
        },

    decreases s@.len() - i, 1int,
{
    let mut jj = i;
    let mut ff = first;
    loop
        invariant
            i <= jj <= s@.len(),
            skip_members(s@.skip(i as int), first) == skip_members(s@.skip(jj as int), ff),
        decreases s@.len() - jj,
    {
        let j0 = ws(s, jj);
        if j0 >= s.len() {
            proof {
                assert(s@.skip(j0 as int).len() == 0);
            }
            return None;
        }
        proof {
            assert(s@.skip(j0 as int)[0] == s@[j0 as int]);
        }
        if s[j0] == '}' && ff {
            proof {
                assert(s@.skip(j0 as int).drop_first() =~= s@.skip(j0 + 1));
            }
            return Some(j0 + 1);
        }
        let kr = p_string(s, j0);
        let j1 = match kr {
            Some(p) => p.1,
            None => {
                return None;
            },
        };
        let j2 = ws(s, j1);
        if j2 >= s.len() {
            proof {
                assert(s@.skip(j2 as int).len() == 0);
            }
            return None;
        }
        proof {
            assert(s@.skip(j2 as int)[0] == s@[j2 as int]);
        }
        if s[j2] != ':' {
            return None;
        }
        proof {
            assert(s@.skip(j2 as int).drop_first() =~= s@.skip(j2 + 1));
        }
        let j3 = ws(s, j2 + 1);
        if !(j3 > jj) {
            proof {
                assert(s@.skip(j3 as int).len() >= s@.skip(jj as int).len());
            }
            return None;
        }
        proof {
            assert(s@.skip(j3 as int).len() < s@.skip(jj as int).len());
        }
        let j4 = match sk_value(s, j3) {
            Some(j) => j,
            None => {
                return None;
            },
        };
        let j5 = ws(s, j4);
        if j5 >= s.len() {
            proof {
                assert(s@.skip(j5 as int).len() == 0);
            }
            return None;
        }
        proof {
            assert(s@.skip(j5 as int)[0] == s@[j5 as int]);
            assert(s@.skip(j5 as int).drop_first() =~= s@.skip(j5 + 1));
        }
        if s[j5] == '}' {
            return Some(j5 + 1);
        }
        if s[j5] == ',' && j5 + 1 > jj {
            proof {
                assert(s@.skip(j5 + 1).len() < s@.skip(jj as int).len());
            }
            jj = j5 + 1;
            ff = false;
        } else {
            proof {
                if s@[j5 as int] == ',' {
                    assert(s@.skip(j5 + 1).len() >= s@.skip(jj as int).len());
                }
            }
            return None;
        }
    }
}

/// Skip the elements of an array, mirroring `skip_elements`.
fn sk_elements(s: &Vec<char>, i: usize, first: bool) -> (r: Option<usize>)
    requires
        i <= s@.len(),
    ensures
        match r {
            Some(j) => j <= s@.len() && skip_elements(s@.skip(i as int), first) == Some(
                s@.skip(j as int),
            ),
            None => skip_elements(s@.skip(i as int), first) is None,
        },

    decreases s@.len() - i, 1int,
{
    let mut jj = i;
    let mut ff = first;
    loop
        invariant
            i <= jj <= s@.len(),
            skip_elements(s@.skip(i as int), first) == skip_elements(s@.skip(jj as int), ff),
        decreases s@.len() - jj,
    {
        let j0 = ws(s, jj);
        if j0 >= s.len() {
            proof {
                assert(s@.skip(j0 as int).len() == 0);
            }
            return None;
        }
        proof {
            assert(s@.skip(j0 as int)[0] == s@[j0 as int]);
        }
        if s[j0] == ']' && ff {
            proof {
                assert(s@.skip(j0 as int).drop_first() =~= s@.skip(j0 + 1));
            }
            return Some(j0 + 1);
        }
        proof {
            assert(s@.skip(j0 as int).len() <= s@.skip(jj as int).len());
        }
        let j1 = match sk_value(s, j0) {
            Some(j) => j,
            None => {
                return None;
            },
        };
        let j2 = ws(s, j1);
        if j2 >= s.len() {
            proof {
                assert(s@.skip(j2 as int).len() == 0);
            }
            return None;
        }
        proof {
            assert(s@.skip(j2 as int)[0] == s@[j2 as int]);
            assert(s@.skip(j2 as int).drop_first() =~= s@.skip(j2 + 1));
        }
        if s[j2] == ']' {
            return Some(j2 + 1);
        }
        if s[j2] == ',' && j2 + 1 > jj {
            proof {
                assert(s@.skip(j2 + 1).len() < s@.skip(jj as int).len());
            }
            jj = j2 + 1;
            ff = false;
        } else {
            proof {
                if s@[j2 as int] == ',' {
                    assert(s@.skip(j2 + 1).len() >= s@.skip(jj as int).len());
                }
            }
            return None;
        }
    }
}

/// Whether a decoded member key equals the given literal.
fn key_is(k: &String, lit: &str) -> (r: bool)
    ensures
        r == (k@ == lit@),
{
    let l = String::from_str(lit);
    *k == l
}

/// The model of a list of named properties, in order.
pub open spec fn props_pairs_view(v: Seq<(String, crate::function_specification::Property)>) -> Seq<
    (Seq<char>, PropertyView),
> {
    Seq::new(v.len(), |i: int| (v[i].0@, v[i].1@))
}

/// Decode a function-call object, mirroring `parse_function_call`.
fn p_function_call(s: &Vec<char>, i: usize) -> (r: Option<(crate::message::FunctionCall, usize)>)
    requires
        i <= s@.len(),
    ensures
        match r {
            Some(p) => p.1 <= s@.len() && parse_function_call(s@.skip(i as int)) == Some(
                (p.0@, s@.skip(p.1 as int)),
            ),
            None => parse_function_call(s@.skip(i as int)) is None,
        },

{
    let j0 = ws(s, i);
    if j0 >= s.len() {
        proof {
            assert(s@.skip(j0 as int).len() == 0);
        }
        return None;
    }
    proof {
        assert(s@.skip(j0 as int)[0] == s@[j0 as int]);
    }
    if s[j0] != '{' {
        return None;
    }
    proof {
        assert(s@.skip(j0 as int).drop_first() =~= s@.skip(j0 + 1));
    }
    let jstart = j0 + 1;
    let mut jj = jstart;
    let mut ff = true;
    let mut name: Option<String> = None;
    let mut arguments: Option<String> = None;
    loop
        invariant
            jstart <= jj <= s@.len(),
            parse_fc_members(s@.skip(jstart as int), true, None, None) == parse_fc_members(
                s@.skip(jj as int),
                ff,
                name.deep_view(),
                arguments.deep_view(),
            ),
            parse_function_call(s@.skip(i as int)) == parse_fc_members(
                s@.skip(jstart as int),
                true,
                None,
                None,
            ),
        decreases s@.len() - jj,
    {
        let k0 = ws(s, jj);
        if k0 >= s.len() {
            proof {
                assert(s@.skip(k0 as int).len() == 0);
            }
            return None;
        }
        proof {
            assert(s@.skip(k0 as int)[0] == s@[k0 as int]);
        }
        if s[k0] == '}' && ff {
            proof {
                assert(s@.skip(k0 as int).drop_first() =~= s@.skip(k0 + 1));
            }
            match (name, arguments) {
                (Some(n), Some(a)) => {
                    return Some((crate::message::FunctionCall { name: n, arguments: a }, k0 + 1));
                },
                _ => {
                    return None;
                },
            }
        }
        let kr = match p_string(s, k0) {
            Some(p) => p,
            None => {
                return None;
            },
        };
        let k = kr.0;
        let j1 = kr.1;
        let j2 = ws(s, j1);
        if j2 >= s.len() {
            proof {
                assert(s@.skip(j2 as int).len() == 0);
            }
            return None;
        }
        proof {
            assert(s@.skip(j2 as int)[0] == s@[j2 as int]);
        }
        if s[j2] != ':' {
            return None;
        }
        proof {
            assert(s@.skip(j2 as int).drop_first() =~= s@.skip(j2 + 1));
        }
        let j3 = ws(s, j2 + 1);
        let j4: usize;
        if key_is(&k, "name") {
            match p_string(s, j3) {
                Some(p) => {
                    name = Some(p.0);
                    j4 = p.1;
                },
                None => {
                    return None;
                },
            }
        } else if key_is(&k, "arguments") {
            match p_string(s, j3) {
                Some(p) => {
                    arguments = Some(p.0);
                    j4 = p.1;
                },
                None => {
                    return None;
                },
            }
        } else {
            match sk_value(s, j3) {
                Some(j) => {
                    j4 = j;
                },
                None => {
                    return None;
                },
            }
        }
        let j5 = ws(s, j4);
        if j5 >= s.len() {
            proof {
                assert(s@.skip(j5 as int).len() == 0);
            }
            return None;
        }
        proof {
            assert(s@.skip(j5 as int)[0] == s@[j5 as int]);
            assert(s@.skip(j5 as int).drop_first() =~= s@.skip(j5 + 1));
        }
        if s[j5] == '}' {
            match (name, arguments) {
                (Some(n), Some(a)) => {
                    return Some((crate::message::FunctionCall { name: n, arguments: a }, j5 + 1));
                },
                _ => {
                    return None;
                },
            }
        }
        if s[j5] == ',' && j5 + 1 > jj {
            proof {
                assert(s@.skip(j5 + 1).len() < s@.skip(jj as int).len());
            }
            jj = j5 + 1;
            ff = false;
        } else {
            proof {
                if s@[j5 as int] == ',' {
                    assert(s@.skip(j5 + 1).len() >= s@.skip(jj as int).len());
                }
            }
            return None;
        }
    }
}

/// Decode a turn object, mirroring `parse_message`.
fn p_message(s: &Vec<char>, i: usize) -> (r: Option<(crate::message::Message, usize)>)
    requires
        i <= s@.len(),
    ensures
        match r {
            Some(p) => p.1 <= s@.len() && parse_message(s@.skip(i as int)) == Some(
                (p.0@, s@.skip(p.1 as int)),
            ),
            None => parse_message(s@.skip(i as int)) is None,
        },

{
    let j0 = ws(s, i);
    if j0 >= s.len() {
        proof {
            assert(s@.skip(j0 as int).len() == 0);
        }
        return None;
    }
    proof {
        assert(s@.skip(j0 as int)[0] == s@[j0 as int]);
    }
    if s[j0] != '{' {
        return None;
    }
    proof {
        assert(s@.skip(j0 as int).drop_first() =~= s@.skip(j0 + 1));
    }
    let jstart = j0 + 1;
    let mut jj = jstart;
    let mut ff = true;
    let mut role: Option<String> = None;
    let mut content: Option<String> = None;
    let mut name: Option<String> = None;
    let mut fc: Option<crate::message::FunctionCall> = None;
    loop
        invariant
            jstart <= jj <= s@.len(),
            parse_msg_members(s@.skip(jstart as int), true, None, None, None, None)
                == parse_msg_members(
                s@.skip(jj as int),
                ff,
                role.deep_view(),
                content.deep_view(),
                name.deep_view(),
                match fc {
                    Some(f) => Some(f@),
                    None => None,
                },
            ),
            parse_message(s@.skip(i as int)) == parse_msg_members(
                s@.skip(jstart as int),
                true,
                None,
                None,
                None,
                None,
            ),
        decreases s@.len() - jj,
    {
        let k0 = ws(s, jj);
        if k0 >= s.len() {
            proof {
                assert(s@.skip(k0 as int).len() == 0);
            }
            return None;
        }
        proof {
            assert(s@.skip(k0 as int)[0] == s@[k0 as int]);
        }
        if s[k0] == '}' && ff {
            proof {
                assert(s@.skip(k0 as int).drop_first() =~= s@.skip(k0 + 1));
            }
            match role {
                Some(ro) => {
                    return Some(
                        (
                            crate::message::Message {
                                role: ro,
                                content: content,
                                name: name,
                                function_call: fc,
                            },
                            k0 + 1,
                        ),
                    );
                },
                None => {
                    return None;
                },
            }
        }
        let kr = match p_string(s, k0) {
            Some(p) => p,
            None => {
                return None;
            },
        };
        let k = kr.0;
        let j1 = kr.1;
        let j2 = ws(s, j1);
        if j2 >= s.len() {
            proof {
                assert(s@.skip(j2 as int).len() == 0);
            }
            return None;
        }
        proof {
            assert(s@.skip(j2 as int)[0] == s@[j2 as int]);
        }
        if s[j2] != ':' {
            return None;
        }
        proof {
            assert(s@.skip(j2 as int).drop_first() =~= s@.skip(j2 + 1));
        }
        let j3 = ws(s, j2 + 1);
        let j4: usize;
        if key_is(&k, "role") {
            match p_string(s, j3) {
                Some(p) => {
                    role = Some(p.0);
                    j4 = p.1;
                },
                None => {
                    return None;
                },
            }
        } else if key_is(&k, "content") {
            if at_null(s, j3) {
                proof {
                    assert(s@.skip(j3 as int).len() >= 4);
                    assert(s@.skip(j3 as int).skip(4) =~= s@.skip(j3 + 4));
                }
                content = None;
                j4 = j3 + 4;
            } else {
                match p_string(s, j3) {
                    Some(p) => {
                        content = Some(p.0);
                        j4 = p.1;
                    },
                    None => {
                        return None;
                    },
                }
            }
        } else if key_is(&k, "name") {
            if at_null(s, j3) {
                proof {
                    assert(s@.skip(j3 as int).len() >= 4);
                    assert(s@.skip(j3 as int).skip(4) =~= s@.skip(j3 + 4));
                }
                name = None;
                j4 = j3 + 4;
            } else {
                match p_string(s, j3) {
                    Some(p) => {
                        name = Some(p.0);
                        j4 = p.1;
                    },
                    None => {
                        return None;
                    },
                }
            }
        } else if key_is(&k, "function_call") {
            if at_null(s, j3) {
                proof {
                    assert(s@.skip(j3 as int).len() >= 4);
                    assert(s@.skip(j3 as int).skip(4) =~= s@.skip(j3 + 4));
                }
                fc = None;
                j4 = j3 + 4;
            } else {
                match p_function_call(s, j3) {
                    Some(p) => {
                        fc = Some(p.0);
                        j4 = p.1;
                    },
                    None => {
                        return None;
                    },
                }
            }
        } else {
            match sk_value(s, j3) {
                Some(j) => {
                    j4 = j;
                },
                None => {
                    return None;
                },
            }
        }
        let j5 = ws(s, j4);
        if j5 >= s.len() {
            proof {
                assert(s@.skip(j5 as int).len() == 0);
            }
            return None;
        }
        proof {
            assert(s@.skip(j5 as int)[0] == s@[j5 as int]);
            assert(s@.skip(j5 as int).drop_first() =~= s@.skip(j5 + 1));
        }
        if s[j5] == '}' {
            match role {
                Some(ro) => {
                    return Some(
                        (
                            crate::message::Message {
                                role: ro,
                                content: content,
                                name: name,
                                function_call: fc,
                            },
                            j5 + 1,
                        ),
                    );
                },
                None => {
                    return None;
                },
            }
        }
        if s[j5] == ',' && j5 + 1 > jj {
            proof {
                assert(s@.skip(j5 + 1).len() < s@.skip(jj as int).len());
            }
            jj = j5 + 1;
            ff = false;
        } else {
            proof {
                if s@[j5 as int] == ',' {
                    assert(s@.skip(j5 + 1).len() >= s@.skip(jj as int).len());
                }
            }
            return None;
        }
    }
}

/// Decode an array of strings, mirroring `parse_string_array`.
fn p_string_array(s: &Vec<char>, i: usize) -> (r: Option<(Vec<String>, usize)>)
    requires
        i <= s@.len(),
    ensures
        match r {
            Some(p) => p.1 <= s@.len() && parse_string_array(s@.skip(i as int)) == Some(
                (p.0.deep_view(), s@.skip(p.1 as int)),
            ),
            None => parse_string_array(s@.skip(i as int)) is None,
        },

{
    let j0 = ws(s, i);
    if j0 >= s.len() {
        proof {
            assert(s@.skip(j0 as int).len() == 0);
        }
        return None;
    }
    proof {
        assert(s@.skip(j0 as int)[0] == s@[j0 as int]);
    }
    if s[j0] != '[' {
        return None;
    }
    proof {
        assert(s@.skip(j0 as int).drop_first() =~= s@.skip(j0 + 1));
    }
    let jstart = j0 + 1;
    let mut jj = jstart;
    let mut ff = true;
    let mut acc: Vec<String> = Vec::new();
    proof {
        assert(acc.deep_view() =~= Seq::<Seq<char>>::empty());
    }
    loop
        invariant
            jstart <= jj <= s@.len(),
            parse_sa_elements(s@.skip(jstart as int), true, Seq::empty()) == parse_sa_elements(
                s@.skip(jj as int),
                ff,
                acc.deep_view(),
            ),
            parse_string_array(s@.skip(i as int)) == parse_sa_elements(
                s@.skip(jstart as int),
                true,
                Seq::empty(),
            ),
        decreases s@.len() - jj,
    {
        let k0 = ws(s, jj);
        if k0 >= s.len() {
            proof {
                assert(s@.skip(k0 as int).len() == 0);
            }
            return None;
        }
        proof {
            assert(s@.skip(k0 as int)[0] == s@[k0 as int]);
        }
        if s[k0] == ']' && ff {
            proof {
                assert(s@.skip(k0 as int).drop_first() =~= s@.skip(k0 + 1));
            }
            return Some((acc, k0 + 1));
        }
        let vr = match p_string(s, k0) {
            Some(p) => p,
            None => {
                return None;
            },
        };
        let ghost accpre = acc.deep_view();
        acc.push(vr.0);
        proof {
            assert(acc.deep_view() =~= accpre.push(acc@.last()@));
        }
        let j2 = ws(s, vr.1);
        if j2 >= s.len() {
            proof {
                assert(s@.skip(j2 as int).len() == 0);
            }
            return None;
        }
        proof {
            assert(s@.skip(j2 as int)[0] == s@[j2 as int]);
            assert(s@.skip(j2 as int).drop_first() =~= s@.skip(j2 + 1));
        }
        if s[j2] == ']' {
            return Some((acc, j2 + 1));
        }
        if s[j2] == ',' && j2 + 1 > jj {
            proof {
                assert(s@.skip(j2 + 1).len() < s@.skip(jj as int).len());
            }
            jj = j2 + 1;
            ff = false;
        } else {
            proof {
                if s@[j2 as int] == ',' {
                    assert(s@.skip(j2 + 1).len() >= s@.skip(jj as int).len());
                }
            }
            return None;
        }
    }
}

/// Decode a property object, mirroring `parse_property`.
fn p_property(s: &Vec<char>, i: usize) -> (r: Option<
    (crate::function_specification::Property, usize),
>)
    requires
        i <= s@.len(),
    ensures
        match r {
            Some(p) => p.1 <= s@.len() && parse_property(s@.skip(i as int)) == Some(
                (p.0@, s@.skip(p.1 as int)),
            ),
            None => parse_property(s@.skip(i as int)) is None,
        },

{
    let j0 = ws(s, i);
    if j0 >= s.len() {
        proof {
            assert(s@.skip(j0 as int).len() == 0);
        }
        return None;
    }
    proof {
        assert(s@.skip(j0 as int)[0] == s@[j0 as int]);
    }
    if s[j0] != '{' {
        return None;
    }
    proof {
        assert(s@.skip(j0 as int).drop_first() =~= s@.skip(j0 + 1));
    }
    let jstart = j0 + 1;
    let mut jj = jstart;
    let mut ff = true;
    let mut type_: Option<String> = None;
    let mut description: Option<String> = None;
    let mut enum_: Option<Vec<String>> = None;
    loop
        invariant
            jstart <= jj <= s@.len(),
            parse_property_members(s@.skip(jstart as int), true, None, None, None)
                == parse_property_members(
                s@.skip(jj as int),
                ff,
                type_.deep_view(),
                description.deep_view(),
                enum_.deep_view(),
            ),
            parse_property(s@.skip(i as int)) == parse_property_members(
                s@.skip(jstart as int),
                true,
                None,
                None,
                None,
            ),
        decreases s@.len() - jj,
    {
        let k0 = ws(s, jj);
        if k0 >= s.len() {
            proof {
                assert(s@.skip(k0 as int).len() == 0);
            }
            return None;
        }
        proof {
            assert(s@.skip(k0 as int)[0] == s@[k0 as int]);
        }
        if s[k0] == '}' && ff {
            proof {
                assert(s@.skip(k0 as int).drop_first() =~= s@.skip(k0 + 1));
            }
            match type_ {
                Some(t) => {
                    return Some(
                        (
                            crate::function_specification::Property {
                                type_: t,
                                description: description,
                                enum_: enum_,
                            },
                            k0 + 1,
                        ),
                    );
                },
                None => {
                    return None;
                },
            }
        }
        let kr = match p_string(s, k0) {
            Some(p) => p,
            None => {
                return None;
            },
        };
        let k = kr.0;
        let j2 = ws(s, kr.1);
        if j2 >= s.len() {
            proof {
                assert(s@.skip(j2 as int).len() == 0);
            }
            return None;
        }
        proof {
            assert(s@.skip(j2 as int)[0] == s@[j2 as int]);
        }
        if s[j2] != ':' {
            return None;
        }
        proof {
            assert(s@.skip(j2 as int).drop_first() =~= s@.skip(j2 + 1));
        }
        let j3 = ws(s, j2 + 1);
        let j4: usize;
        if key_is(&k, "type") {
            match p_string(s, j3) {
                Some(p) => {
                    type_ = Some(p.0);
                    j4 = p.1;
                },
                None => {
                    return None;
                },
            }
        } else if key_is(&k, "description") {
            if at_null(s, j3) {
                proof {
                    assert(s@.skip(j3 as int).len() >= 4);
                    assert(s@.skip(j3 as int).skip(4) =~= s@.skip(j3 + 4));
                }
                description = None;
                j4 = j3 + 4;
            } else {
                match p_string(s, j3) {
                    Some(p) => {
                        description = Some(p.0);
                        j4 = p.1;
                    },
                    None => {
                        return None;
                    },
                }
            }
        } else if key_is(&k, "enum") {
            if at_null(s, j3) {
                proof {
                    assert(s@.skip(j3 as int).len() >= 4);
                    assert(s@.skip(j3 as int).skip(4) =~= s@.skip(j3 + 4));
                }
                enum_ = None;
                j4 = j3 + 4;
            } else {
                match p_string_array(s, j3) {
                    Some(p) => {
                        enum_ = Some(p.0);
                        j4 = p.1;
                    },
                    None => {
                        return None;
                    },
                }
            }
        } else {
            match sk_value(s, j3) {
                Some(j) => {
                    j4 = j;
                },
                None => {
                    return None;
                },
            }
        }
        let j5 = ws(s, j4);
        if j5 >= s.len() {
            proof {
                assert(s@.skip(j5 as int).len() == 0);
            }
            return None;
        }
        proof {
            assert(s@.skip(j5 as int)[0] == s@[j5 as int]);
            assert(s@.skip(j5 as int).drop_first() =~= s@.skip(j5 + 1));
        }
        if s[j5] == '}' {
            match type_ {
                Some(t) => {
                    return Some(
                        (
                            crate::function_specification::Property {
                                type_: t,
                                description: description,
                                enum_: enum_,
                            },
                            j5 + 1,
                        ),
                    );
                },
                None => {
                    return None;
                },
            }
        }
        if s[j5] == ',' && j5 + 1 > jj {
            proof {
                assert(s@.skip(j5 + 1).len() < s@.skip(jj as int).len());
            }
            jj = j5 + 1;
            ff = false;
        } else {
            proof {
                if s@[j5 as int] == ',' {
                    assert(s@.skip(j5 + 1).len() >= s@.skip(jj as int).len());
                }
            }
            return None;
        }
    }
}

/// Decode a `properties` object, mirroring `parse_props`.
fn p_props(s: &Vec<char>, i: usize) -> (r: Option<
    (Vec<(String, crate::function_specification::Property)>, usize),
>)
    requires
        i <= s@.len(),
    ensures
        match r {
            Some(p) => p.1 <= s@.len() && parse_props(s@.skip(i as int)) == Some(
                (props_pairs_view(p.0@), s@.skip(p.1 as int)),
            ),
            None => parse_props(s@.skip(i as int)) is None,
        },

{
    let j0 = ws(s, i);
    if j0 >= s.len() {
        proof {
            assert(s@.skip(j0 as int).len() == 0);
        }
        return None;
    }
    proof {
        assert(s@.skip(j0 as int)[0] == s@[j0 as int]);
    }
    if s[j0] != '{' {
        return None;
    }
    proof {
        assert(s@.skip(j0 as int).drop_first() =~= s@.skip(j0 + 1));
    }
    let jstart = j0 + 1;
    let mut jj = jstart;
    let mut ff = true;
    let mut acc: Vec<(String, crate::function_specification::Property)> = Vec::new();
    proof {
        assert(props_pairs_view(acc@) =~= Seq::<(Seq<char>, PropertyView)>::empty());
    }
    loop
        invariant
            jstart <= jj <= s@.len(),
            parse_props_members(s@.skip(jstart as int), true, Seq::empty()) == parse_props_members(
                s@.skip(jj as int),
                ff,
                props_pairs_view(acc@),
            ),
            parse_props(s@.skip(i as int)) == parse_props_members(
                s@.skip(jstart as int),
                true,
                Seq::empty(),
            ),
        decreases s@.len() - jj,
    {
        let k0 = ws(s, jj);
        if k0 >= s.len() {
            proof {
                assert(s@.skip(k0 as int).len() == 0);
            }
            return None;
        }
        proof {
            assert(s@.skip(k0 as int)[0] == s@[k0 as int]);
        }
        if s[k0] == '}' && ff {
            proof {
                assert(s@.skip(k0 as int).drop_first() =~= s@.skip(k0 + 1));
            }
            return Some((acc, k0 + 1));
        }
        let kr = match p_string(s, k0) {
            Some(p) => p,
            None => {
                return None;
            },
        };
        let j2 = ws(s, kr.1);
        if j2 >= s.len() {
            proof {
                assert(s@.skip(j2 as int).len() == 0);
            }
            return None;
        }
        proof {
            assert(s@.skip(j2 as int)[0] == s@[j2 as int]);
        }
        if s[j2] != ':' {
            return None;
        }
        proof {
            assert(s@.skip(j2 as int).drop_first() =~= s@.skip(j2 + 1));
        }
        let j3 = ws(s, j2 + 1);
        let pr = match p_property(s, j3) {
            Some(p) => p,
            None => {
                return None;
            },
        };
        let ghost accpre = props_pairs_view(acc@);
        acc.push((kr.0, pr.0));
        proof {
            assert(props_pairs_view(acc@) =~= accpre.push((acc@.last().0@, acc@.last().1@)));
        }
        let j5 = ws(s, pr.1);
        if j5 >= s.len() {
            proof {
                assert(s@.skip(j5 as int).len() == 0);
            }
            return None;
        }
        proof {
            assert(s@.skip(j5 as int)[0] == s@[j5 as int]);
            assert(s@.skip(j5 as int).drop_first() =~= s@.skip(j5 + 1));
        }
        if s[j5] == '}' {
            return Some((acc, j5 + 1));
        }
        if s[j5] == ',' && j5 + 1 > jj {
            proof {
                assert(s@.skip(j5 + 1).len() < s@.skip(jj as int).len());
            }
            jj = j5 + 1;
            ff = false;
        } else {
            proof {
                if s@[j5 as int] == ',' {
                    assert(s@.skip(j5 + 1).len() >= s@.skip(jj as int).len());
                }
            }
            return None;
        }
    }
}

/// Decode a parameters object, mirroring `parse_parameters`.
fn p_parameters(s: &Vec<char>, i: usize) -> (r: Option<
    (crate::function_specification::Parameters, usize),
>)
    requires
        i <= s@.len(),
    ensures
        match r {
            Some(p) => p.1 <= s@.len() && parse_parameters(s@.skip(i as int)) == Some(
                (p.0@, s@.skip(p.1 as int)),
            ),
            None => parse_parameters(s@.skip(i as int)) is None,
        },

{
    let j0 = ws(s, i);
    if j0 >= s.len() {
        proof {
            assert(s@.skip(j0 as int).len() == 0);
        }
        return None;
    }
    proof {
        assert(s@.skip(j0 as int)[0] == s@[j0 as int]);
    }
    if s[j0] != '{' {
        return None;
    }
    proof {
        assert(s@.skip(j0 as int).drop_first() =~= s@.skip(j0 + 1));
    }
    let jstart = j0 + 1;
    let mut jj = jstart;
    let mut ff = true;
    let mut type_: Option<String> = None;
    let mut properties: Option<Vec<(String, crate::function_specification::Property)>> = None;
    let mut required: Option<Vec<String>> = None;
    loop
        invariant
            jstart <= jj <= s@.len(),
            parse_parameters_members(s@.skip(jstart as int), true, None, None, None)
                == parse_parameters_members(
                s@.skip(jj as int),
                ff,
                type_.deep_view(),
                match properties {
                    Some(ref v) => Some(props_pairs_view(v@)),
                    None => None,
                },
                required.deep_view(),
            ),
            parse_parameters(s@.skip(i as int)) == parse_parameters_members(
                s@.skip(jstart as int),
                true,
                None,
                None,
                None,
            ),
        decreases s@.len() - jj,
    {
        let k0 = ws(s, jj);
        if k0 >= s.len() {
            proof {
                assert(s@.skip(k0 as int).len() == 0);
            }
            return None;
        }
        proof {
            assert(s@.skip(k0 as int)[0] == s@[k0 as int]);
        }
        if s[k0] == '}' && ff {
            proof {
                assert(s@.skip(k0 as int).drop_first() =~= s@.skip(k0 + 1));
            }
            match (type_, properties, required) {
                (Some(t), Some(p), Some(q)) => {
                    return Some(
                        (
                            crate::function_specification::Parameters {
                                type_: t,
                                properties: p,
                                required: q,
                            },
                            k0 + 1,
                        ),
                    );
                },
                _ => {
                    return None;
                },
            }
        }
        let kr = match p_string(s, k0) {
            Some(p) => p,
            None => {
                return None;
            },
        };
        let k = kr.0;
        let j2 = ws(s, kr.1);
        if j2 >= s.len() {
            proof {
                assert(s@.skip(j2 as int).len() == 0);
            }
            return None;
        }
        proof {
            assert(s@.skip(j2 as int)[0] == s@[j2 as int]);
        }
        if s[j2] != ':' {
            return None;
        }
        proof {
            assert(s@.skip(j2 as int).drop_first() =~= s@.skip(j2 + 1));
        }
        let j3 = ws(s, j2 + 1);
        let j4: usize;
        if key_is(&k, "type") {
            match p_string(s, j3) {
                Some(p) => {
                    type_ = Some(p.0);
                    j4 = p.1;
                },
                None => {
                    return None;
                },
            }
        } else if key_is(&k, "properties") {
            match p_props(s, j3) {
                Some(p) => {
                    properties = Some(p.0);
                    j4 = p.1;
                },
                None => {
                    return None;
                },
            }
        } else if key_is(&k, "required") {
            match p_string_array(s, j3) {
                Some(p) => {
                    required = Some(p.0);
                    j4 = p.1;
                },
                None => {
                    return None;
                },
            }
        } else {
            match sk_value(s, j3) {
                Some(j) => {
                    j4 = j;
                },
                None => {
                    return None;
                },
            }
        }
        let j5 = ws(s, j4);
        if j5 >= s.len() {
            proof {
                assert(s@.skip(j5 as int).len() == 0);
            }
            return None;
        }
        proof {
            assert(s@.skip(j5 as int)[0] == s@[j5 as int]);
            assert(s@.skip(j5 as int).drop_first() =~= s@.skip(j5 + 1));
        }
        if s[j5] == '}' {
            match (type_, properties, required) {
                (Some(t), Some(p), Some(q)) => {
                    return Some(
                        (
                            crate::function_specification::Parameters {
                                type_: t,
                                properties: p,
                                required: q,
                            },
                            j5 + 1,
                        ),
                    );
                },
                _ => {
                    return None;
                },
            }
        }
        if s[j5] == ',' && j5 + 1 > jj {
            proof {
                assert(s@.skip(j5 + 1).len() < s@.skip(jj as int).len());
            }
            jj = j5 + 1;
            ff = false;
        } else {
            proof {
                if s@[j5 as int] == ',' {
                    assert(s@.skip(j5 + 1).len() >= s@.skip(jj as int).len());
                }
            }
            return None;
        }
    }
}

/// Decode a function-declaration object, mirroring `parse_funcspec`.
fn p_funcspec(s: &Vec<char>, i: usize) -> (r: Option<
    (crate::function_specification::FunctionSpecification, usize),
>)
    requires
        i <= s@.len(),
    ensures
        match r {
            Some(p) => p.1 <= s@.len() && parse_funcspec(s@.skip(i as int)) == Some(
                (p.0@, s@.skip(p.1 as int)),
            ),
            None => parse_funcspec(s@.skip(i as int)) is None,
        },

{
    let j0 = ws(s, i);
    if j0 >= s.len() {
        proof {
            assert(s@.skip(j0 as int).len() == 0);
        }
        return None;
    }
    proof {
        assert(s@.skip(j0 as int)[0] == s@[j0 as int]);
    }
    if s[j0] != '{' {
        return None;
    }
    proof {
        assert(s@.skip(j0 as int).drop_first() =~= s@.skip(j0 + 1));
    }
    let jstart = j0 + 1;
    let mut jj = jstart;
    let mut ff = true;
    let mut name: Option<String> = None;
    let mut description: Option<String> = None;
    let mut parameters: Option<crate::function_specification::Parameters> = None;
    loop
        invariant
            jstart <= jj <= s@.len(),
            parse_funcspec_members(s@.skip(jstart as int), true, None, None, None)
                == parse_funcspec_members(
                s@.skip(jj as int),
                ff,
                name.deep_view(),
                description.deep_view(),
                match parameters {
                    Some(ref p) => Some(p@),
                    None => None,
                },
            ),
            parse_funcspec(s@.skip(i as int)) == parse_funcspec_members(
                s@.skip(jstart as int),
                true,
                None,
                None,
                None,
            ),
        decreases s@.len() - jj,
    {
        let k0 = ws(s, jj);
        if k0 >= s.len() {
            proof {
                assert(s@.skip(k0 as int).len() == 0);
            }
            return None;
        }
        proof {
            assert(s@.skip(k0 as int)[0] == s@[k0 as int]);
        }
        if s[k0] == '}' && ff {
            proof {
                assert(s@.skip(k0 as int).drop_first() =~= s@.skip(k0 + 1));
            }
            match name {
                Some(n) => {
                    return Some(
                        (
                            crate::function_specification::FunctionSpecification {
                                name: n,
                                description: description,
                                parameters: parameters,
                            },
                            k0 + 1,
                        ),
                    );
                },
                None => {
                    return None;
                },
            }
        }
        let kr = match p_string(s, k0) {
            Some(p) => p,
            None => {
                return None;
            },
        };
        let k = kr.0;
        let j2 = ws(s, kr.1);
        if j2 >= s.len() {
            proof {
                assert(s@.skip(j2 as int).len() == 0);
            }
            return None;
        }
        proof {
            assert(s@.skip(j2 as int)[0] == s@[j2 as int]);
        }
        if s[j2] != ':' {
            return None;
        }
        proof {
            assert(s@.skip(j2 as int).drop_first() =~= s@.skip(j2 + 1));
        }
        let j3 = ws(s, j2 + 1);
        let j4: usize;
        if key_is(&k, "name") {
            match p_string(s, j3) {
                Some(p) => {
                    name = Some(p.0);
                    j4 = p.1;
                },
                None => {
                    return None;
                },
            }
        } else if key_is(&k, "description") {
            if at_null(s, j3) {
                proof {
                    assert(s@.skip(j3 as int).len() >= 4);
                    assert(s@.skip(j3 as int).skip(4) =~= s@.skip(j3 + 4));
                }
                description = None;
                j4 = j3 + 4;
            } else {
                match p_string(s, j3) {
                    Some(p) => {
                        description = Some(p.0);
                        j4 = p.1;
                    },
                    None => {
                        return None;
                    },
                }
            }
        } else if key_is(&k, "parameters") {
            if at_null(s, j3) {
                proof {
                    assert(s@.skip(j3 as int).len() >= 4);
                    assert(s@.skip(j3 as int).skip(4) =~= s@.skip(j3 + 4));
                }
                parameters = None;
                j4 = j3 + 4;
            } else {
                match p_parameters(s, j3) {
                    Some(p) => {
                        parameters = Some(p.0);
                        j4 = p.1;
                    },
                    None => {
                        return None;
                    },
                }
            }
        } else {
            match sk_value(s, j3) {
                Some(j) => {
                    j4 = j;
                },
                None => {
                    return None;
                },
            }
        }
        let j5 = ws(s, j4);
        if j5 >= s.len() {
            proof {
                assert(s@.skip(j5 as int).len() == 0);
            }
            return None;
        }
        proof {
            assert(s@.skip(j5 as int)[0] == s@[j5 as int]);
            assert(s@.skip(j5 as int).drop_first() =~= s@.skip(j5 + 1));
        }
        if s[j5] == '}' {
            match name {
                Some(n) => {
                    return Some(
                        (
                            crate::function_specification::FunctionSpecification {
                                name: n,
                                description: description,
                                parameters: parameters,
                            },
                            j5 + 1,
                        ),
                    );
                },
                None => {
                    return None;
                },
            }
        }
        if s[j5] == ',' && j5 + 1 > jj {
            proof {
                assert(s@.skip(j5 + 1).len() < s@.skip(jj as int).len());
            }
            jj = j5 + 1;
            ff = false;
        } else {
            proof {
                if s@[j5 as int] == ',' {
                    assert(s@.skip(j5 + 1).len() >= s@.skip(jj as int).len());
                }
            }
            return None;
        }
    }
}

/// Decode a choice object, mirroring `parse_choice`.
fn p_choice(s: &Vec<char>, i: usize) -> (r: Option<(crate::chat_response::Choice, usize)>)
    requires
        i <= s@.len(),
    ensures
        match r {
            Some(p) => p.1 <= s@.len() && parse_choice(s@.skip(i as int)) == Some(
                (p.0@, s@.skip(p.1 as int)),
            ),
            None => parse_choice(s@.skip(i as int)) is None,
        },

{
    let j0 = ws(s, i);
    if j0 >= s.len() {
        proof {
            assert(s@.skip(j0 as int).len() == 0);
        }
        return None;
    }
    proof {
        assert(s@.skip(j0 as int)[0] == s@[j0 as int]);
    }
    if s[j0] != '{' {
        return None;
    }
    proof {
        assert(s@.skip(j0 as int).drop_first() =~= s@.skip(j0 + 1));
    }
    let jstart = j0 + 1;
    let mut jj = jstart;
    let mut ff = true;
    let mut index: Option<u64> = None;
    let mut message: Option<crate::message::Message> = None;
    let mut finish_reason: Option<String> = None;
    loop
        invariant
            jstart <= jj <= s@.len(),
            parse_choice_members(s@.skip(jstart as int), true, None, None, None)
                == parse_choice_members(
                s@.skip(jj as int),
                ff,
                index,
                match message {
                    Some(ref m) => Some(m@),
                    None => None,
                },
                finish_reason.deep_view(),
            ),
            parse_choice(s@.skip(i as int)) == parse_choice_members(
                s@.skip(jstart as int),
                true,
                None,
                None,
                None,
            ),
        decreases s@.len() - jj,
    {
        let k0 = ws(s, jj);
        if k0 >= s.len() {
            proof {
                assert(s@.skip(k0 as int).len() == 0);
            }
            return None;
        }
        proof {
            assert(s@.skip(k0 as int)[0] == s@[k0 as int]);
        }
        if s[k0] == '}' && ff {
            proof {
                assert(s@.skip(k0 as int).drop_first() =~= s@.skip(k0 + 1));
            }
            match (index, message, finish_reason) {
                (Some(ix), Some(m), Some(f)) => {
                    return Some(
                        (
                            crate::chat_response::Choice {
                                index: ix,
                                message: m,
                                finish_reason: f,
                            },
                            k0 + 1,
                        ),
                    );
                },
                _ => {
                    return None;
                },
            }
        }
        let kr = match p_string(s, k0) {
            Some(p) => p,
            None => {
                return None;
            },
        };
        let k = kr.0;
        let j2 = ws(s, kr.1);
        if j2 >= s.len() {
            proof {
                assert(s@.skip(j2 as int).len() == 0);
            }
            return None;
        }
        proof {
            assert(s@.skip(j2 as int)[0] == s@[j2 as int]);
        }
        if s[j2] != ':' {
            return None;
        }
        proof {
            assert(s@.skip(j2 as int).drop_first() =~= s@.skip(j2 + 1));
        }
        let j3 = ws(s, j2 + 1);
        let j4: usize;
        if key_is(&k, "index") {
            match p_u64(s, j3) {
                Some(p) => {
                    index = Some(p.0);
                    j4 = p.1;
                },
                None => {
                    return None;
                },
            }
        } else if key_is(&k, "message") {
            match p_message(s, j3) {
                Some(p) => {
                    message = Some(p.0);
                    j4 = p.1;
                },
                None => {
                    return None;
                },
            }
        } else if key_is(&k, "finish_reason") {
            match p_string(s, j3) {
                Some(p) => {
                    finish_reason = Some(p.0);
                    j4 = p.1;
                },
                None => {
                    return None;
                },
            }
        } else {
            match sk_value(s, j3) {
                Some(j) => {
                    j4 = j;
                },
                None => {
                    return None;
                },
            }
        }
        let j5 = ws(s, j4);
        if j5 >= s.len() {
            proof {
                assert(s@.skip(j5 as int).len() == 0);
            }
            return None;
        }
        proof {
            assert(s@.skip(j5 as int)[0] == s@[j5 as int]);
            assert(s@.skip(j5 as int).drop_first() =~= s@.skip(j5 + 1));
        }
        if s[j5] == '}' {
            match (index, message, finish_reason) {
                (Some(ix), Some(m), Some(f)) => {
                    return Some(
                        (
                            crate::chat_response::Choice {
                                index: ix,
                                message: m,
                                finish_reason: f,
                            },
                            j5 + 1,
                        ),
                    );
                },
                _ => {
                    return None;
                },
            }
        }
        if s[j5] == ',' && j5 + 1 > jj {
            proof {
                assert(s@.skip(j5 + 1).len() < s@.skip(jj as int).len());
            }
            jj = j5 + 1;
            ff = false;
        } else {
            proof {
                if s@[j5 as int] == ',' {
                    assert(s@.skip(j5 + 1).len() >= s@.skip(jj as int).len());
                }
            }
            return None;
        }
    }
}

/// Decode the `choices` array, mirroring `parse_choices`.
fn p_choices(s: &Vec<char>, i: usize) -> (r: Option<(Vec<crate::chat_response::Choice>, usize)>)
    requires
        i <= s@.len(),
    ensures
        match r {
            Some(p) => p.1 <= s@.len() && parse_choices(s@.skip(i as int)) == Some(
                (p.0.deep_view(), s@.skip(p.1 as int)),
            ),
            None => parse_choices(s@.skip(i as int)) is None,
        },

{
    let j0 = ws(s, i);
    if j0 >= s.len() {
        proof {
            assert(s@.skip(j0 as int).len() == 0);
        }
        return None;
    }
    proof {
        assert(s@.skip(j0 as int)[0] == s@[j0 as int]);
    }
    if s[j0] != '[' {
        return None;
    }
    proof {
        assert(s@.skip(j0 as int).drop_first() =~= s@.skip(j0 + 1));
    }
    let jstart = j0 + 1;
    let mut jj = jstart;
    let mut ff = true;
    let mut acc: Vec<crate::chat_response::Choice> = Vec::new();
    proof {
        assert(acc.deep_view() =~= Seq::<ChoiceView>::empty());
    }
    loop
        invariant
            jstart <= jj <= s@.len(),
            parse_choices_elements(s@.skip(jstart as int), true, Seq::empty())
                == parse_choices_elements(s@.skip(jj as int), ff, acc.deep_view()),
            parse_choices(s@.skip(i as int)) == parse_choices_elements(
                s@.skip(jstart as int),
                true,
                Seq::empty(),
            ),
        decreases s@.len() - jj,
    {
        let k0 = ws(s, jj);
        if k0 >= s.len() {
            proof {
                assert(s@.skip(k0 as int).len() == 0);
            }
            return None;
        }
        proof {
            assert(s@.skip(k0 as int)[0] == s@[k0 as int]);
        }
        if s[k0] == ']' && ff {
            proof {
                assert(s@.skip(k0 as int).drop_first() =~= s@.skip(k0 + 1));
            }
            return Some((acc, k0 + 1));
        }
        let vr = match p_choice(s, k0) {
            Some(p) => p,
            None => {
                return None;
            },
        };
        let ghost accpre = acc.deep_view();
        acc.push(vr.0);
        proof {
            assert(acc.deep_view() =~= accpre.push(acc@.last()@));
        }
        let j2 = ws(s, vr.1);
        if j2 >= s.len() {
            proof {
                assert(s@.skip(j2 as int).len() == 0);
            }
            return None;
        }
        proof {
            assert(s@.skip(j2 as int)[0] == s@[j2 as int]);
            assert(s@.skip(j2 as int).drop_first() =~= s@.skip(j2 + 1));
        }
        if s[j2] == ']' {
            return Some((acc, j2 + 1));
        }
        if s[j2] == ',' && j2 + 1 > jj {
            proof {
                assert(s@.skip(j2 + 1).len() < s@.skip(jj as int).len());
            }
            jj = j2 + 1;
            ff = false;
        } else {
            proof {
                if s@[j2 as int] == ',' {
                    assert(s@.skip(j2 + 1).len() >= s@.skip(jj as int).len());
                }
            }
            return None;
        }
    }
}

/// Decode the usage object, mirroring `parse_usage`.
fn p_usage(s: &Vec<char>, i: usize) -> (r: Option<(crate::chat_response::Usage, usize)>)
    requires
        i <= s@.len(),
    ensures
        match r {
            Some(p) => p.1 <= s@.len() && parse_usage(s@.skip(i as int)) == Some(
                (p.0@, s@.skip(p.1 as int)),
            ),
            None => parse_usage(s@.skip(i as int)) is None,
        },

{
    let j0 = ws(s, i);
    if j0 >= s.len() {
        proof {
            assert(s@.skip(j0 as int).len() == 0);
        }
        return None;
    }
    proof {
        assert(s@.skip(j0 as int)[0] == s@[j0 as int]);
    }
    if s[j0] != '{' {
        return None;
    }
    proof {
        assert(s@.skip(j0 as int).drop_first() =~= s@.skip(j0 + 1));
    }
    let jstart = j0 + 1;
    let mut jj = jstart;
    let mut ff = true;
    let mut prompt_tokens: Option<u64> = None;
    let mut completion_tokens: Option<u64> = None;
    let mut total_tokens: Option<u64> = None;
    loop
        invariant
            jstart <= jj <= s@.len(),
            parse_usage_members(s@.skip(jstart as int), true, None, None, None)
                == parse_usage_members(
                s@.skip(jj as int),
                ff,
                prompt_tokens,
                completion_tokens,
                total_tokens,
            ),
            parse_usage(s@.skip(i as int)) == parse_usage_members(
                s@.skip(jstart as int),
                true,
                None,
                None,
                None,
            ),
        decreases s@.len() - jj,
    {
        let k0 = ws(s, jj);
        if k0 >= s.len() {
            proof {
                assert(s@.skip(k0 as int).len() == 0);
            }
            return None;
        }
        proof {
            assert(s@.skip(k0 as int)[0] == s@[k0 as int]);
        }
        if s[k0] == '}' && ff {
            proof {
                assert(s@.skip(k0 as int).drop_first() =~= s@.skip(k0 + 1));
            }
            match (prompt_tokens, completion_tokens, total_tokens) {
                (Some(p), Some(c), Some(t)) => {
                    if p <= u32::MAX as u64 && c <= u32::MAX as u64 && t <= u32::MAX as u64 {
                        return Some(
                            (
                                crate::chat_response::Usage {
                                    prompt_tokens: p as u32,
                                    completion_tokens: c as u32,
                                    total_tokens: t as u32,
                                },
                                k0 + 1,
                            ),
                        );
                    } else {
                        return None;
                    }
                },
                _ => {
                    return None;
                },
            }
        }
        let kr = match p_string(s, k0) {
            Some(p) => p,
            None => {
                return None;
            },
        };
        let k = kr.0;
        let j2 = ws(s, kr.1);
        if j2 >= s.len() {
            proof {
                assert(s@.skip(j2 as int).len() == 0);
            }
            return None;
        }
        proof {
            assert(s@.skip(j2 as int)[0] == s@[j2 as int]);
        }
        if s[j2] != ':' {
            return None;
        }
        proof {
            assert(s@.skip(j2 as int).drop_first() =~= s@.skip(j2 + 1));
        }
        let j3 = ws(s, j2 + 1);
        let j4: usize;
        if key_is(&k, "prompt_tokens") {
            match p_u64(s, j3) {
                Some(p) => {
                    prompt_tokens = Some(p.0);
                    j4 = p.1;
                },
                None => {
                    return None;
                },
            }
        } else if key_is(&k, "completion_tokens") {
            match p_u64(s, j3) {
                Some(p) => {
                    completion_tokens = Some(p.0);
                    j4 = p.1;
                },
                None => {
                    return None;
                },
            }
        } else if key_is(&k, "total_tokens") {
            match p_u64(s, j3) {
                Some(p) => {
                    total_tokens = Some(p.0);
                    j4 = p.1;
                },
                None => {
                    return None;
                },
            }
        } else {
            match sk_value(s, j3) {
                Some(j) => {
                    j4 = j;
                },
                None => {
                    return None;
                },
            }
        }
        let j5 = ws(s, j4);
        if j5 >= s.len() {
            proof {
                assert(s@.skip(j5 as int).len() == 0);
            }
            return None;
        }
        proof {
            assert(s@.skip(j5 as int)[0] == s@[j5 as int]);
            assert(s@.skip(j5 as int).drop_first() =~= s@.skip(j5 + 1));
        }
        if s[j5] == '}' {
            match (prompt_tokens, completion_tokens, total_tokens) {
                (Some(p), Some(c), Some(t)) => {
                    if p <= u32::MAX as u64 && c <= u32::MAX as u64 && t <= u32::MAX as u64 {
                        return Some(
                            (
                                crate::chat_response::Usage {
                                    prompt_tokens: p as u32,
                                    completion_tokens: c as u32,
                                    total_tokens: t as u32,
                                },
                                j5 + 1,
                            ),
                        );
                    } else {
                        return None;
                    }
                },
                _ => {
                    return None;
                },
            }
        }
        if s[j5] == ',' && j5 + 1 > jj {
            proof {
                assert(s@.skip(j5 + 1).len() < s@.skip(jj as int).len());
            }
            jj = j5 + 1;
            ff = false;
        } else {
            proof {
                if s@[j5 as int] == ',' {
                    assert(s@.skip(j5 + 1).len() >= s@.skip(jj as int).len());
                }
            }
            return None;
        }
    }
}

/// Decode a response envelope, mirroring `parse_response`.
fn p_response(s: &Vec<char>, i: usize) -> (r: Option<(crate::chat_response::ChatResponse, usize)>)
    requires
        i <= s@.len(),
    ensures
        match r {
            Some(p) => p.1 <= s@.len() && parse_response(s@.skip(i as int)) == Some(
                (p.0@, s@.skip(p.1 as int)),
            ),
            None => parse_response(s@.skip(i as int)) is None,
        },

{
    let j0 = ws(s, i);
    if j0 >= s.len() {
        proof {
            assert(s@.skip(j0 as int).len() == 0);
        }
        return None;
    }
    proof {
        assert(s@.skip(j0 as int)[0] == s@[j0 as int]);
    }
    if s[j0] != '{' {
        return None;
    }
    proof {
        assert(s@.skip(j0 as int).drop_first() =~= s@.skip(j0 + 1));
    }
    let jstart = j0 + 1;
    let mut jj = jstart;
    let mut ff = true;
    let mut id: Option<String> = None;
    let mut object: Option<String> = None;
    let mut created: Option<u64> = None;
    let mut choices: Option<Vec<crate::chat_response::Choice>> = None;
    let mut usage: Option<crate::chat_response::Usage> = None;
    loop
        invariant
            jstart <= jj <= s@.len(),
            parse_response_members(s@.skip(jstart as int), true, None, None, None, None, None)
                == parse_response_members(
                s@.skip(jj as int),
                ff,
                id.deep_view(),
                object.deep_view(),
                created,
                match choices {
                    Some(ref v) => Some(v.deep_view()),
                    None => None,
                },
                match usage {
                    Some(ref u) => Some(u@),
                    None => None,
                },
            ),
            parse_response(s@.skip(i as int)) == parse_response_members(
                s@.skip(jstart as int),
                true,
                None,
                None,
                None,
                None,
                None,
            ),
        decreases s@.len() - jj,
    {
        let k0 = ws(s, jj);
        if k0 >= s.len() {
            proof {
                assert(s@.skip(k0 as int).len() == 0);
            }
            return None;
        }
        proof {
            assert(s@.skip(k0 as int)[0] == s@[k0 as int]);
        }
        if s[k0] == '}' && ff {
            proof {
                assert(s@.skip(k0 as int).drop_first() =~= s@.skip(k0 + 1));
            }
            match (id, object, created, choices, usage) {
                (Some(i2), Some(o2), Some(cr2), Some(ch2), Some(u2)) => {
                    return Some(
                        (
                            crate::chat_response::ChatResponse {
                                id: i2,
                                object: o2,
                                created: cr2,
                                choices: ch2,
                                usage: u2,
                            },
                            k0 + 1,
                        ),
                    );
                },
                _ => {
                    return None;
                },
            }
        }
        let kr = match p_string(s, k0) {
            Some(p) => p,
            None => {
                return None;
            },
        };
        let k = kr.0;
        let j2 = ws(s, kr.1);
        if j2 >= s.len() {
            proof {
                assert(s@.skip(j2 as int).len() == 0);
            }
            return None;
        }
        proof {
            assert(s@.skip(j2 as int)[0] == s@[j2 as int]);
        }
        if s[j2] != ':' {
            return None;
        }
        proof {
            assert(s@.skip(j2 as int).drop_first() =~= s@.skip(j2 + 1));
        }
        let j3 = ws(s, j2 + 1);
        let j4: usize;
        if key_is(&k, "id") {
            match p_string(s, j3) {
                Some(p) => {
                    id = Some(p.0);
                    j4 = p.1;
                },
                None => {
                    return None;
                },
            }
        } else if key_is(&k, "object") {
            match p_string(s, j3) {
                Some(p) => {
                    object = Some(p.0);
                    j4 = p.1;
                },
                None => {
                    return None;
                },
            }
        } else if key_is(&k, "created") {
            match p_u64(s, j3) {
                Some(p) => {
                    created = Some(p.0);
                    j4 = p.1;
                },
                None => {
                    return None;
                },
            }
        } else if key_is(&k, "choices") {
            match p_choices(s, j3) {
                Some(p) => {
                    choices = Some(p.0);
                    j4 = p.1;
                },
                None => {
                    return None;
                },
            }
        } else if key_is(&k, "usage") {
            match p_usage(s, j3) {
                Some(p) => {
                    usage = Some(p.0);
                    j4 = p.1;
                },
                None => {
                    return None;
                },
            }
        } else {
            match sk_value(s, j3) {
                Some(j) => {
                    j4 = j;
                },
                None => {
                    return None;
                },
            }
        }
        let j5 = ws(s, j4);
        if j5 >= s.len() {
            proof {
                assert(s@.skip(j5 as int).len() == 0);
            }
            return None;
        }
        proof {
            assert(s@.skip(j5 as int)[0] == s@[j5 as int]);
            assert(s@.skip(j5 as int).drop_first() =~= s@.skip(j5 + 1));
        }
        if s[j5] == '}' {
            match (id, object, created, choices, usage) {
                (Some(i2), Some(o2), Some(cr2), Some(ch2), Some(u2)) => {
                    return Some(
                        (
                            crate::chat_response::ChatResponse {
                                id: i2,
                                object: o2,
                                created: cr2,
                                choices: ch2,
                                usage: u2,
                            },
                            j5 + 1,
                        ),
                    );
                },
                _ => {
                    return None;
                },
            }
        }
        if s[j5] == ',' && j5 + 1 > jj {
            proof {
                assert(s@.skip(j5 + 1).len() < s@.skip(jj as int).len());
            }
            jj = j5 + 1;
            ff = false;
        } else {
            proof {
                if s@[j5 as int] == ',' {
                    assert(s@.skip(j5 + 1).len() >= s@.skip(jj as int).len());
                }
            }
            return None;
        }
    }
}

/// Decode a whole input as one turn.
pub fn decode_message(s: &str) -> (r: Option<crate::message::Message>)
    ensures
        match r {
            Some(m) => decode_message_spec(s@) == Some(m@),
            None => decode_message_spec(s@) is None,
        },

{
    let cs = to_chars(s);
    proof {
        assert(cs@.skip(0int) =~= s@);
    }
    match p_message(&cs, 0) {
        Some(p) => {
            let j = ws(&cs, p.1);
            if j == cs.len() {
                proof {
                    assert(cs@.skip(j as int).len() == 0);
                }
                Some(p.0)
            } else {
                proof {
                    assert(cs@.skip(j as int).len() > 0);
                }
                None
            }
        },
        None => None,
    }
}

/// Decode a whole input as one function declaration.
pub fn decode_function_specification(s: &str) -> (r: Option<
    crate::function_specification::FunctionSpecification,
>)
    ensures
        match r {
            Some(f) => decode_funcspec_spec(s@) == Some(f@),
            None => decode_funcspec_spec(s@) is None,
        },

{
    let cs = to_chars(s);
    proof {
        assert(cs@.skip(0int) =~= s@);
    }
    match p_funcspec(&cs, 0) {
        Some(p) => {
            let j = ws(&cs, p.1);
            if j == cs.len() {
                proof {
                    assert(cs@.skip(j as int).len() == 0);
                }
                Some(p.0)
            } else {
                proof {
                    assert(cs@.skip(j as int).len() > 0);
                }
                None
            }
        },
        None => None,
    }
}

/// Decode a whole input as one response envelope.
pub fn decode_chat_response(s: &str) -> (r: Option<crate::chat_response::ChatResponse>)
    ensures
        match r {
            Some(e) => decode_response_spec(s@) == Some(e@),
            None => decode_response_spec(s@) is None,
        },

{
    let cs = to_chars(s);
    proof {
        assert(cs@.skip(0int) =~= s@);
    }
    match p_response(&cs, 0) {
        Some(p) => {
            let j = ws(&cs, p.1);
            if j == cs.len() {
                proof {
                    assert(cs@.skip(j as int).len() == 0);
                }
                Some(p.0)
            } else {
                proof {
                    assert(cs@.skip(j as int).len() > 0);
                }
                None
            }
        },
        None => None,
    }
}

} // verus!
