//! Escaping of raw text so that it can stand between two unescaped double
//! quotes in a JSON document.
//!
//! Backslash, double quote, newline, carriage return, tab, backspace and
//! form feed are replaced by their two-character escape sequences; every
//! other character passes through unchanged.

use vstd::prelude::*;

verus! {

/// Holds of the characters that cannot stand raw inside a JSON string.
pub open spec fn needs_escape(c: char) -> bool {
    c == '\\' || c == '"' || c == '\n' || c == '\r' || c == '\t' || c == '\x08' || c == '\x0C'
}

/// A sequence without any character that the wire format would escape.
pub open spec fn plain_seq(s: Seq<char>) -> bool {
    forall|i: int| 0 <= i < s.len() ==> !needs_escape(s[i])
}

/// What one character becomes in the escaped form.
pub open spec fn escaped_char(c: char) -> Seq<char> {
    if c == '\\' {
        seq!['\\', '\\']
    } else if c == '"' {
        seq!['\\', '"']
    } else if c == '\n' {
        seq!['\\', 'n']
    } else if c == '\r' {
        seq!['\\', 'r']
    } else if c == '\t' {
        seq!['\\', 't']
    } else if c == '\x08' {
        seq!['\\', 'b']
    } else if c == '\x0C' {
        seq!['\\', 'f']
    } else {
        seq![c]
    }
}

/// The escaped form of a whole string.
pub open spec fn escape_seq(s: Seq<char>) -> Seq<char>
    decreases s.len(),
{
    if s.len() == 0 {
        Seq::empty()
    } else {
        escaped_char(s[0]) + escape_seq(s.drop_first())
    }
}

/// What an escape code (the character after a backslash) decodes to.
pub open spec fn unescaped_char(c: char) -> Option<char> {
    if c == '\\' {
        Some('\\')
    } else if c == '"' {
        Some('"')
    } else if c == 'n' {
        Some('\n')
    } else if c == 'r' {
        Some('\r')
    } else if c == 't' {
        Some('\t')
    } else if c == 'b' {
        Some('\x08')
    } else if c == 'f' {
        Some('\x0C')
    } else {
        None
    }
}

/// The decode operation that inverts `escape_seq`: a backslash must be
/// followed by a known escape code; every other character stands for itself.
pub open spec fn unescape_seq(s: Seq<char>) -> Option<Seq<char>>
    decreases s.len(),
{
    if s.len() == 0 {
        Some(Seq::empty())
    } else if s[0] == '\\' {
        if s.len() == 1 {
            None
        } else {
            match unescaped_char(s[1]) {
                None => None,
                Some(c) => match unescape_seq(s.skip(2)) {
                    None => None,
                    Some(r) => Some(seq![c] + r),
                },
            }
        }
    } else {
        match unescape_seq(s.drop_first()) {
            None => None,
            Some(r) => Some(seq![s[0]] + r),
        }
    }
}

/// Escaping distributes over concatenation.
pub proof fn lemma_escape_append(a: Seq<char>, b: Seq<char>)
    ensures
        escape_seq(a + b) == escape_seq(a) + escape_seq(b),
    decreases a.len(),
{
    if a.len() == 0 {
        assert(a + b =~= b);
        assert(escape_seq(a) + escape_seq(b) =~= escape_seq(b));
    } else {
        lemma_escape_append(a.drop_first(), b);
        assert((a + b).drop_first() =~= a.drop_first() + b);
        assert(escaped_char(a[0]) + (escape_seq(a.drop_first()) + escape_seq(b)) =~= (
        escaped_char(a[0]) + escape_seq(a.drop_first())) + escape_seq(b));
    }
}

/// A string without characters that need escaping is left as it is.
pub proof fn lemma_escape_plain(s: Seq<char>)
    requires
        plain_seq(s),
    ensures
        escape_seq(s) == s,
    decreases s.len(),
{
    if s.len() == 0 {
        assert(escape_seq(s) =~= s);
    } else {
        assert(plain_seq(s.drop_first()));
        lemma_escape_plain(s.drop_first());
        assert(escaped_char(s[0]) =~= seq![s[0]]);
        assert(escape_seq(s) =~= s);
    }
}

/// The round-trip law of the escaping utility: decoding the escaped form of
/// any string gives that string back exactly.
pub proof fn lemma_unescape_escape(s: Seq<char>)
    ensures
        unescape_seq(escape_seq(s)) == Some(s),
    decreases s.len(),
{
    if s.len() == 0 {
        assert(unescape_seq(escape_seq(s)) == Some(Seq::<char>::empty()));
        assert(Seq::<char>::empty() =~= s);
    } else {
        lemma_unescape_escape(s.drop_first());
        let e = escape_seq(s);
        assert(e =~= escaped_char(s[0]) + escape_seq(s.drop_first()));
        if needs_escape(s[0]) {
            assert(escaped_char(s[0]).len() == 2);
            assert(e[0] == '\\');
            assert(unescaped_char(e[1]) == Some(s[0]));
            assert(e.skip(2) =~= escape_seq(s.drop_first()));
            assert(seq![s[0]] + s.drop_first() =~= s);
        } else {
            assert(e[0] == s[0]);
            assert(e[0] != '\\');
            assert(e.drop_first() =~= escape_seq(s.drop_first()));
            assert(seq![s[0]] + s.drop_first() =~= s);
        }
    }
}

/// Escape a string for JSON.
///
/// Useful to escape the content of a message: without escaping, the request
/// body would not be valid JSON and the API would reject it.
pub trait EscapeJson: View<V = Seq<char>> {
    fn escape_json(&self) -> (r: String)
        ensures
            r@ == escape_seq(self@),
    ;
}

impl EscapeJson for str {
    fn escape_json(&self) -> (r: String)
        ensures
            r@ == escape_seq(self@),
    {
        let n = self.unicode_len();
        let mut out = String::new();
        let mut i: usize = 0;
        proof {
            assert(self@.take(0int) =~= Seq::<char>::empty());
            assert(escape_seq(self@.take(0int)) =~= Seq::<char>::empty());
        }
        while i < n
            invariant
                n == self@.len(),
                i <= n,
                out@ == escape_seq(self@.take(i as int)),
            decreases n - i,
        {
            let c = self.get_char(i);
            proof {
                assert(self@.take(i + 1) =~= self@.take(i as int) + seq![c]);
                lemma_escape_append(self@.take(i as int), seq![c]);
                assert(seq![c].drop_first() =~= Seq::<char>::empty());
                assert(escape_seq(Seq::<char>::empty()) =~= Seq::<char>::empty());
                assert(escape_seq(seq![c]) =~= escaped_char(c));
            }
            match c {
                '\\' => {
                    out.append("\\\\");
                    proof {
                        reveal_strlit("\\\\");
                        assert(("\\\\")@ =~= escaped_char(c));
                    }
                },
                '"' => {
                    out.append("\\\"");
                    proof {
                        reveal_strlit("\\\"");
                        assert(("\\\"")@ =~= escaped_char(c));
                    }
                },
                '\n' => {
                    out.append("\\n");
                    proof {
                        reveal_strlit("\\n");
                        assert(("\\n")@ =~= escaped_char(c));
                    }
                },
                '\r' => {
                    out.append("\\r");
                    proof {
                        reveal_strlit("\\r");
                        assert(("\\r")@ =~= escaped_char(c));
                    }
                },
                '\t' => {
                    out.append("\\t");
                    proof {
                        reveal_strlit("\\t");
                        assert(("\\t")@ =~= escaped_char(c));
                    }
                },
                '\x08' => {
                    out.append("\\b");
                    proof {
                        reveal_strlit("\\b");
                        assert(("\\b")@ =~= escaped_char(c));
                    }
                },
                '\x0C' => {
                    out.append("\\f");
                    proof {
                        reveal_strlit("\\f");
                        assert(("\\f")@ =~= escaped_char(c));
                    }
                },
                _ => {
                    crate::text::push_char(&mut out, c);
                    proof {
                        assert(escaped_char(c) =~= seq![c]);
                    }
                },
            }
            i = i + 1;
        }
        proof {
            assert(self@.take(n as int) =~= self@);
        }
        out
    }
}

impl EscapeJson for String {
    fn escape_json(&self) -> (r: String)
        ensures
            r@ == escape_seq(self@),
    {
        self.as_str().escape_json()
    }
}

} // verus!
