//! The JSON text layer shared by the request renderer and the response
//! reader: string escaping, and parsing of JSON string bodies, literals
//! and whitespace.
//!
//! Strings are escaped the minimal way: quote and backslash get a
//! backslash, the common control characters use their short escapes, and
//! the remaining control characters use `\u00XX`. The parser accepts all
//! standard single-character escapes and `\uXXXX` for Unicode scalar
//! values; it rejects surrogate escapes, which this library never emits.

use vstd::prelude::*;

verus! {

/// The lower-case hexadecimal digit character.
pub open spec fn hex_char(d: int) -> char {
    if d == 0 {
        '0'
    } else if d == 1 {
        '1'
    } else if d == 2 {
        '2'
    } else if d == 3 {
        '3'
    } else if d == 4 {
        '4'
    } else if d == 5 {
        '5'
    } else if d == 6 {
        '6'
    } else if d == 7 {
        '7'
    } else if d == 8 {
        '8'
    } else if d == 9 {
        '9'
    } else if d == 10 {
        'a'
    } else if d == 11 {
        'b'
    } else if d == 12 {
        'c'
    } else if d == 13 {
        'd'
    } else if d == 14 {
        'e'
    } else {
        'f'
    }
}

/// Whether a character is a hexadecimal digit, either case.
pub open spec fn is_hex(c: char) -> bool {
    ('0' <= c && c <= '9') || ('a' <= c && c <= 'f') || ('A' <= c && c <= 'F')
}

/// The value of a hexadecimal digit character.
pub open spec fn hex_val(c: char) -> int {
    if '0' <= c && c <= '9' {
        c as int - '0' as int
    } else if 'a' <= c && c <= 'f' {
        c as int - 'a' as int + 10
    } else {
        c as int - 'A' as int + 10
    }
}

fn is_hex_exec(c: char) -> (r: bool)
    ensures
        r == is_hex(c),
{
    ('0' <= c && c <= '9') || ('a' <= c && c <= 'f') || ('A' <= c && c <= 'F')
}

fn hex_val_exec(c: char) -> (d: u32)
    requires
        is_hex(c),
    ensures
        d == hex_val(c),
        d < 16,
{
    if '0' <= c && c <= '9' {
        c as u32 - '0' as u32
    } else if 'a' <= c && c <= 'f' {
        c as u32 - 'a' as u32 + 10
    } else {
        c as u32 - 'A' as u32 + 10
    }
}

fn hex_char_exec(d: u32) -> (c: char)
    requires
        d < 16,
    ensures
        c == hex_char(d as int),
{
    match d {
        0 => '0',
        1 => '1',
        2 => '2',
        3 => '3',
        4 => '4',
        5 => '5',
        6 => '6',
        7 => '7',
        8 => '8',
        9 => '9',
        10 => 'a',
        11 => 'b',
        12 => 'c',
        13 => 'd',
        14 => 'e',
        _ => 'f',
    }
}

/// How one character appears inside a JSON string literal.
pub open spec fn escape_char(c: char) -> Seq<char> {
    if c == '"' {
        seq!['\\', '"']
    } else if c == '\\' {
        seq!['\\', '\\']
    } else if c == '\n' {
        seq!['\\', 'n']
    } else if c == '\r' {
        seq!['\\', 'r']
    } else if c == '\t' {
        seq!['\\', 't']
    } else if (c as u32) < 0x20 {
        seq!['\\', 'u', '0', '0', hex_char((c as u32) as int / 16), hex_char((c as u32) as int % 16)]
    } else {
        seq![c]
    }
}

/// How a whole text appears inside a JSON string literal.
pub open spec fn escape_seq(s: Seq<char>) -> Seq<char>
    decreases s.len(),
{
    if s.len() == 0 {
        Seq::empty()
    } else {
        escape_char(s[0]) + escape_seq(s.drop_first())
    }
}

pub proof fn lemma_escape_snoc(s: Seq<char>, c: char)
    ensures
        escape_seq(s.push(c)) == escape_seq(s) + escape_char(c),
    decreases s.len(),
{
    if s.len() == 0 {
        assert(s.push(c).drop_first() =~= Seq::<char>::empty());
        assert(s.push(c)[0] == c);
        assert(escape_char(c) + escape_seq(Seq::<char>::empty()) =~= escape_char(c));
        assert(escape_seq(s) + escape_char(c) =~= escape_char(c));
        assert(escape_seq(s.push(c)) =~= escape_seq(s) + escape_char(c));
    } else {
        assert(s.push(c).drop_first() =~= s.drop_first().push(c));
        lemma_escape_snoc(s.drop_first(), c);
        assert(s.push(c)[0] == s[0]);
        assert(escape_char(s[0]) + (escape_seq(s.drop_first()) + escape_char(c)) =~= (escape_char(
            s[0],
        ) + escape_seq(s.drop_first())) + escape_char(c));
        assert(escape_seq(s.push(c)) =~= escape_seq(s) + escape_char(c));
    }
}

fn push_escaped_char(out: &mut Vec<char>, c: char)
    ensures
        final(out)@ == old(out)@ + escape_char(c),
{
    if c == '"' {
        out.push('\\');
        out.push('"');
    } else if c == '\\' {
        out.push('\\');
        out.push('\\');
    } else if c == '\n' {
        out.push('\\');
        out.push('n');
    } else if c == '\r' {
        out.push('\\');
        out.push('r');
    } else if c == '\t' {
        out.push('\\');
        out.push('t');
    } else if (c as u32) < 0x20 {
        let u = c as u32;
        out.push('\\');
        out.push('u');
        out.push('0');
        out.push('0');
        out.push(hex_char_exec(u / 16));
        out.push(hex_char_exec(u % 16));
    } else {
        out.push(c);
    }
    proof {
        assert(final(out)@ =~= old(out)@ + escape_char(c));
    }
}

/// Appends the escaped form of the given characters.
pub fn push_escaped(out: &mut Vec<char>, s: &Vec<char>)
    ensures
        final(out)@ == old(out)@ + escape_seq(s@),
{
    let mut i: usize = 0;
    while i < s.len()
        invariant
            i <= s@.len(),
            out@ == old(out)@ + escape_seq(s@.subrange(0, i as int)),
        decreases s@.len() - i,
    {
        push_escaped_char(out, s[i]);
        proof {
            assert(s@.subrange(0, i as int).push(s@[i as int]) =~= s@.subrange(
                0,
                i as int + 1,
            ));
            lemma_escape_snoc(s@.subrange(0, i as int), s@[i as int]);
        }
        i = i + 1;
    }
    proof {
        assert(s@.subrange(0, s@.len() as int) =~= s@);
        assert(escape_seq(Seq::<char>::empty()) == Seq::<char>::empty());
        assert(old(out)@ + escape_seq(Seq::<char>::empty()) =~= old(out)@);
    }
}

/// Whether a code is a Unicode scalar value, i.e. names a `char`.
pub open spec fn is_scalar_code(u: u32) -> bool {
    u < 0xD800 || (0xE000 <= u && u < 0x110000)
}

/// Relies on `char::from_u32`: yields the character with the given code
/// for every Unicode scalar value, and nothing for surrogate or
/// out-of-range codes.
#[verifier::external_body]
fn char_from_code(u: u32) -> (r: Option<char>)
    ensures
        r == if is_scalar_code(u) {
            Some(u as char)
        } else {
            None::<char>
        },
{
    char::from_u32(u)
}

/// Prepends one character to the text of a successful string parse.
pub open spec fn cons_parsed(c: char, r: Option<(Seq<char>, int)>) -> Option<(Seq<char>, int)> {
    match r {
        Option::None => Option::None,
        Option::Some((t, j)) => Option::Some((seq![c] + t, j)),
    }
}

/// Parses the body of a JSON string literal: `i` points just past the
/// opening quote; a successful parse yields the decoded text and the
/// index just past the closing quote. Unescaped control characters and
/// surrogate `\u` escapes are rejected.
pub open spec fn ps_string_body(s: Seq<char>, i: int) -> Option<(Seq<char>, int)>
    decreases s.len() - i,
{
    if i < 0 || i >= s.len() {
        Option::None
    } else if s[i] == '"' {
        Option::Some((Seq::empty(), i + 1))
    } else if s[i] == '\\' {
        if i + 1 >= s.len() {
            Option::None
        } else {
            let e = s[i + 1];
            if e == '"' || e == '\\' || e == '/' {
                cons_parsed(e, ps_string_body(s, i + 2))
            } else if e == 'n' {
                cons_parsed('\n', ps_string_body(s, i + 2))
            } else if e == 'r' {
                cons_parsed('\r', ps_string_body(s, i + 2))
            } else if e == 't' {
                cons_parsed('\t', ps_string_body(s, i + 2))
            } else if e == 'b' {
                cons_parsed(8u32 as char, ps_string_body(s, i + 2))
            } else if e == 'f' {
                cons_parsed(12u32 as char, ps_string_body(s, i + 2))
            } else if e == 'u' {
                if i + 6 <= s.len() && is_hex(s[i + 2]) && is_hex(s[i + 3]) && is_hex(s[i + 4])
                    && is_hex(s[i + 5]) {
                    let code = hex_val(s[i + 2]) * 4096 + hex_val(s[i + 3]) * 256 + hex_val(
                        s[i + 4],
                    ) * 16 + hex_val(s[i + 5]);
                    if is_scalar_code(code as u32) {
                        cons_parsed((code as u32) as char, ps_string_body(s, i + 6))
                    } else {
                        Option::None
                    }
                } else {
                    Option::None
                }
            } else {
                Option::None
            }
        }
    } else if (s[i] as u32) < 0x20 {
        Option::None
    } else {
        cons_parsed(s[i], ps_string_body(s, i + 1))
    }
}

/// Parses a JSON string body; mirrors `ps_string_body` exactly.
pub fn p_string_body(v: &Vec<char>, i: usize) -> (r: Option<(Vec<char>, usize)>)
    ensures
        match r {
            Option::Some(p) => ps_string_body(v@, i as int) == Option::Some((p.0@, p.1 as int))
                && i < p.1 <= v@.len(),
            Option::None => ps_string_body(v@, i as int) is None,
        },
    decreases v@.len() - i,
{
    if i >= v.len() {
        return Option::None;
    }
    let c = v[i];
    if c == '"' {
        return Option::Some((Vec::new(), i + 1));
    }
    if c == '\\' {
        if i + 1 >= v.len() {
            return Option::None;
        }
        let e = v[i + 1];
        if e == '"' || e == '\\' || e == '/' || e == 'n' || e == 'r' || e == 't' || e == 'b'
            || e == 'f' {
            let d: char = if e == 'n' {
                '\n'
            } else if e == 'r' {
                '\r'
            } else if e == 't' {
                '\t'
            } else if e == 'b' {
                match char_from_code(8) {
                    Option::Some(x) => x,
                    Option::None => ' ',
                }
            } else if e == 'f' {
                match char_from_code(12) {
                    Option::Some(x) => x,
                    Option::None => ' ',
                }
            } else {
                e
            };
            match p_string_body(v, i + 2) {
                Option::Some(p) => {
                    let mut t = p.0;
                    t.insert(0, d);
                    proof {
                        assert(t@ =~= seq![d] + p.0@);
                    }
                    return Option::Some((t, p.1));
                },
                Option::None => {
                    return Option::None;
                },
            }
        }
        if e == 'u' {
            if v.len() - i >= 6 && is_hex_exec(v[i + 2]) && is_hex_exec(v[i + 3]) && is_hex_exec(
                v[i + 4],
            ) && is_hex_exec(v[i + 5]) {
                let code: u32 = hex_val_exec(v[i + 2]) * 4096 + hex_val_exec(v[i + 3]) * 256
                    + hex_val_exec(v[i + 4]) * 16 + hex_val_exec(v[i + 5]);
                match char_from_code(code) {
                    Option::Some(d) => {
                        match p_string_body(v, i + 6) {
                            Option::Some(p) => {
                                let mut t = p.0;
                                t.insert(0, d);
                                proof {
                                    assert(t@ =~= seq![d] + p.0@);
                                }
                                return Option::Some((t, p.1));
                            },
                            Option::None => {
                                return Option::None;
                            },
                        }
                    },
                    Option::None => {
                        return Option::None;
                    },
                }
            }
            return Option::None;
        }
        return Option::None;
    }
    if (c as u32) < 0x20 {
        return Option::None;
    }
    match p_string_body(v, i + 1) {
        Option::Some(p) => {
            let mut t = p.0;
            t.insert(0, c);
            proof {
                assert(t@ =~= seq![c] + p.0@);
            }
            Option::Some((t, p.1))
        },
        Option::None => Option::None,
    }
}

/// The index after any run of JSON whitespace.
pub open spec fn ps_ws(s: Seq<char>, i: int) -> int
    decreases s.len() - i,
{
    if 0 <= i && i < s.len() && crate::text::is_ws(s[i]) {
        ps_ws(s, i + 1)
    } else {
        i
    }
}

/// Skips JSON whitespace; mirrors `ps_ws`.
pub fn p_ws(v: &Vec<char>, i: usize) -> (j: usize)
    requires
        i <= v@.len(),
    ensures
        j == ps_ws(v@, i as int),
        i <= j <= v@.len(),
    decreases v@.len() - i,
{
    if i < v.len() {
        let c = v[i];
        if c == ' ' || c == '\t' || c == '\n' || c == '\r' {
            return p_ws(v, i + 1);
        }
    }
    i
}

/// Matches an exact literal at the given index.
pub open spec fn ps_lit(s: Seq<char>, i: int, lit: Seq<char>) -> Option<int> {
    if 0 <= i && i + lit.len() <= s.len() && s.subrange(i, i + lit.len() as int) == lit {
        Option::Some(i + lit.len() as int)
    } else {
        Option::None
    }
}

/// Matches an exact literal; mirrors `ps_lit`.
pub fn p_lit(v: &Vec<char>, i: usize, lit: &Vec<char>) -> (r: Option<usize>)
    requires
        i <= v@.len(),
    ensures
        match r {
            Option::Some(j) => ps_lit(v@, i as int, lit@) == Option::Some(j as int) && i <= j
                <= v@.len(),
            Option::None => ps_lit(v@, i as int, lit@) is None,
        },
{
    let n = v.len();
    if n - i < lit.len() {
        proof {
            assert(ps_lit(v@, i as int, lit@) is None);
        }
        return Option::None;
    }
    let mut k: usize = 0;
    while k < lit.len()
        invariant
            k <= lit@.len(),
            n == v@.len(),
            i + lit@.len() <= v@.len(),
            forall|m: int| 0 <= m < k ==> v@[i + m] == lit@[m],
        decreases lit@.len() - k,
    {
        if v[i + k] != lit[k] {
            proof {
                assert(v@.subrange(i as int, i + lit@.len() as int)[k as int] == v@[i + k]);
                assert(v@.subrange(i as int, i + lit@.len() as int) != lit@);
            }
            return Option::None;
        }
        k = k + 1;
    }
    proof {
        assert(v@.subrange(i as int, i + lit@.len() as int) =~= lit@);
    }
    Option::Some(i + lit.len())
}

/// One character of the escaped prefix, read off the surrounding text.
proof fn lemma_prefix_char(t: Seq<char>, s: Seq<char>, i: int, m: int)
    requires
        0 <= i,
        i + escape_seq(t).len() + 1 <= s.len(),
        s.subrange(i, i + escape_seq(t).len() + 1) == escape_seq(t) + seq!['"'],
        0 <= m < escape_seq(t).len(),
    ensures
        s[i + m] == escape_seq(t)[m],
{
    assert(s.subrange(i, i + escape_seq(t).len() + 1)[m] == s[i + m]);
    assert((escape_seq(t) + seq!['"'])[m] == escape_seq(t)[m]);
}

/// Re-reading an escaped text: parsing a string body that consists of the
/// escaped form followed by the closing quote yields the original text
/// and stops just past that quote, whatever follows.
pub proof fn lemma_parse_escaped(t: Seq<char>, s: Seq<char>, i: int)
    requires
        0 <= i,
        i + escape_seq(t).len() + 1 <= s.len(),
        s.subrange(i, i + escape_seq(t).len() + 1) == escape_seq(t) + seq!['"'],
    ensures
        ps_string_body(s, i) == Option::Some((t, i + escape_seq(t).len() + 1)),
    decreases t.len(),
{
    let sub = s.subrange(i, i + escape_seq(t).len() + 1);
    if t.len() == 0 {
        assert(escape_seq(t) + seq!['"'] =~= seq!['"']);
        assert(sub[0] == s[i]);
        assert(s[i] == '"');
    } else {
        let c = t[0];
        let rest = t.drop_first();
        let ec = escape_char(c);
        assert(escape_seq(t) == ec + escape_seq(rest));
        let n = ec.len() as int;
        let lr = escape_seq(rest).len() as int;
        assert(escape_seq(t).len() == n + lr);
        // Each character of this escape stands in `s` where expected.
        assert(forall|m: int| 0 <= m < n ==> (ec + escape_seq(rest))[m] == ec[m]);
        if n >= 1 {
            lemma_prefix_char(t, s, i, 0);
            assert(s[i] == ec[0]);
        }
        if n >= 2 {
            lemma_prefix_char(t, s, i, 1);
            assert(s[i + 1] == ec[1]);
        }
        if n == 6 {
            lemma_prefix_char(t, s, i, 2);
            lemma_prefix_char(t, s, i, 3);
            lemma_prefix_char(t, s, i, 4);
            lemma_prefix_char(t, s, i, 5);
            assert(s[i + 2] == ec[2] && s[i + 3] == ec[3] && s[i + 4] == ec[4] && s[i + 5]
                == ec[5]);
        }
        // The tail after this character's escape matches the remaining text.
        assert forall|k: int| 0 <= k < lr + 1 implies s.subrange(i + n, i + n + lr + 1)[k] == (
        escape_seq(rest) + seq!['"'])[k] by {
            assert(s.subrange(i + n, i + n + lr + 1)[k] == s[i + n + k]);
            assert(sub[n + k] == s[i + n + k]);
            assert(sub[n + k] == (escape_seq(t) + seq!['"'])[n + k]);
            if k < lr {
                assert((escape_seq(t) + seq!['"'])[n + k] == escape_seq(t)[n + k]);
                assert(escape_seq(t)[n + k] == (ec + escape_seq(rest))[n + k]);
                assert((ec + escape_seq(rest))[n + k] == escape_seq(rest)[k]);
                assert((escape_seq(rest) + seq!['"'])[k] == escape_seq(rest)[k]);
            } else {
                assert((escape_seq(t) + seq!['"'])[n + k] == '"');
                assert((escape_seq(rest) + seq!['"'])[k] == '"');
            }
        }
        assert(s.subrange(i + n, i + n + lr + 1) =~= escape_seq(rest) + seq!['"']);
        lemma_parse_escaped(rest, s, i + n);
        assert(seq![c] + rest =~= t);
        if c == '"' || c == '\\' {
            assert(s[i] == '\\' && s[i + 1] == c);
        } else if c == '\n' {
            assert(s[i] == '\\' && s[i + 1] == 'n');
        } else if c == '\r' {
            assert(s[i] == '\\' && s[i + 1] == 'r');
        } else if c == '\t' {
            assert(s[i] == '\\' && s[i + 1] == 't');
        } else if (c as u32) < 0x20 {
            let u = (c as u32) as int;
            assert(s[i] == '\\' && s[i + 1] == 'u' && s[i + 2] == '0' && s[i + 3] == '0'
                && s[i + 4] == hex_char(u / 16) && s[i + 5] == hex_char(u % 16));
            assert(is_hex('0') && hex_val('0') == 0);
            assert(is_hex(hex_char(u / 16)) && hex_val(hex_char(u / 16)) == u / 16);
            assert(is_hex(hex_char(u % 16)) && hex_val(hex_char(u % 16)) == u % 16);
            let code = hex_val(s[i + 2]) * 4096 + hex_val(s[i + 3]) * 256 + hex_val(s[i + 4]) * 16
                + hex_val(s[i + 5]);
            assert(code == u);
            assert(is_scalar_code(code as u32));
            vstd::utf8::char_u32_cast(c, c as u32);
            assert((code as u32) as char == c);
        } else {
            assert(s[i] == c);
            assert(c != '"' && c != '\\' && !((c as u32) < 0x20));
        }
    }
}

} // verus!
