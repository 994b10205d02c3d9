//! Reading the endpoint's JSON response and classifying the outcome of
//! one exchange.
//!
//! The expected response shape is an object with a `choices` array whose
//! elements each carry `message.content` as a string; every other member
//! at every level is ignored, whatever JSON value it holds. A body that
//! does not match this shape is malformed. Where a member occurs twice,
//! the first occurrence counts and later ones are skipped.

use vstd::prelude::*;
use crate::codec::{p_lit, p_string_body, p_ws, ps_lit, ps_string_body, ps_ws};
use crate::errors::{CliError, ReplyOutcome};
use crate::text::{chars_to_string, str_to_chars, trim_spec, trim_ws};

verus! {

/// The characters a JSON number consists of, taken loosely: skipped
/// numbers are not validated beyond their character set.
pub open spec fn is_num_char(c: char) -> bool {
    ('0' <= c && c <= '9') || c == '-' || c == '+' || c == '.' || c == 'e' || c == 'E'
}

/// The index after a run of number characters.
pub open spec fn ps_num_end(s: Seq<char>, i: int) -> int
    decreases s.len() - i,
{
    if 0 <= i && i < s.len() && is_num_char(s[i]) {
        ps_num_end(s, i + 1)
    } else {
        i
    }
}

/// Skips one JSON value of any kind, yielding the index after it.
pub open spec fn ps_skip_value(s: Seq<char>, i: int) -> Option<int>
    decreases s.len() - i, 0int,
{
    if !(0 <= i && i < s.len()) {
        Option::None
    } else if s[i] == '"' {
        match ps_string_body(s, i + 1) {
            Option::None => Option::None,
            Option::Some((t, j)) => Option::Some(j),
        }
    } else if s[i] == '{' {
        ps_skip_members(s, i + 1, true)
    } else if s[i] == '[' {
        ps_skip_items(s, i + 1, true)
    } else if s[i] == 't' {
        ps_lit(s, i, seq!['t', 'r', 'u', 'e'])
    } else if s[i] == 'f' {
        ps_lit(s, i, seq!['f', 'a', 'l', 's', 'e'])
    } else if s[i] == 'n' {
        ps_lit(s, i, seq!['n', 'u', 'l', 'l'])
    } else if s[i] == '-' || ('0' <= s[i] && s[i] <= '9') {
        Option::Some(ps_num_end(s, i))
    } else {
        Option::None
    }
}

/// Skips the members of an object, starting just past `{` or `,`.
pub open spec fn ps_skip_members(s: Seq<char>, i: int, first: bool) -> Option<int>
    decreases s.len() - i, 1int,
{
    let j = ps_ws(s, i);
    if !(i <= j && j < s.len()) {
        Option::None
    } else if s[j] == '}' {
        if first {
            Option::Some(j + 1)
        } else {
            Option::None
        }
    } else if s[j] == '"' {
        match ps_string_body(s, j + 1) {
            Option::None => Option::None,
            Option::Some((key, j2)) => {
                let j3 = ps_ws(s, j2);
                if !(j + 1 < j2 && j2 <= j3 && j3 < s.len() && s[j3] == ':') {
                    Option::None
                } else {
                    let j4 = ps_ws(s, j3 + 1);
                    if !(j3 + 1 <= j4 && j4 <= s.len()) {
                        Option::None
                    } else {
                        match ps_skip_value(s, j4) {
                            Option::None => Option::None,
                            Option::Some(j5) => {
                                let j6 = ps_ws(s, j5);
                                if !(j4 < j5 && j5 <= j6 && j6 < s.len()) {
                                    Option::None
                                } else if s[j6] == '}' {
                                    Option::Some(j6 + 1)
                                } else if s[j6] == ',' {
                                    ps_skip_members(s, j6 + 1, false)
                                } else {
                                    Option::None
                                }
                            },
                        }
                    }
                }
            },
        }
    } else {
        Option::None
    }
}

/// Skips the items of an array, starting just past `[` or `,`.
pub open spec fn ps_skip_items(s: Seq<char>, i: int, first: bool) -> Option<int>
    decreases s.len() - i, 1int,
{
    let j = ps_ws(s, i);
    if !(i <= j && j < s.len()) {
        Option::None
    } else if s[j] == ']' {
        if first {
            Option::Some(j + 1)
        } else {
            Option::None
        }
    } else {
        match ps_skip_value(s, j) {
            Option::None => Option::None,
            Option::Some(j5) => {
                let j6 = ps_ws(s, j5);
                if !(j < j5 && j5 <= j6 && j6 < s.len()) {
                    Option::None
                } else if s[j6] == ']' {
                    Option::Some(j6 + 1)
                } else if s[j6] == ',' {
                    ps_skip_items(s, j6 + 1, false)
                } else {
                    Option::None
                }
            },
        }
    }
}

pub open spec fn content_key() -> Seq<char> {
    seq!['c', 'o', 'n', 't', 'e', 'n', 't']
}

pub open spec fn message_key() -> Seq<char> {
    seq!['m', 'e', 's', 's', 'a', 'g', 'e']
}

pub open spec fn choices_key() -> Seq<char> {
    seq!['c', 'h', 'o', 'i', 'c', 'e', 's']
}

/// After one member of a message object: a comma continues the walk, a
/// brace ends it; the content found so far rides along.
pub open spec fn ps_content_after(s: Seq<char>, i: int, found: Option<Seq<char>>) -> Option<
    (Seq<char>, int),
>
    decreases s.len() - i, 0int,
{
    let j = ps_ws(s, i);
    if !(i <= j && j < s.len()) {
        Option::None
    } else if s[j] == '}' {
        match found {
            Option::Some(c) => Option::Some((c, j + 1)),
            Option::None => Option::None,
        }
    } else if s[j] == ',' {
        ps_content_members(s, j + 1, false, found)
    } else {
        Option::None
    }
}

/// Walks the members of a message object, looking for `content`, whose
/// value must be a string; every other member is skipped.
pub open spec fn ps_content_members(
    s: Seq<char>,
    i: int,
    first: bool,
    found: Option<Seq<char>>,
) -> Option<(Seq<char>, int)>
    decreases s.len() - i, 1int,
{
    let j = ps_ws(s, i);
    if !(i <= j && j < s.len()) {
        Option::None
    } else if s[j] == '}' {
        if first {
            match found {
                Option::Some(c) => Option::Some((c, j + 1)),
                Option::None => Option::None,
            }
        } else {
            Option::None
        }
    } else if s[j] == '"' {
        match ps_string_body(s, j + 1) {
            Option::None => Option::None,
            Option::Some((key, j2)) => {
                let j3 = ps_ws(s, j2);
                if !(j + 1 < j2 && j2 <= j3 && j3 < s.len() && s[j3] == ':') {
                    Option::None
                } else {
                    let j4 = ps_ws(s, j3 + 1);
                    if !(j3 + 1 <= j4 && j4 <= s.len()) {
                        Option::None
                    } else if key == content_key() && found is None {
                        if !(j4 < s.len() && s[j4] == '"') {
                            Option::None
                        } else {
                            match ps_string_body(s, j4 + 1) {
                                Option::None => Option::None,
                                Option::Some((text, j5)) => {
                                    if !(j4 + 1 < j5 && j5 <= s.len()) {
                                        Option::None
                                    } else {
                                        ps_content_after(s, j5, Option::Some(text))
                                    }
                                },
                            }
                        }
                    } else {
                        match ps_skip_value(s, j4) {
                            Option::None => Option::None,
                            Option::Some(j5) => {
                                if !(j4 < j5 && j5 <= s.len()) {
                                    Option::None
                                } else {
                                    ps_content_after(s, j5, found)
                                }
                            },
                        }
                    }
                }
            },
        }
    } else {
        Option::None
    }
}

/// The value of a `message` member: an object holding the content.
pub open spec fn ps_content_obj(s: Seq<char>, i: int) -> Option<(Seq<char>, int)>
    decreases s.len() - i, 2int,
{
    if 0 <= i && i < s.len() && s[i] == '{' {
        ps_content_members(s, i + 1, true, Option::None)
    } else {
        Option::None
    }
}

/// After one member of a choice object.
pub open spec fn ps_choice_after(s: Seq<char>, i: int, found: Option<Seq<char>>) -> Option<
    (Seq<char>, int),
>
    decreases s.len() - i, 0int,
{
    let j = ps_ws(s, i);
    if !(i <= j && j < s.len()) {
        Option::None
    } else if s[j] == '}' {
        match found {
            Option::Some(c) => Option::Some((c, j + 1)),
            Option::None => Option::None,
        }
    } else if s[j] == ',' {
        ps_choice_members(s, j + 1, false, found)
    } else {
        Option::None
    }
}

/// Walks the members of a choice object, looking for `message`, whose
/// value must be an object holding the content; other members are
/// skipped.
pub open spec fn ps_choice_members(
    s: Seq<char>,
    i: int,
    first: bool,
    found: Option<Seq<char>>,
) -> Option<(Seq<char>, int)>
    decreases s.len() - i, 1int,
{
    let j = ps_ws(s, i);
    if !(i <= j && j < s.len()) {
        Option::None
    } else if s[j] == '}' {
        if first {
            match found {
                Option::Some(c) => Option::Some((c, j + 1)),
                Option::None => Option::None,
            }
        } else {
            Option::None
        }
    } else if s[j] == '"' {
        match ps_string_body(s, j + 1) {
            Option::None => Option::None,
            Option::Some((key, j2)) => {
                let j3 = ps_ws(s, j2);
                if !(j + 1 < j2 && j2 <= j3 && j3 < s.len() && s[j3] == ':') {
                    Option::None
                } else {
                    let j4 = ps_ws(s, j3 + 1);
                    if !(j3 + 1 <= j4 && j4 <= s.len()) {
                        Option::None
                    } else if key == message_key() && found is None {
                        match ps_content_obj(s, j4) {
                            Option::None => Option::None,
                            Option::Some((text, j5)) => {
                                if !(j4 < j5 && j5 <= s.len()) {
                                    Option::None
                                } else {
                                    ps_choice_after(s, j5, Option::Some(text))
                                }
                            },
                        }
                    } else {
                        match ps_skip_value(s, j4) {
                            Option::None => Option::None,
                            Option::Some(j5) => {
                                if !(j4 < j5 && j5 <= s.len()) {
                                    Option::None
                                } else {
                                    ps_choice_after(s, j5, found)
                                }
                            },
                        }
                    }
                }
            },
        }
    } else {
        Option::None
    }
}

/// One element of the choices array.
pub open spec fn ps_choice(s: Seq<char>, i: int) -> Option<(Seq<char>, int)>
    decreases s.len() - i, 2int,
{
    if 0 <= i && i < s.len() && s[i] == '{' {
        ps_choice_members(s, i + 1, true, Option::None)
    } else {
        Option::None
    }
}

/// The items of the choices array, starting just past `[` or `,`.
pub open spec fn ps_choice_items(s: Seq<char>, i: int, first: bool) -> Option<
    (Seq<Seq<char>>, int),
>
    decreases s.len() - i, 3int,
{
    let j = ps_ws(s, i);
    if !(i <= j && j < s.len()) {
        Option::None
    } else if s[j] == ']' {
        if first {
            Option::Some((Seq::empty(), j + 1))
        } else {
            Option::None
        }
    } else {
        match ps_choice(s, j) {
            Option::None => Option::None,
            Option::Some((c, j5)) => {
                let j6 = ps_ws(s, j5);
                if !(j < j5 && j5 <= j6 && j6 < s.len()) {
                    Option::None
                } else if s[j6] == ']' {
                    Option::Some((seq![c], j6 + 1))
                } else if s[j6] == ',' {
                    match ps_choice_items(s, j6 + 1, false) {
                        Option::None => Option::None,
                        Option::Some((cs, k)) => Option::Some((seq![c] + cs, k)),
                    }
                } else {
                    Option::None
                }
            },
        }
    }
}

/// The value of the `choices` member: an array of choice objects.
pub open spec fn ps_choices_arr(s: Seq<char>, i: int) -> Option<(Seq<Seq<char>>, int)>
    decreases s.len() - i, 4int,
{
    if 0 <= i && i < s.len() && s[i] == '[' {
        ps_choice_items(s, i + 1, true)
    } else {
        Option::None
    }
}

/// After one member of the top-level object.
pub open spec fn ps_top_after(s: Seq<char>, i: int, found: Option<Seq<Seq<char>>>) -> Option<
    (Seq<Seq<char>>, int),
>
    decreases s.len() - i, 5int,
{
    let j = ps_ws(s, i);
    if !(i <= j && j < s.len()) {
        Option::None
    } else if s[j] == '}' {
        match found {
            Option::Some(cs) => Option::Some((cs, j + 1)),
            Option::None => Option::None,
        }
    } else if s[j] == ',' {
        ps_top_members(s, j + 1, false, found)
    } else {
        Option::None
    }
}

/// Walks the members of the top-level object, looking for `choices`;
/// a response without it does not match the schema.
pub open spec fn ps_top_members(
    s: Seq<char>,
    i: int,
    first: bool,
    found: Option<Seq<Seq<char>>>,
) -> Option<(Seq<Seq<char>>, int)>
    decreases s.len() - i, 6int,
{
    let j = ps_ws(s, i);
    if !(i <= j && j < s.len()) {
        Option::None
    } else if s[j] == '}' {
        if first {
            match found {
                Option::Some(cs) => Option::Some((cs, j + 1)),
                Option::None => Option::None,
            }
        } else {
            Option::None
        }
    } else if s[j] == '"' {
        match ps_string_body(s, j + 1) {
            Option::None => Option::None,
            Option::Some((key, j2)) => {
                let j3 = ps_ws(s, j2);
                if !(j + 1 < j2 && j2 <= j3 && j3 < s.len() && s[j3] == ':') {
                    Option::None
                } else {
                    let j4 = ps_ws(s, j3 + 1);
                    if !(j3 + 1 <= j4 && j4 <= s.len()) {
                        Option::None
                    } else if key == choices_key() && found is None {
                        match ps_choices_arr(s, j4) {
                            Option::None => Option::None,
                            Option::Some((cs, j5)) => {
                                if !(j4 < j5 && j5 <= s.len()) {
                                    Option::None
                                } else {
                                    ps_top_after(s, j5, Option::Some(cs))
                                }
                            },
                        }
                    } else {
                        match ps_skip_value(s, j4) {
                            Option::None => Option::None,
                            Option::Some(j5) => {
                                if !(j4 < j5 && j5 <= s.len()) {
                                    Option::None
                                } else {
                                    ps_top_after(s, j5, found)
                                }
                            },
                        }
                    }
                }
            },
        }
    } else {
        Option::None
    }
}

/// Reads a whole response body: the list of choice contents, in order,
/// or nothing if the body does not match the expected schema.
pub open spec fn ps_response(s: Seq<char>) -> Option<Seq<Seq<char>>> {
    let j = ps_ws(s, 0);
    if !(0 <= j && j < s.len() && s[j] == '{') {
        Option::None
    } else {
        match ps_top_members(s, j + 1, true, Option::None) {
            Option::None => Option::None,
            Option::Some((cs, k)) => {
                if ps_ws(s, k) == s.len() {
                    Option::Some(cs)
                } else {
                    Option::None
                }
            },
        }
    }
}

/// The text a held `Option<String>` stands for.
pub open spec fn opt_text(o: Option<String>) -> Option<Seq<char>> {
    match o {
        Option::Some(s) => Option::Some(s@),
        Option::None => Option::None,
    }
}

/// The contents a held `Option<Vec<String>>` stands for.
pub open spec fn opt_list(o: Option<Vec<String>>) -> Option<Seq<Seq<char>>> {
    match o {
        Option::Some(v) => Option::Some(v@.map(|k: int, s: String| s@)),
        Option::None => Option::None,
    }
}

/// Whether two character vectors hold the same characters.
fn chars_eq(a: &Vec<char>, b: &Vec<char>) -> (r: bool)
    ensures
        r == (a@ == b@),
{
    if a.len() != b.len() {
        proof {
            assert(a@ != b@);
        }
        return false;
    }
    let mut k: usize = 0;
    while k < a.len()
        invariant
            k <= a@.len(),
            a@.len() == b@.len(),
            forall|m: int| 0 <= m < k ==> a@[m] == b@[m],
        decreases a@.len() - k,
    {
        if a[k] != b[k] {
            proof {
                assert(a@ != b@);
            }
            return false;
        }
        k = k + 1;
    }
    proof {
        assert(a@ =~= b@);
    }
    true
}

/// Skips number characters; mirrors `ps_num_end`.
fn p_num_end(v: &Vec<char>, i: usize) -> (j: usize)
    requires
        i <= v@.len(),
    ensures
        j == ps_num_end(v@, i as int),
        i <= j <= v@.len(),
    decreases v@.len() - i,
{
    if i < v.len() {
        let c = v[i];
        if ('0' <= c && c <= '9') || c == '-' || c == '+' || c == '.' || c == 'e' || c == 'E' {
            return p_num_end(v, i + 1);
        }
    }
    i
}

/// Skips one JSON value; mirrors `ps_skip_value`.
fn p_skip_value(v: &Vec<char>, i: usize) -> (r: Option<usize>)
    requires
        i <= v@.len(),
    ensures
        match r {
            Option::Some(j) => ps_skip_value(v@, i as int) == Option::Some(j as int),
            Option::None => ps_skip_value(v@, i as int) is None,
        },
    decreases v@.len() - i, 0int,
{
    if i >= v.len() {
        return Option::None;
    }
    let c = v[i];
    if c == '"' {
        match p_string_body(v, i + 1) {
            Option::Some(p) => Option::Some(p.1),
            Option::None => Option::None,
        }
    } else if c == '{' {
        p_skip_members(v, i + 1, true)
    } else if c == '[' {
        p_skip_items(v, i + 1, true)
    } else if c == 't' {
        let lit = str_to_chars("true");
        proof {
            reveal_strlit("true");
            assert(("true")@ =~= seq!['t', 'r', 'u', 'e']);
        }
        p_lit(v, i, &lit)
    } else if c == 'f' {
        let lit = str_to_chars("false");
        proof {
            reveal_strlit("false");
            assert(("false")@ =~= seq!['f', 'a', 'l', 's', 'e']);
        }
        p_lit(v, i, &lit)
    } else if c == 'n' {
        let lit = str_to_chars("null");
        proof {
            reveal_strlit("null");
            assert(("null")@ =~= seq!['n', 'u', 'l', 'l']);
        }
        p_lit(v, i, &lit)
    } else if c == '-' || ('0' <= c && c <= '9') {
        Option::Some(p_num_end(v, i))
    } else {
        Option::None
    }
}

/// Skips object members; mirrors `ps_skip_members`.
fn p_skip_members(v: &Vec<char>, i: usize, first: bool) -> (r: Option<usize>)
    requires
        i <= v@.len(),
    ensures
        match r {
            Option::Some(j) => ps_skip_members(v@, i as int, first) == Option::Some(j as int),
            Option::None => ps_skip_members(v@, i as int, first) is None,
        },
    decreases v@.len() - i, 1int,
{
    let j = p_ws(v, i);
    if j >= v.len() {
        return Option::None;
    }
    let cj = v[j];
    if cj == '}' {
        if first {
            return Option::Some(j + 1);
        }
        return Option::None;
    }
    if cj == '"' {
        let (_key, j2) = match p_string_body(v, j + 1) {
            Option::Some(p) => p,
            Option::None => {
                return Option::None;
            },
        };
        let j3 = p_ws(v, j2);
        if !(j3 < v.len() && v[j3] == ':') {
            return Option::None;
        }
        let j4 = p_ws(v, j3 + 1);
        let j5 = match p_skip_value(v, j4) {
            Option::Some(j5) => j5,
            Option::None => {
                return Option::None;
            },
        };
        let j6 = p_ws(v, if j5 <= v.len() {
            j5
        } else {
            v.len()
        });
        if !(j4 < j5 && j5 <= v.len() && j6 < v.len()) {
            return Option::None;
        }
        let c6 = v[j6];
        if c6 == '}' {
            return Option::Some(j6 + 1);
        }
        if c6 == ',' {
            return p_skip_members(v, j6 + 1, false);
        }
        return Option::None;
    }
    Option::None
}

/// Skips array items; mirrors `ps_skip_items`.
fn p_skip_items(v: &Vec<char>, i: usize, first: bool) -> (r: Option<usize>)
    requires
        i <= v@.len(),
    ensures
        match r {
            Option::Some(j) => ps_skip_items(v@, i as int, first) == Option::Some(j as int),
            Option::None => ps_skip_items(v@, i as int, first) is None,
        },
    decreases v@.len() - i, 1int,
{
    let j = p_ws(v, i);
    if j >= v.len() {
        return Option::None;
    }
    let cj = v[j];
    if cj == ']' {
        if first {
            return Option::Some(j + 1);
        }
        return Option::None;
    }
    let j5 = match p_skip_value(v, j) {
        Option::Some(j5) => j5,
        Option::None => {
            return Option::None;
        },
    };
    let j6 = p_ws(v, if j5 <= v.len() {
        j5
    } else {
        v.len()
    });
    if !(j < j5 && j5 <= v.len() && j6 < v.len()) {
        return Option::None;
    }
    let c6 = v[j6];
    if c6 == ']' {
        return Option::Some(j6 + 1);
    }
    if c6 == ',' {
        return p_skip_items(v, j6 + 1, false);
    }
    Option::None
}

/// Walks a message object's members; mirrors `ps_content_after`.
fn p_content_after(v: &Vec<char>, i: usize, found: Option<String>) -> (r: Option<(String, usize)>)
    requires
        i <= v@.len(),
    ensures
        match r {
            Option::Some(p) => ps_content_after(v@, i as int, opt_text(found)) == Option::Some(
                (p.0@, p.1 as int),
            ),
            Option::None => ps_content_after(v@, i as int, opt_text(found)) is None,
        },
    decreases v@.len() - i, 0int,
{
    let j = p_ws(v, i);
    if j >= v.len() {
        return Option::None;
    }
    let cj = v[j];
    if cj == '}' {
        match found {
            Option::Some(c) => Option::Some((c, j + 1)),
            Option::None => Option::None,
        }
    } else if cj == ',' {
        p_content_members(v, j + 1, false, found)
    } else {
        Option::None
    }
}

/// Mirrors `ps_content_members`.
fn p_content_members(v: &Vec<char>, i: usize, first: bool, found: Option<String>) -> (r: Option<
    (String, usize),
>)
    requires
        i <= v@.len(),
    ensures
        match r {
            Option::Some(p) => ps_content_members(v@, i as int, first, opt_text(found))
                == Option::Some((p.0@, p.1 as int)),
            Option::None => ps_content_members(v@, i as int, first, opt_text(found)) is None,
        },
    decreases v@.len() - i, 1int,
{
    let j = p_ws(v, i);
    if j >= v.len() {
        return Option::None;
    }
    let cj = v[j];
    if cj == '}' {
        if first {
            match found {
                Option::Some(c) => {
                    return Option::Some((c, j + 1));
                },
                Option::None => {
                    return Option::None;
                },
            }
        }
        return Option::None;
    }
    if cj == '"' {
        let (key, j2) = match p_string_body(v, j + 1) {
            Option::Some(p) => p,
            Option::None => {
                return Option::None;
            },
        };
        let j3 = p_ws(v, j2);
        if !(j3 < v.len() && v[j3] == ':') {
            return Option::None;
        }
        let j4 = p_ws(v, j3 + 1);
        let target = str_to_chars("content");
        proof {
            reveal_strlit("content");
            assert(("content")@ =~= content_key());
        }
        if chars_eq(&key, &target) && found.is_none() {
            if j4 >= v.len() {
                return Option::None;
            }
            let c4 = v[j4];
            if c4 != '"' {
                return Option::None;
            }
            let (text, j5) = match p_string_body(v, j4 + 1) {
                Option::Some(p) => p,
                Option::None => {
                    return Option::None;
                },
            };
            let text_s = chars_to_string(&text);
            p_content_after(v, j5, Option::Some(text_s))
        } else {
            let j5 = match p_skip_value(v, j4) {
                Option::Some(x) => x,
                Option::None => {
                    return Option::None;
                },
            };
            if !(j4 < j5 && j5 <= v.len()) {
                return Option::None;
            }
            p_content_after(v, j5, found)
        }
    } else {
        Option::None
    }
}

/// Mirrors `ps_content_obj`.
fn p_content_obj(v: &Vec<char>, i: usize) -> (r: Option<(String, usize)>)
    requires
        i <= v@.len(),
    ensures
        match r {
            Option::Some(p) => ps_content_obj(v@, i as int) == Option::Some((p.0@, p.1 as int)),
            Option::None => ps_content_obj(v@, i as int) is None,
        },
    decreases v@.len() - i, 2int,
{
    if i < v.len() {
        let c = v[i];
        if c == '{' {
            return p_content_members(v, i + 1, true, Option::None);
        }
    }
    Option::None
}

/// Walks a choice object's members; mirrors `ps_choice_after`.
fn p_choice_after(v: &Vec<char>, i: usize, found: Option<String>) -> (r: Option<(String, usize)>)
    requires
        i <= v@.len(),
    ensures
        match r {
            Option::Some(p) => ps_choice_after(v@, i as int, opt_text(found)) == Option::Some(
                (p.0@, p.1 as int),
            ),
            Option::None => ps_choice_after(v@, i as int, opt_text(found)) is None,
        },
    decreases v@.len() - i, 0int,
{
    let j = p_ws(v, i);
    if j >= v.len() {
        return Option::None;
    }
    let cj = v[j];
    if cj == '}' {
        match found {
            Option::Some(c) => Option::Some((c, j + 1)),
            Option::None => Option::None,
        }
    } else if cj == ',' {
        p_choice_members(v, j + 1, false, found)
    } else {
        Option::None
    }
}

/// Mirrors `ps_choice_members`.
fn p_choice_members(v: &Vec<char>, i: usize, first: bool, found: Option<String>) -> (r: Option<
    (String, usize),
>)
    requires
        i <= v@.len(),
    ensures
        match r {
            Option::Some(p) => ps_choice_members(v@, i as int, first, opt_text(found))
                == Option::Some((p.0@, p.1 as int)),
            Option::None => ps_choice_members(v@, i as int, first, opt_text(found)) is None,
        },
    decreases v@.len() - i, 1int,
{
    let j = p_ws(v, i);
    if j >= v.len() {
        return Option::None;
    }
    let cj = v[j];
    if cj == '}' {
        if first {
            match found {
                Option::Some(c) => {
                    return Option::Some((c, j + 1));
                },
                Option::None => {
                    return Option::None;
                },
            }
        }
        return Option::None;
    }
    if cj == '"' {
        let (key, j2) = match p_string_body(v, j + 1) {
            Option::Some(p) => p,
            Option::None => {
                return Option::None;
            },
        };
        let j3 = p_ws(v, j2);
        if !(j3 < v.len() && v[j3] == ':') {
            return Option::None;
        }
        let j4 = p_ws(v, j3 + 1);
        let target = str_to_chars("message");
        proof {
            reveal_strlit("message");
            assert(("message")@ =~= message_key());
        }
        if chars_eq(&key, &target) && found.is_none() {
            let (text, j5) = match p_content_obj(v, j4) {
                Option::Some(p) => p,
                Option::None => {
                    return Option::None;
                },
            };
            if !(j4 < j5 && j5 <= v.len()) {
                return Option::None;
            }
            p_choice_after(v, j5, Option::Some(text))
        } else {
            let j5 = match p_skip_value(v, j4) {
                Option::Some(x) => x,
                Option::None => {
                    return Option::None;
                },
            };
            if !(j4 < j5 && j5 <= v.len()) {
                return Option::None;
            }
            p_choice_after(v, j5, found)
        }
    } else {
        Option::None
    }
}

/// Mirrors `ps_choice`.
fn p_choice(v: &Vec<char>, i: usize) -> (r: Option<(String, usize)>)
    requires
        i <= v@.len(),
    ensures
        match r {
            Option::Some(p) => ps_choice(v@, i as int) == Option::Some((p.0@, p.1 as int)),
            Option::None => ps_choice(v@, i as int) is None,
        },
    decreases v@.len() - i, 2int,
{
    if i < v.len() {
        let c = v[i];
        if c == '{' {
            return p_choice_members(v, i + 1, true, Option::None);
        }
    }
    Option::None
}

/// Mirrors `ps_choice_items`.
fn p_choice_items(v: &Vec<char>, i: usize, first: bool) -> (r: Option<(Vec<String>, usize)>)
    requires
        i <= v@.len(),
    ensures
        match r {
            Option::Some(p) => ps_choice_items(v@, i as int, first) == Option::Some(
                (p.0@.map(|k: int, s: String| s@), p.1 as int),
            ),
            Option::None => ps_choice_items(v@, i as int, first) is None,
        },
    decreases v@.len() - i, 3int,
{
    let j = p_ws(v, i);
    if j >= v.len() {
        return Option::None;
    }
    let cj = v[j];
    if cj == ']' {
        if first {
            let empty: Vec<String> = Vec::new();
            proof {
                assert(empty@.map(|k: int, s: String| s@) =~= Seq::<Seq<char>>::empty());
            }
            return Option::Some((empty, j + 1));
        }
        return Option::None;
    }
    let (c, j5) = match p_choice(v, j) {
        Option::Some(p) => p,
        Option::None => {
            return Option::None;
        },
    };
    let ghost cv = c@;
    let j6 = p_ws(v, if j5 <= v.len() {
        j5
    } else {
        v.len()
    });
    if !(j < j5 && j5 <= v.len() && j6 < v.len()) {
        return Option::None;
    }
    let c6 = v[j6];
    if c6 == ']' {
        let mut one: Vec<String> = Vec::new();
        one.push(c);
        proof {
            assert(one@.map(|k: int, s: String| s@) =~= seq![cv]);
        }
        return Option::Some((one, j6 + 1));
    }
    if c6 == ',' {
        match p_choice_items(v, j6 + 1, false) {
            Option::Some(q) => {
                let mut list = q.0;
                let ghost rest = q.0@.map(|k: int, s: String| s@);
                list.insert(0, c);
                proof {
                    assert(list@.map(|k: int, s: String| s@) =~= seq![cv] + rest);
                }
                return Option::Some((list, q.1));
            },
            Option::None => {
                return Option::None;
            },
        }
    }
    Option::None
}

/// Mirrors `ps_choices_arr`.
fn p_choices_arr(v: &Vec<char>, i: usize) -> (r: Option<(Vec<String>, usize)>)
    requires
        i <= v@.len(),
    ensures
        match r {
            Option::Some(p) => ps_choices_arr(v@, i as int) == Option::Some(
                (p.0@.map(|k: int, s: String| s@), p.1 as int),
            ),
            Option::None => ps_choices_arr(v@, i as int) is None,
        },
    decreases v@.len() - i, 4int,
{
    if i < v.len() {
        let c = v[i];
        if c == '[' {
            return p_choice_items(v, i + 1, true);
        }
    }
    Option::None
}

/// Walks the top object's members; mirrors `ps_top_after`.
fn p_top_after(v: &Vec<char>, i: usize, found: Option<Vec<String>>) -> (r: Option<
    (Vec<String>, usize),
>)
    requires
        i <= v@.len(),
    ensures
        match r {
            Option::Some(p) => ps_top_after(v@, i as int, opt_list(found)) == Option::Some(
                (p.0@.map(|k: int, s: String| s@), p.1 as int),
            ),
            Option::None => ps_top_after(v@, i as int, opt_list(found)) is None,
        },
    decreases v@.len() - i, 5int,
{
    let j = p_ws(v, i);
    if j >= v.len() {
        return Option::None;
    }
    let cj = v[j];
    if cj == '}' {
        match found {
            Option::Some(cs) => Option::Some((cs, j + 1)),
            Option::None => Option::None,
        }
    } else if cj == ',' {
        p_top_members(v, j + 1, false, found)
    } else {
        Option::None
    }
}

/// Mirrors `ps_top_members`.
fn p_top_members(v: &Vec<char>, i: usize, first: bool, found: Option<Vec<String>>) -> (r: Option<
    (Vec<String>, usize),
>)
    requires
        i <= v@.len(),
    ensures
        match r {
            Option::Some(p) => ps_top_members(v@, i as int, first, opt_list(found))
                == Option::Some((p.0@.map(|k: int, s: String| s@), p.1 as int)),
            Option::None => ps_top_members(v@, i as int, first, opt_list(found)) is None,
        },
    decreases v@.len() - i, 6int,
{
    let j = p_ws(v, i);
    if j >= v.len() {
        return Option::None;
    }
    let cj = v[j];
    if cj == '}' {
        if first {
            match found {
                Option::Some(cs) => {
                    return Option::Some((cs, j + 1));
                },
                Option::None => {
                    return Option::None;
                },
            }
        }
        return Option::None;
    }
    if cj == '"' {
        let (key, j2) = match p_string_body(v, j + 1) {
            Option::Some(p) => p,
            Option::None => {
                return Option::None;
            },
        };
        let j3 = p_ws(v, j2);
        if !(j3 < v.len() && v[j3] == ':') {
            return Option::None;
        }
        let j4 = p_ws(v, j3 + 1);
        let target = str_to_chars("choices");
        proof {
            reveal_strlit("choices");
            assert(("choices")@ =~= choices_key());
        }
        if chars_eq(&key, &target) && found.is_none() {
            let (cs, j5) = match p_choices_arr(v, j4) {
                Option::Some(p) => p,
                Option::None => {
                    return Option::None;
                },
            };
            if !(j4 < j5 && j5 <= v.len()) {
                return Option::None;
            }
            p_top_after(v, j5, Option::Some(cs))
        } else {
            let j5 = match p_skip_value(v, j4) {
                Option::Some(x) => x,
                Option::None => {
                    return Option::None;
                },
            };
            if !(j4 < j5 && j5 <= v.len()) {
                return Option::None;
            }
            p_top_after(v, j5, found)
        }
    } else {
        Option::None
    }
}

/// Reads a response body into the list of choice contents, or nothing
/// if the body does not match the expected schema.
pub fn read_response(s: &str) -> (r: Option<Vec<String>>)
    ensures
        match r {
            Option::Some(list) => ps_response(s@) == Option::Some(
                list@.map(|k: int, t: String| t@),
            ),
            Option::None => ps_response(s@) is None,
        },
{
    let v = str_to_chars(s);
    let j = p_ws(&v, 0);
    if j >= v.len() {
        return Option::None;
    }
    let cj = v[j];
    if cj != '{' {
        return Option::None;
    }
    match p_top_members(&v, j + 1, true, Option::None) {
        Option::Some(p) => {
            if p.1 <= v.len() {
                let e = p_ws(&v, p.1);
                if e == v.len() {
                    return Option::Some(p.0);
                }
                return Option::None;
            }
            proof {
                assert(ps_ws(v@, p.1 as int) == p.1 as int);
            }
            Option::None
        },
        Option::None => Option::None,
    }
}

/// Classifies one completed exchange, exactly as the session sees it: a
/// non-success status surfaces the status and the body; a success whose
/// body does not match the schema is malformed; an empty choices list is
/// the soft no-reply notice; otherwise the first choice's content,
/// trimmed of leading and trailing whitespace, is the reply.
pub fn interpret_response(status: u16, body: &str) -> (r: Result<ReplyOutcome, CliError>)
    ensures
        match r {
            Result::Err(CliError::RemoteError(st, b)) => !(200 <= status && status < 300) && st
                == status && b@ == body@,
            Result::Err(CliError::MalformedResponse) => 200 <= status < 300 && ps_response(
                body@,
            ) is None,
            Result::Ok(ReplyOutcome::EmptyReply) => 200 <= status < 300 && ps_response(body@)
                == Option::Some(Seq::<Seq<char>>::empty()),
            Result::Ok(ReplyOutcome::Text(t)) => 200 <= status < 300 && ps_response(body@) is Some
                && ps_response(body@)->Some_0.len() > 0 && t@ == trim_spec(
                ps_response(body@)->Some_0[0],
            ),
            _ => false,
        },
{
    if status < 200 || status >= 300 {
        return Result::Err(CliError::RemoteError(status, body.to_owned()));
    }
    match read_response(body) {
        Option::None => Result::Err(CliError::MalformedResponse),
        Option::Some(list) => {
            if list.len() == 0 {
                proof {
                    assert(list@.map(|k: int, t: String| t@) =~= Seq::<Seq<char>>::empty());
                }
                Result::Ok(ReplyOutcome::EmptyReply)
            } else {
                let trimmed = trim_ws(list[0].as_str());
                Result::Ok(ReplyOutcome::Text(trimmed))
            }
        },
    }
}

} // verus!
