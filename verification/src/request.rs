//! Rendering a transcript into the outbound JSON request body, and
//! reading the `role`/`content` pairs back out of that body.
//!
//! The renderer emits one canonical form: fixed key order (`model`,
//! `messages`, `max_tokens`, `temperature`) and no whitespace. The reader
//! accepts exactly that canonical messages array, and reading back what
//! was rendered yields the original sequence of messages unchanged.

use vstd::prelude::*;
use crate::codec::{
    escape_seq, ps_lit, ps_string_body, p_lit, p_string_body, push_escaped, lemma_parse_escaped,
};
use crate::msg::{Message, MsgView, Role, Transcript};
use crate::text::{chars_to_string, dec_chars, push_decimal, str_to_chars, digit_char};

verus! {

/// The per-call request configuration. The temperature is carried in
/// tenths, so the conventional range zero to two is zero to twenty; it
/// is rendered as a decimal such as `0.7`.
#[derive(Clone, Debug)]
pub struct RequestParams {
    pub model: String,
    pub max_tokens: u32,
    pub temperature_tenths: u32,
}

/// The name a role carries on the wire.
pub open spec fn role_chars(r: Role) -> Seq<char> {
    match r {
        Role::User => seq!['u', 's', 'e', 'r'],
        Role::Assistant => seq!['a', 's', 's', 'i', 's', 't', 'a', 'n', 't'],
    }
}

pub open spec fn lit_msg_open() -> Seq<char> {
    seq!['{', '"', 'r', 'o', 'l', 'e', '"', ':', '"']
}

pub open spec fn lit_msg_mid() -> Seq<char> {
    seq!['"', ',', '"', 'c', 'o', 'n', 't', 'e', 'n', 't', '"', ':', '"']
}

/// One message object: `{"role":"<role>","content":"<escaped text>"}`.
pub open spec fn spec_render_message(m: MsgView) -> Seq<char> {
    lit_msg_open() + role_chars(m.role) + lit_msg_mid() + escape_seq(m.content) + seq!['"', '}']
}

/// The message objects after the first, each preceded by a comma.
pub open spec fn spec_render_rest(ms: Seq<MsgView>) -> Seq<char>
    decreases ms.len(),
{
    if ms.len() == 0 {
        Seq::empty()
    } else {
        seq![','] + spec_render_message(ms[0]) + spec_render_rest(ms.drop_first())
    }
}

/// The whole messages array, in transcript order.
pub open spec fn spec_render_messages(ms: Seq<MsgView>) -> Seq<char> {
    if ms.len() == 0 {
        seq!['[', ']']
    } else {
        seq!['['] + spec_render_message(ms[0]) + spec_render_rest(ms.drop_first()) + seq![']']
    }
}

/// The temperature in tenths as a decimal: `7` renders as `0.7`.
pub open spec fn temp_chars(tenths: int) -> Seq<char> {
    dec_chars(tenths / 10) + seq!['.', digit_char(tenths % 10)]
}

pub open spec fn lit_req_open() -> Seq<char> {
    seq!['{', '"', 'm', 'o', 'd', 'e', 'l', '"', ':', '"']
}

pub open spec fn lit_req_msgs() -> Seq<char> {
    seq!['"', ',', '"', 'm', 'e', 's', 's', 'a', 'g', 'e', 's', '"', ':']
}

pub open spec fn lit_req_maxtok() -> Seq<char> {
    seq![',', '"', 'm', 'a', 'x', '_', 't', 'o', 'k', 'e', 'n', 's', '"', ':']
}

pub open spec fn lit_req_temp() -> Seq<char> {
    seq![',', '"', 't', 'e', 'm', 'p', 'e', 'r', 'a', 't', 'u', 'r', 'e', '"', ':']
}

/// The complete outbound request body.
pub open spec fn spec_render_request(
    model: Seq<char>,
    max_tokens: int,
    temperature_tenths: int,
    ms: Seq<MsgView>,
) -> Seq<char> {
    lit_req_open() + escape_seq(model) + lit_req_msgs() + spec_render_messages(ms)
        + lit_req_maxtok() + dec_chars(max_tokens) + lit_req_temp() + temp_chars(temperature_tenths)
        + seq!['}']
}

/// Reads a role name.
pub open spec fn ps_role(s: Seq<char>, i: int) -> Option<(Role, int)> {
    if ps_lit(s, i, role_chars(Role::User)) is Some {
        Option::Some((Role::User, ps_lit(s, i, role_chars(Role::User))->Some_0))
    } else if ps_lit(s, i, role_chars(Role::Assistant)) is Some {
        Option::Some((Role::Assistant, ps_lit(s, i, role_chars(Role::Assistant))->Some_0))
    } else {
        Option::None
    }
}

/// Reads one canonical message object.
pub open spec fn ps_message(s: Seq<char>, i: int) -> Option<(MsgView, int)> {
    match ps_lit(s, i, lit_msg_open()) {
        Option::None => Option::None,
        Option::Some(j1) => match ps_role(s, j1) {
            Option::None => Option::None,
            Option::Some((r, j2)) => match ps_lit(s, j2, lit_msg_mid()) {
                Option::None => Option::None,
                Option::Some(j3) => match ps_string_body(s, j3) {
                    Option::None => Option::None,
                    Option::Some((content, j4)) => {
                        if 0 <= j4 < s.len() && s[j4] == '}' {
                            Option::Some((MsgView { role: r, content }, j4 + 1))
                        } else {
                            Option::None
                        }
                    },
                },
            },
        },
    }
}

/// Reads the message objects after the first, up to and including the
/// closing bracket.
pub open spec fn ps_messages_rest(s: Seq<char>, i: int) -> Option<(Seq<MsgView>, int)>
    decreases s.len() - i,
{
    if i < 0 || i >= s.len() {
        Option::None
    } else if s[i] == ']' {
        Option::Some((Seq::empty(), i + 1))
    } else if s[i] == ',' {
        match ps_message(s, i + 1) {
            Option::None => Option::None,
            Option::Some((m, j)) => if i + 1 < j && j <= s.len() {
                match ps_messages_rest(s, j) {
                    Option::None => Option::None,
                    Option::Some((ms, k)) => Option::Some((seq![m] + ms, k)),
                }
            } else {
                Option::None
            },
        }
    } else {
        Option::None
    }
}

/// Reads a whole canonical messages array; the input must be exactly the
/// array, nothing before or after.
pub open spec fn ps_messages(s: Seq<char>) -> Option<Seq<MsgView>> {
    if s.len() >= 2 && s[0] == '[' && s[1] == ']' {
        if s.len() == 2 {
            Option::Some(Seq::empty())
        } else {
            Option::None
        }
    } else if s.len() >= 1 && s[0] == '[' {
        match ps_message(s, 1) {
            Option::None => Option::None,
            Option::Some((m, j)) => if 1 < j && j <= s.len() {
                match ps_messages_rest(s, j) {
                    Option::None => Option::None,
                    Option::Some((ms, k)) => if k == s.len() {
                        Option::Some(seq![m] + ms)
                    } else {
                        Option::None
                    },
                }
            } else {
                Option::None
            },
        }
    } else {
        Option::None
    }
}

/// A chunk of a known stretch of `s`, read off against the whole.
proof fn lemma_chunk_at(s: Seq<char>, i: int, whole: Seq<char>, a: int, b: int)
    requires
        0 <= i,
        i + whole.len() <= s.len(),
        s.subrange(i, i + whole.len()) == whole,
        0 <= a <= b <= whole.len(),
    ensures
        s.subrange(i + a, i + b) == whole.subrange(a, b),
{
    assert forall|k: int| 0 <= k < b - a implies s.subrange(i + a, i + b)[k] == whole.subrange(
        a,
        b,
    )[k] by {
        assert(s.subrange(i + a, i + b)[k] == s[i + a + k]);
        assert(s.subrange(i, i + whole.len())[a + k] == s[i + a + k]);
        assert(whole.subrange(a, b)[k] == whole[a + k]);
    }
    assert(s.subrange(i + a, i + b) =~= whole.subrange(a, b));
}

/// Re-reading one rendered message yields that message.
proof fn lemma_parse_message(m: MsgView, s: Seq<char>, i: int)
    requires
        0 <= i,
        i + spec_render_message(m).len() <= s.len(),
        s.subrange(i, i + spec_render_message(m).len()) == spec_render_message(m),
    ensures
        ps_message(s, i) == Option::Some((m, i + spec_render_message(m).len())),
{
    let whole = spec_render_message(m);
    let wl = whole.len() as int;
    let rc = role_chars(m.role);
    let rl = rc.len() as int;
    let ec = escape_seq(m.content);
    let el = ec.len() as int;
    assert(wl == 9 + rl + 13 + el + 2);
    // The opening literal.
    lemma_chunk_at(s, i, whole, 0, 9);
    assert(whole.subrange(0, 9) =~= lit_msg_open());
    assert(ps_lit(s, i, lit_msg_open()) == Option::Some(i + 9));
    // The role name; the two names differ in their first character.
    lemma_chunk_at(s, i, whole, 9, 9 + rl);
    assert(whole.subrange(9, 9 + rl) =~= rc);
    assert(s.subrange(i + 9, i + 9 + rl) == rc);
    assert(ps_lit(s, i + 9, rc) == Option::Some(i + 9 + rl));
    match m.role {
        Role::User => {
            assert(ps_role(s, i + 9) == Option::Some((Role::User, i + 9 + rl)));
        },
        Role::Assistant => {
            lemma_chunk_at(s, i + 9, rc, 0, 4);
            assert(s.subrange(i + 9, i + 13) == rc.subrange(0, 4));
            assert(rc.subrange(0, 4)[0] == 'a');
            assert(role_chars(Role::User)[0] == 'u');
            assert(s.subrange(i + 9, i + 13) != role_chars(Role::User));
            assert(ps_lit(s, i + 9, role_chars(Role::User)) is None);
            assert(ps_role(s, i + 9) == Option::Some((Role::Assistant, i + 9 + rl)));
        },
    }
    // The middle literal.
    lemma_chunk_at(s, i, whole, 9 + rl, 9 + rl + 13);
    assert(whole.subrange(9 + rl, 9 + rl + 13) =~= lit_msg_mid());
    assert(ps_lit(s, i + 9 + rl, lit_msg_mid()) == Option::Some(i + 9 + rl + 13));
    // The escaped content and its closing quote.
    let a3 = 9 + rl + 13;
    lemma_chunk_at(s, i, whole, a3, a3 + el + 1);
    assert(whole.subrange(a3, a3 + el + 1) =~= ec + seq!['"']);
    assert(s.subrange(i + a3, i + a3 + el + 1) == ec + seq!['"']);
    lemma_parse_escaped(m.content, s, i + a3);
    assert(ps_string_body(s, i + a3) == Option::Some((m.content, i + a3 + el + 1)));
    // The closing brace.
    assert(s.subrange(i, i + wl)[wl - 1] == s[i + wl - 1]);
    assert(whole[wl - 1] == '}');
    assert(s[i + wl - 1] == '}');
    assert(MsgView { role: m.role, content: m.content } == m);
}

/// Re-reading the rendered tail of a transcript yields those messages.
proof fn lemma_parse_rest(ms: Seq<MsgView>, s: Seq<char>, i: int)
    requires
        0 <= i,
        i + spec_render_rest(ms).len() + 1 <= s.len(),
        s.subrange(i, i + spec_render_rest(ms).len() + 1) == spec_render_rest(ms) + seq![']'],
    ensures
        ps_messages_rest(s, i) == Option::Some((ms, i + spec_render_rest(ms).len() + 1)),
    decreases ms.len(),
{
    let whole = spec_render_rest(ms) + seq![']'];
    let wl = whole.len() as int;
    if ms.len() == 0 {
        assert(whole =~= seq![']']);
        assert(s.subrange(i, i + 1)[0] == s[i]);
        assert(s[i] == ']');
    } else {
        let m = ms[0];
        let rm = spec_render_message(m);
        let rmw = rm.len() as int;
        let tail = spec_render_rest(ms.drop_first());
        assert(spec_render_rest(ms) == seq![','] + rm + tail);
        assert(wl == 1 + rmw + tail.len() + 1);
        assert(s.subrange(i, i + wl)[0] == s[i]);
        assert(whole[0] == ',');
        assert(s[i] == ',');
        assert(s[i] != ']');
        // The first message sits right after the comma.
        lemma_chunk_at(s, i, whole, 1, 1 + rmw);
        assert(whole.subrange(1, 1 + rmw) =~= rm);
        lemma_parse_message(m, s, i + 1);
        assert(ps_message(s, i + 1) == Option::Some((m, i + 1 + rmw)));
        // The remaining messages and the bracket follow.
        lemma_chunk_at(s, i, whole, 1 + rmw, wl);
        assert(whole.subrange(1 + rmw, wl) =~= tail + seq![']']);
        lemma_parse_rest(ms.drop_first(), s, i + 1 + rmw);
        assert(seq![m] + ms.drop_first() =~= ms);
    }
}

/// The non-empty case of the round trip, split off to keep each proof
/// small.
#[verifier::rlimit(100)]
proof fn lemma_messages_round_trip_nonempty(ms: Seq<MsgView>)
    requires
        ms.len() > 0,
    ensures
        ps_messages(spec_render_messages(ms)) == Option::Some(ms),
{
    let s = spec_render_messages(ms);
    assert(s.subrange(0, s.len() as int) =~= s);
    let m = ms[0];
    let rm = spec_render_message(m);
    let rmw = rm.len() as int;
    let tail = spec_render_rest(ms.drop_first());
    assert(s == seq!['['] + rm + tail + seq![']']);
    let sl = s.len() as int;
    assert(sl == 1 + rmw + tail.len() + 1);
    assert(s[0] == '[');
    // The first character of a message object is a brace, so the
    // empty-array branch does not apply.
    lemma_chunk_at(s, 0, s, 1, 1 + rmw);
    assert(s.subrange(1, 1 + rmw) =~= rm);
    assert(s.subrange(1, 1 + rmw)[0] == s[1]);
    assert(rm[0] == '{');
    assert(s[1] == '{');
    lemma_parse_message(m, s, 1);
    assert(ps_message(s, 1) == Option::Some((m, 1 + rmw)));
    lemma_chunk_at(s, 0, s, 1 + rmw, sl);
    assert(s.subrange(1 + rmw, sl) =~= tail + seq![']']);
    lemma_parse_rest(ms.drop_first(), s, 1 + rmw);
    assert(ps_messages_rest(s, 1 + rmw) == Option::Some((ms.drop_first(), sl)));
    assert(seq![m] + ms.drop_first() =~= ms);
}

/// Round trip: re-reading a rendered messages array yields exactly the
/// sequence of messages that was rendered, in order, with no loss and no
/// role change.
pub proof fn lemma_messages_round_trip(ms: Seq<MsgView>)
    ensures
        ps_messages(spec_render_messages(ms)) == Option::Some(ms),
{
    let s = spec_render_messages(ms);
    if ms.len() == 0 {
        assert(s =~= seq!['[', ']']);
        assert(s[0] == '[' && s[1] == ']' && s.len() == 2);
    } else {
        lemma_messages_round_trip_nonempty(ms);
    }
}

/// Appends the characters of a string slice.
fn push_str_chars(out: &mut Vec<char>, s: &str)
    ensures
        final(out)@ == old(out)@ + s@,
{
    let mut v = str_to_chars(s);
    out.append(&mut v);
}

/// Appends one rendered message object.
fn push_message(out: &mut Vec<char>, m: &Message)
    ensures
        final(out)@ == old(out)@ + spec_render_message(m@),
{
    push_str_chars(out, "{\"role\":\"");
    proof {
        reveal_strlit("{\"role\":\"");
        assert(("{\"role\":\"")@ =~= lit_msg_open());
    }
    match m.role {
        Role::User => {
            push_str_chars(out, "user");
            proof {
                reveal_strlit("user");
                assert(("user")@ =~= role_chars(Role::User));
            }
        },
        Role::Assistant => {
            push_str_chars(out, "assistant");
            proof {
                reveal_strlit("assistant");
                assert(("assistant")@ =~= role_chars(Role::Assistant));
            }
        },
    }
    push_str_chars(out, "\",\"content\":\"");
    proof {
        reveal_strlit("\",\"content\":\"");
        assert(("\",\"content\":\"")@ =~= lit_msg_mid());
    }
    let content = str_to_chars(m.content.as_str());
    push_escaped(out, &content);
    push_str_chars(out, "\"}");
    proof {
        reveal_strlit("\"}");
        assert(("\"}")@ =~= seq!['"', '}']);
        assert(final(out)@ =~= old(out)@ + spec_render_message(m@));
    }
}

/// Tacking one more message on at the end of the tail rendering.
proof fn lemma_render_rest_snoc(ms: Seq<MsgView>, m: MsgView)
    ensures
        spec_render_rest(ms.push(m)) == spec_render_rest(ms) + seq![','] + spec_render_message(m),
    decreases ms.len(),
{
    if ms.len() == 0 {
        assert(ms.push(m).drop_first() =~= Seq::<MsgView>::empty());
        assert(ms.push(m)[0] == m);
        assert(spec_render_rest(Seq::<MsgView>::empty()) == Seq::<char>::empty());
        assert(spec_render_rest(ms.push(m)) == seq![','] + spec_render_message(m)
            + Seq::<char>::empty());
        assert(spec_render_rest(ms.push(m)) =~= spec_render_rest(ms) + seq![',']
            + spec_render_message(m));
    } else {
        assert(ms.push(m).drop_first() =~= ms.drop_first().push(m));
        assert(ms.push(m)[0] == ms[0]);
        lemma_render_rest_snoc(ms.drop_first(), m);
        assert(spec_render_rest(ms.push(m)) =~= spec_render_rest(ms) + seq![',']
            + spec_render_message(m));
    }
}

/// Appends the rendered messages array of the whole transcript.
fn push_messages(out: &mut Vec<char>, t: &Transcript)
    ensures
        final(out)@ == old(out)@ + spec_render_messages(t@),
{
    let n = t.len();
    if n == 0 {
        out.push('[');
        out.push(']');
        proof {
            assert(final(out)@ =~= old(out)@ + spec_render_messages(t@));
        }
        return ;
    }
    out.push('[');
    push_message(out, t.get(0));
    let mut k: usize = 1;
    while k < n
        invariant
            1 <= k <= n,
            n == t@.len(),
            out@ == old(out)@ + seq!['['] + spec_render_message(t@[0]) + spec_render_rest(
                t@.subrange(1, k as int),
            ),
        decreases n - k,
    {
        out.push(',');
        push_message(out, t.get(k));
        proof {
            assert(t@.subrange(1, k as int).push(t@[k as int]) =~= t@.subrange(
                1,
                k as int + 1,
            ));
            lemma_render_rest_snoc(t@.subrange(1, k as int), t@[k as int]);
            assert(out@ =~= old(out)@ + seq!['['] + spec_render_message(t@[0])
                + spec_render_rest(t@.subrange(1, k as int + 1)));
        }
        k = k + 1;
    }
    out.push(']');
    proof {
        assert(t@.subrange(1, n as int) =~= t@.drop_first());
        assert(final(out)@ =~= old(out)@ + spec_render_messages(t@));
    }
}

/// Renders just the messages array, exactly as it stands inside the
/// request body.
pub fn render_messages_string(t: &Transcript) -> (s: String)
    ensures
        s@ == spec_render_messages(t@),
{
    let mut out: Vec<char> = Vec::new();
    push_messages(&mut out, t);
    chars_to_string(&out)
}

/// Reads a role name; mirrors `ps_role`.
fn p_role(v: &Vec<char>, i: usize) -> (r: Option<(Role, usize)>)
    requires
        i <= v@.len(),
    ensures
        match r {
            Option::Some(p) => ps_role(v@, i as int) == Option::Some((p.0, p.1 as int)) && i <= p.1
                <= v@.len(),
            Option::None => ps_role(v@, i as int) is None,
        },
{
    let user = str_to_chars("user");
    proof {
        reveal_strlit("user");
        assert(("user")@ =~= role_chars(Role::User));
    }
    match p_lit(v, i, &user) {
        Option::Some(j) => Option::Some((Role::User, j)),
        Option::None => {
            let asst = str_to_chars("assistant");
            proof {
                reveal_strlit("assistant");
                assert(("assistant")@ =~= role_chars(Role::Assistant));
            }
            match p_lit(v, i, &asst) {
                Option::Some(j) => Option::Some((Role::Assistant, j)),
                Option::None => Option::None,
            }
        },
    }
}

/// Reads one canonical message object; mirrors `ps_message`.
fn p_message(v: &Vec<char>, i: usize) -> (r: Option<(Message, usize)>)
    requires
        i <= v@.len(),
    ensures
        match r {
            Option::Some(p) => ps_message(v@, i as int) == Option::Some((p.0@, p.1 as int)) && i
                < p.1 <= v@.len(),
            Option::None => ps_message(v@, i as int) is None,
        },
{
    let open = str_to_chars("{\"role\":\"");
    proof {
        reveal_strlit("{\"role\":\"");
        assert(("{\"role\":\"")@ =~= lit_msg_open());
    }
    let j1 = match p_lit(v, i, &open) {
        Option::Some(j) => j,
        Option::None => {
            return Option::None;
        },
    };
    let (role, j2) = match p_role(v, j1) {
        Option::Some(p) => p,
        Option::None => {
            return Option::None;
        },
    };
    let mid = str_to_chars("\",\"content\":\"");
    proof {
        reveal_strlit("\",\"content\":\"");
        assert(("\",\"content\":\"")@ =~= lit_msg_mid());
    }
    let j3 = match p_lit(v, j2, &mid) {
        Option::Some(j) => j,
        Option::None => {
            return Option::None;
        },
    };
    let (content, j4) = match p_string_body(v, j3) {
        Option::Some(p) => p,
        Option::None => {
            return Option::None;
        },
    };
    if j4 < v.len() {
        let c = v[j4];
        if c == '}' {
            let text = chars_to_string(&content);
            return Option::Some((Message { role, content: text }, j4 + 1));
        }
    }
    Option::None
}

/// Reads the message objects after the first; mirrors `ps_messages_rest`.
fn p_messages_rest(v: &Vec<char>, i: usize) -> (r: Option<(Vec<Message>, usize)>)
    requires
        i <= v@.len(),
    ensures
        match r {
            Option::Some(p) => ps_messages_rest(v@, i as int) == Option::Some(
                (p.0@.map(|k: int, m: Message| m@), p.1 as int),
            ) && i < p.1 <= v@.len(),
            Option::None => ps_messages_rest(v@, i as int) is None,
        },
    decreases v@.len() - i,
{
    if i >= v.len() {
        return Option::None;
    }
    let c = v[i];
    if c == ']' {
        let empty: Vec<Message> = Vec::new();
        proof {
            assert(empty@.map(|k: int, m: Message| m@) =~= Seq::<MsgView>::empty());
        }
        return Option::Some((empty, i + 1));
    }
    if c == ',' {
        match p_message(v, i + 1) {
            Option::Some(p) => {
                match p_messages_rest(v, p.1) {
                    Option::Some(q) => {
                        let mut list = q.0;
                        let ghost rest_views = q.0@.map(|k: int, m: Message| m@);
                        list.insert(0, p.0);
                        proof {
                            assert(list@.map(|k: int, m: Message| m@) =~= seq![p.0@]
                                + rest_views);
                        }
                        Option::Some((list, q.1))
                    },
                    Option::None => Option::None,
                }
            },
            Option::None => Option::None,
        }
    } else {
        Option::None
    }
}

/// Reads a whole canonical messages array back into messages; the
/// inverse of `render_messages_string` on everything it renders.
pub fn read_messages(s: &str) -> (r: Option<Vec<Message>>)
    ensures
        match r {
            Option::Some(v) => ps_messages(s@) == Option::Some(
                v@.map(|k: int, m: Message| m@),
            ),
            Option::None => ps_messages(s@) is None,
        },
{
    let v = str_to_chars(s);
    let n = v.len();
    if n >= 2 {
        let c0 = v[0];
        let c1 = v[1];
        if c0 == '[' && c1 == ']' {
            if n == 2 {
                let empty: Vec<Message> = Vec::new();
                proof {
                    assert(empty@.map(|k: int, m: Message| m@) =~= Seq::<MsgView>::empty());
                }
                return Option::Some(empty);
            }
            return Option::None;
        }
    }
    if n >= 1 {
        let c0 = v[0];
        if c0 == '[' {
            match p_message(&v, 1) {
                Option::Some(p) => {
                    match p_messages_rest(&v, p.1) {
                        Option::Some(q) => {
                            if q.1 == n {
                                let mut list = q.0;
                                let ghost rest_views = q.0@.map(|k: int, m: Message| m@);
                                list.insert(0, p.0);
                                proof {
                                    assert(list@.map(|k: int, m: Message| m@) =~= seq![p.0@]
                                        + rest_views);
                                }
                                return Option::Some(list);
                            }
                            return Option::None;
                        },
                        Option::None => {
                            return Option::None;
                        },
                    }
                },
                Option::None => {
                    return Option::None;
                },
            }
        }
    }
    Option::None
}

/// Renders the complete request body for one call: the model, the whole
/// transcript in order, and the generation parameters, in the canonical
/// form `spec_render_request` describes.
pub fn render_request(params: &RequestParams, t: &Transcript) -> (body: String)
    ensures
        body@ == spec_render_request(
            params.model@,
            params.max_tokens as int,
            params.temperature_tenths as int,
            t@,
        ),
{
    let mut out: Vec<char> = Vec::new();
    push_str_chars(&mut out, "{\"model\":\"");
    proof {
        reveal_strlit("{\"model\":\"");
        assert(("{\"model\":\"")@ =~= lit_req_open());
    }
    let model_chars = str_to_chars(params.model.as_str());
    push_escaped(&mut out, &model_chars);
    push_str_chars(&mut out, "\",\"messages\":");
    proof {
        reveal_strlit("\",\"messages\":");
        assert(("\",\"messages\":")@ =~= lit_req_msgs());
    }
    push_messages(&mut out, t);
    push_str_chars(&mut out, ",\"max_tokens\":");
    proof {
        reveal_strlit(",\"max_tokens\":");
        assert((",\"max_tokens\":")@ =~= lit_req_maxtok());
    }
    push_decimal(&mut out, params.max_tokens);
    push_str_chars(&mut out, ",\"temperature\":");
    proof {
        reveal_strlit(",\"temperature\":");
        assert((",\"temperature\":")@ =~= lit_req_temp());
    }
    push_decimal(&mut out, params.temperature_tenths / 10);
    out.push('.');
    let d = params.temperature_tenths % 10;
    let dc = if d == 0 {
        '0'
    } else if d == 1 {
        '1'
    } else if d == 2 {
        '2'
    } else if d == 3 {
        '3'
    } else if d == 4 {
        '4'
    } else if d == 5 {
        '5'
    } else if d == 6 {
        '6'
    } else if d == 7 {
        '7'
    } else if d == 8 {
        '8'
    } else {
        '9'
    };
    out.push(dc);
    out.push('}');
    proof {
        assert(dc == digit_char(params.temperature_tenths as int % 10));
        assert(out@ =~= spec_render_request(
            params.model@,
            params.max_tokens as int,
            params.temperature_tenths as int,
            t@,
        ));
    }
    chars_to_string(&out)
}

} // verus!
