//! Messages and the append-only conversation transcript.

use vstd::prelude::*;

verus! {

/// The speaker of one transcript entry.
#[derive(Clone, Copy, PartialEq, Eq, Structural, Debug)]
pub enum Role {
    User,
    Assistant,
}

/// One immutable entry of a conversation transcript.
#[derive(Clone, Debug)]
pub struct Message {
    pub role: Role,
    pub content: String,
}

/// The mathematical value of a `Message`: its role and its text.
#[verifier::ext_equal]
pub struct MsgView {
    pub role: Role,
    pub content: Seq<char>,
}

impl View for Message {
    type V = MsgView;

    open spec fn view(&self) -> MsgView {
        MsgView { role: self.role, content: self.content@ }
    }
}

impl Message {
    /// A message is well formed when its text is non-empty: empty user
    /// input is never framed into a message by this library's callers.
    /// The transcript itself does not enforce this; it is an append-only
    /// log and leaves ordering and content validity to the caller.
    pub open spec fn wf(self) -> bool {
        self.content@.len() > 0
    }

    pub fn new(role: Role, content: String) -> (m: Message)
        ensures
            m@ == (MsgView { role, content: content@ }),
    {
        Message { role, content }
    }
}

/// The ordered log of conversation turns. Insertion order is conversation
/// order and is replayed verbatim on every outbound request. The log only
/// grows: it is never truncated or rewritten while a session lives.
#[derive(Clone, Debug)]
pub struct Transcript {
    msgs: Vec<Message>,
}

impl View for Transcript {
    type V = Seq<MsgView>;

    closed spec fn view(&self) -> Seq<MsgView> {
        self.msgs@.map(|i: int, m: Message| m@)
    }
}

impl Transcript {
    /// An interactive session starts from an empty transcript.
    pub fn new() -> (t: Transcript)
        ensures
            t@ =~= Seq::<MsgView>::empty(),
    {
        Transcript { msgs: Vec::new() }
    }

    pub fn len(&self) -> (n: usize)
        ensures
            n == self@.len(),
    {
        self.msgs.len()
    }

    pub fn get(&self, i: usize) -> (m: &Message)
        requires
            i < self@.len(),
        ensures
            m@ == self@[i as int],
    {
        &self.msgs[i]
    }

    /// Appends one entry at the end; nothing else ever changes.
    pub fn push(&mut self, m: Message)
        ensures
            final(self)@ =~= old(self)@.push(m@),
    {
        self.msgs.push(m);
    }
}

} // verus!
