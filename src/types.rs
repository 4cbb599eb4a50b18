//! Conversation messages, tool calls and model replies.
use vstd::prelude::*;

verus! {

/// Who a message comes from.
#[derive(Clone, Copy, Debug, PartialEq, Eq, Structural)]
pub enum Role {
    User,
    Assistant,
    System,
    Tool,
}

/// The name a role is shown under.
pub open spec fn role_label(r: Role) -> Seq<char> {
    match r {
        Role::User => "User"@,
        Role::Assistant => "Assistant"@,
        Role::System => "System"@,
        Role::Tool => "Tool"@,
    }
}

impl Role {
    /// The name this role is shown under.
    pub fn label(&self) -> (r: &'static str)
        ensures
            r@ == role_label(*self),
    {
        match self {
            Role::User => "User",
            Role::Assistant => "Assistant",
            Role::System => "System",
            Role::Tool => "Tool",
        }
    }
}

/// One message of a conversation. Its identity is `id`.
#[derive(Clone, Debug)]
pub struct Message {
    pub id: u128,
    pub channel: String,
    pub session_key: String,
    pub content: String,
    pub role: Role,
    /// Ordered key/value annotations.
    pub metadata: Vec<(String, String)>,
}

/// A message as plain values.
pub struct MessageView {
    pub id: u128,
    pub channel: Seq<char>,
    pub session_key: Seq<char>,
    pub content: Seq<char>,
    pub role: Role,
    pub metadata: Seq<(Seq<char>, Seq<char>)>,
}

/// The views of a list of key/value pairs.
pub open spec fn pairs_view(v: Seq<(String, String)>) -> Seq<(Seq<char>, Seq<char>)> {
    v.map_values(|p: (String, String)| (p.0@, p.1@))
}

impl View for Message {
    type V = MessageView;

    open spec fn view(&self) -> MessageView {
        MessageView {
            id: self.id,
            channel: self.channel@,
            session_key: self.session_key@,
            content: self.content@,
            role: self.role,
            metadata: pairs_view(self.metadata@),
        }
    }
}

/// The views of a list of messages.
pub open spec fn messages_view(v: Seq<Message>) -> Seq<MessageView> {
    v.map_values(|m: Message| m@)
}

/// Relies on `uuid::Uuid::new_v4`: a random identifier, as its 128-bit value.
#[verifier::external_body]
fn fresh_id() -> u128 {
    uuid::Uuid::new_v4().as_u128()
}

/// Copies a list of key/value pairs.
fn copy_pairs(v: &Vec<(String, String)>) -> (r: Vec<(String, String)>)
    ensures
        pairs_view(r@) == pairs_view(v@),
{
    let mut r: Vec<(String, String)> = Vec::new();
    let mut i: usize = 0;
    while i < v.len()
        invariant
            i <= v@.len(),
            r@.len() == i,
            forall|k: int| 0 <= k < i ==> r@[k].0@ == v@[k].0@ && r@[k].1@ == v@[k].1@,
        decreases v@.len() - i,
    {
        let k = v[i].0.clone();
        let val = v[i].1.clone();
        r.push((k, val));
        i = i + 1;
    }
    assert(pairs_view(r@) =~= pairs_view(v@));
    r
}

impl Message {
    /// A new message with a fresh identifier and no metadata.
    pub fn new(channel: &str, session_key: &str, role: Role, content: &str) -> (r: Message)
        ensures
            r@.channel == channel@,
            r@.session_key == session_key@,
            r@.content == content@,
            r@.role == role,
            r@.metadata.len() == 0,
    {
        let r = Message {
            id: fresh_id(),
            channel: String::from_str(channel),
            session_key: String::from_str(session_key),
            content: String::from_str(content),
            role,
            metadata: Vec::new(),
        };
        assert(pairs_view(r.metadata@) =~= Seq::empty());
        r
    }

    /// An equal copy, identifier included.
    pub fn duplicate(&self) -> (r: Message)
        ensures
            r@ == self@,
    {
        Message {
            id: self.id,
            channel: self.channel.clone(),
            session_key: self.session_key.clone(),
            content: self.content.clone(),
            role: self.role,
            metadata: copy_pairs(&self.metadata),
        }
    }

    /// Adds the annotation `key` = `value` after the existing ones.
    pub fn annotate(&mut self, key: &str, value: String)
        ensures
            final(self)@ == (MessageView {
                metadata: old(self)@.metadata.push((key@, value@)),
                ..old(self)@
            }),
    {
        let ghost before = self.metadata@;
        self.metadata.push((String::from_str(key), value));
        assert(pairs_view(self.metadata@) =~= pairs_view(before).push((key@, value@)));
    }
}

/// A model's request to run a named tool.
#[derive(Clone, Debug)]
pub struct ToolCall {
    pub id: String,
    pub name: String,
    /// The arguments as JSON text.
    pub arguments: String,
}

/// Token counts the provider reports for one completion.
#[derive(Clone, Copy, Debug, PartialEq, Eq, Structural)]
pub struct Usage {
    pub input_tokens: u32,
    pub output_tokens: u32,
}

/// What the model answered.
pub struct GenerationResponse {
    pub content: String,
    pub tool_calls: Vec<ToolCall>,
    pub usage: Option<Usage>,
}

} // verus!
