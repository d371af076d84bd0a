//! Conversation messages exchanged with the completion service.

use vstd::prelude::*;

verus! {

/// The speaker of a conversation message. This library uses the
/// three-role scheme: the instruction message is `System`, the caller's
/// input is `User`, and the service replies as `Assistant`.
#[derive(Clone, Copy, Debug, PartialEq, Eq, Structural)]
pub enum Role {
    System,
    User,
    Assistant,
}

/// The wire name of a role in the JSON protocol.
pub open spec fn role_name(r: Role) -> Seq<char> {
    match r {
        Role::System => "system"@,
        Role::User => "user"@,
        Role::Assistant => "assistant"@,
    }
}

/// The role named by `name`, if any.
pub open spec fn role_of_name(name: Seq<char>) -> Option<Role> {
    if name == "system"@ {
        Some(Role::System)
    } else if name == "user"@ {
        Some(Role::User)
    } else if name == "assistant"@ {
        Some(Role::Assistant)
    } else {
        None
    }
}

/// The wire name of `r`.
pub fn role_str(r: Role) -> (s: &'static str)
    ensures
        s@ == role_name(r),
{
    match r {
        Role::System => "system",
        Role::User => "user",
        Role::Assistant => "assistant",
    }
}

/// One conversation message: who speaks, and what is said.
#[derive(Clone, Debug, PartialEq, Eq)]
pub struct Message {
    pub role: Role,
    pub content: String,
}

/// The mathematical value of a [`Message`].
pub ghost struct MsgView {
    pub role: Role,
    pub content: Seq<char>,
}

impl View for Message {
    type V = MsgView;

    open spec fn view(&self) -> MsgView {
        MsgView { role: self.role, content: self.content@ }
    }
}

/// The views of a sequence of messages.
pub open spec fn msg_views(s: Seq<Message>) -> Seq<MsgView> {
    Seq::new(s.len(), |i: int| s[i]@)
}

} // verus!
