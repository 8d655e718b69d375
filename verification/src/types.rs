//! The data model of the report engine: a snapshot of the target message, the
//! query parameters with their five display modes, the per-emoji fetch
//! outcome, and the response. All identifiers are the platform's unsigned
//! 64-bit IDs; a user is identified by its numeric ID alone.

use vstd::prelude::*;

verus! {

/// Immutable snapshot of the target chat message: its IDs, its author and the
/// ordered set of emoji keys that were used to react to it. A reaction entry
/// carries no user list; the reacting users are fetched separately, one
/// paginated listing per emoji.
pub struct Message {
    pub id: u64,
    pub channel_id: u64,
    /// Absent for a direct or group message.
    pub guild_id: Option<u64>,
    pub author_id: u64,
    /// Emoji keys (unicode emoji or custom-emoji name), in the message's own
    /// reaction order.
    pub reactions: Vec<String>,
}

/// Mathematical image of a [`Message`].
pub struct MessageView {
    pub id: u64,
    pub channel_id: u64,
    pub guild_id: Option<u64>,
    pub author_id: u64,
    pub reactions: Seq<Seq<char>>,
}

impl View for Message {
    type V = MessageView;

    open spec fn view(&self) -> MessageView {
        MessageView {
            id: self.id,
            channel_id: self.channel_id,
            guild_id: self.guild_id,
            author_id: self.author_id,
            reactions: self.reactions.deep_view(),
        }
    }
}

/// The five display modes of the report.
#[derive(Clone, Copy, PartialEq, Eq, Structural)]
pub enum Mode {
    /// One line per emoji with the mention list.
    ReactionMembers,
    /// One line per emoji with the user count and the mention list.
    Full,
    /// One line per emoji with the user count only.
    ReactionCount,
    /// One deduplicated mention list across all emojis.
    Members,
    /// As `Members`, with the message author prepended.
    MembersAuthor,
}

/// The query parameters: optional user allow/deny lists, emoji keys whose
/// reactions are left out entirely, and the display mode.
pub struct Parameter {
    /// When non-empty, only these user IDs are kept (allow list).
    pub include_users: Vec<u64>,
    /// When non-empty, these user IDs are removed (deny list).
    pub exclude_users: Vec<u64>,
    /// Emoji keys that are skipped: no users are fetched for them.
    pub exclude_reactions: Vec<String>,
    pub mode: Mode,
}

/// Mathematical image of a [`Parameter`].
pub struct ParameterView {
    pub include_users: Seq<u64>,
    pub exclude_users: Seq<u64>,
    pub exclude_reactions: Seq<Seq<char>>,
    pub mode: Mode,
}

impl View for Parameter {
    type V = ParameterView;

    open spec fn view(&self) -> ParameterView {
        ParameterView {
            include_users: self.include_users@,
            exclude_users: self.exclude_users@,
            exclude_reactions: self.exclude_reactions.deep_view(),
            mode: self.mode,
        }
    }
}

/// What the transport produced for one emoji: the complete reacting-user list
/// (all pages accumulated), or a transport failure. A failed emoji is logged
/// by the caller and omitted from the report; it never aborts the request.
pub enum FetchOutcome {
    Users(Vec<u64>),
    Failed,
}

impl View for FetchOutcome {
    type V = Option<Seq<u64>>;

    open spec fn view(&self) -> Option<Seq<u64>> {
        match self {
            FetchOutcome::Users(users) => Some(users@),
            FetchOutcome::Failed => None,
        }
    }
}

impl DeepView for FetchOutcome {
    type V = Option<Seq<u64>>;

    open spec fn deep_view(&self) -> Option<Seq<u64>> {
        self.view()
    }
}

/// The rendered report.
pub struct Response {
    pub content: String,
}

} // verus!
