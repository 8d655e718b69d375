//! Reaction report engine for a chat-platform bot.
//!
//! Given a snapshot of a message's reaction set and the lists of users that
//! reacted with each emoji, the library filters those lists, aggregates them
//! per emoji or flattened across emojis, and renders the report text. The
//! paginated retrieval of reacting users is modelled as a fold over the pages
//! the transport returned, so the whole pipeline is a pure, verified
//! request-to-response transform; the network itself stays outside.

pub mod numfmt;
pub mod types;
pub mod filters;
pub mod pager;
pub mod collect;
pub mod aggregate;
pub mod render;
pub mod reaction_users;
pub mod reaction_query;
pub mod scan;
pub mod url_parser;
pub mod parsers;

pub use numfmt::u64_to_string;
pub use types::{FetchOutcome, Message, Mode, Parameter, Response};
