//! The flag-selected variant of the query: instead of naming one of the five
//! modes, the caller picks grouped or flattened aggregation and toggles the
//! author and the counts. No user or emoji filter applies here; every
//! reaction of the message is fetched. The flags select the engine's mode:
//! grouping with counts is `Full`, grouping without is `ReactionMembers`,
//! flattened with the author is `MembersAuthor`, flattened without is
//! `Members`.

use vstd::prelude::*;

use crate::collect::{lemma_planned_no_exclusions, planned_emojis};
use crate::reaction_users::{process_reaction_members as process_with_mode, spec_process};
use crate::types::{FetchOutcome, Message, Mode, Parameter, ParameterView};

verus! {

/// Parameters of the flag-selected query.
pub struct ReactionUsersParameter {
    pub message: Message,
    /// Grouped-by-emoji when set, flattened-unique otherwise.
    pub is_reaction_grouping: bool,
    /// In flattened aggregation, prepend the message author.
    pub is_author_include: bool,
    /// In grouped aggregation, show the user count on every line.
    pub is_show_count: bool,
}

/// The rendered report of the flag-selected query.
pub struct ReactionUsersResponse {
    pub content: String,
}

/// The engine mode the flags select.
pub open spec fn spec_selected_mode(grouping: bool, author: bool, show_count: bool) -> Mode {
    if grouping {
        if show_count {
            Mode::Full
        } else {
            Mode::ReactionMembers
        }
    } else {
        if author {
            Mode::MembersAuthor
        } else {
            Mode::Members
        }
    }
}

/// The engine parameters the flags stand for: no filters, the selected mode.
pub open spec fn spec_query_parameter(p: &ReactionUsersParameter) -> ParameterView {
    ParameterView {
        include_users: Seq::empty(),
        exclude_users: Seq::empty(),
        exclude_reactions: Seq::empty(),
        mode: spec_selected_mode(p.is_reaction_grouping, p.is_author_include, p.is_show_count),
    }
}

/// Builds the report for the flag-selected query. Every reaction of the
/// message is fetched: `outcomes[i]` is what the transport produced for the
/// `i`-th reaction of the message.
pub fn process_reaction_members(parameter: &ReactionUsersParameter, outcomes: &Vec<FetchOutcome>) -> (
    r: ReactionUsersResponse)
    requires
        outcomes.deep_view().len() == parameter.message@.reactions.len(),
    ensures
        r.content@ == spec_process(
            parameter.message@,
            spec_query_parameter(parameter),
            outcomes.deep_view(),
        ),
{
    let mode = if parameter.is_reaction_grouping {
        if parameter.is_show_count {
            Mode::Full
        } else {
            Mode::ReactionMembers
        }
    } else {
        if parameter.is_author_include {
            Mode::MembersAuthor
        } else {
            Mode::Members
        }
    };
    let engine_parameter = Parameter {
        include_users: Vec::new(),
        exclude_users: Vec::new(),
        exclude_reactions: Vec::new(),
        mode,
    };
    proof {
        lemma_planned_no_exclusions(parameter.message@.reactions);
        assert(engine_parameter@.include_users =~= Seq::<u64>::empty());
        assert(engine_parameter@.exclude_users =~= Seq::<u64>::empty());
        assert(engine_parameter@.exclude_reactions =~= Seq::<Seq<char>>::empty());
        assert(engine_parameter@ == spec_query_parameter(parameter));
    }
    let response = process_with_mode(&parameter.message, &engine_parameter, outcomes);
    ReactionUsersResponse { content: response.content }
}

} // verus!
