//! The collector: which emojis of the message are fetched, and the mapping
//! from emoji key to its full reacting-user list. An emoji whose key is on
//! the exclusion list is never fetched; an emoji whose fetch failed is
//! omitted from the map rather than aborting the request. The map preserves
//! the message's own reaction order, one entry per fetched emoji.

use vstd::prelude::*;

use crate::types::{FetchOutcome, Message};

verus! {

/// The predicate that keeps an emoji: its key is not on the exclusion list.
pub open spec fn fetch_pred(excluded: Seq<Seq<char>>) -> spec_fn(Seq<char>) -> bool {
    |e: Seq<char>| !excluded.contains(e)
}

/// The emojis for which reacting users are fetched, in reaction order: every
/// reaction of the message whose key is not excluded.
pub open spec fn planned_emojis(reactions: Seq<Seq<char>>, excluded: Seq<Seq<char>>) -> Seq<
    Seq<char>,
> {
    reactions.filter(fetch_pred(excluded))
}

/// The emoji-to-users map as a value: the fetched emojis zipped with their
/// outcomes, keeping exactly those whose fetch succeeded, in order.
pub open spec fn spec_reaction_map(
    emojis: Seq<Seq<char>>,
    outcomes: Seq<Option<Seq<u64>>>,
) -> Seq<(Seq<char>, Seq<u64>)>
    recommends
        emojis.len() == outcomes.len(),
    decreases emojis.len(),
{
    if emojis.len() == 0 {
        Seq::empty()
    } else {
        let rest = spec_reaction_map(emojis.drop_last(), outcomes.drop_last());
        match outcomes[emojis.len() - 1] {
            Some(users) => rest + seq![(emojis.last(), users)],
            None => rest,
        }
    }
}

/// Every key of the map is one of the fetched emojis.
pub proof fn lemma_map_keys_from_emojis(emojis: Seq<Seq<char>>, outcomes: Seq<Option<Seq<u64>>>)
    ensures
        forall|k: int|
            0 <= k < spec_reaction_map(emojis, outcomes).len() ==> emojis.contains(
                #[trigger] spec_reaction_map(emojis, outcomes)[k].0,
            ),
    decreases emojis.len(),
{
    if emojis.len() > 0 {
        lemma_map_keys_from_emojis(emojis.drop_last(), outcomes.drop_last());
        let rest = spec_reaction_map(emojis.drop_last(), outcomes.drop_last());
        assert forall|k: int|
            0 <= k < spec_reaction_map(emojis, outcomes).len() implies emojis.contains(
            #[trigger] spec_reaction_map(emojis, outcomes)[k].0,
        ) by {
            if k < rest.len() {
                assert(emojis.drop_last().contains(rest[k].0));
                let i = choose|i: int|
                    0 <= i < emojis.drop_last().len() && emojis.drop_last()[i] == rest[k].0;
                assert(emojis[i] == rest[k].0);
            } else {
                assert(spec_reaction_map(emojis, outcomes)[k].0 == emojis.last());
                assert(emojis[emojis.len() - 1] == emojis.last());
            }
        }
    }
}

/// An emoji on the exclusion list is never fetched — it is not among the
/// planned emojis — and no entry of the map carries its key.
pub proof fn lemma_excluded_contributes_nothing(
    reactions: Seq<Seq<char>>,
    excluded: Seq<Seq<char>>,
    outcomes: Seq<Option<Seq<u64>>>,
    e: Seq<char>,
)
    requires
        excluded.contains(e),
    ensures
        !planned_emojis(reactions, excluded).contains(e),
        forall|k: int|
            0 <= k < spec_reaction_map(planned_emojis(reactions, excluded), outcomes).len()
                ==> #[trigger] spec_reaction_map(planned_emojis(reactions, excluded), outcomes)[k].0
                != e,
{
    let planned = planned_emojis(reactions, excluded);
    crate::filters::lemma_filter_membership(reactions, fetch_pred(excluded), e);
    assert(!fetch_pred(excluded)(e));
    lemma_map_keys_from_emojis(planned, outcomes);
}

/// With an empty exclusion list every reaction of the message is fetched.
pub proof fn lemma_planned_no_exclusions(reactions: Seq<Seq<char>>)
    ensures
        planned_emojis(reactions, Seq::<Seq<char>>::empty()) == reactions,
    decreases reactions.len(),
{
    reveal(Seq::filter);
    if reactions.len() == 0 {
        assert(planned_emojis(reactions, Seq::<Seq<char>>::empty()) =~= reactions);
    } else {
        lemma_planned_no_exclusions(reactions.drop_last());
        assert(fetch_pred(Seq::<Seq<char>>::empty())(reactions.last()));
        assert(planned_emojis(reactions, Seq::<Seq<char>>::empty()) =~= reactions);
    }
}

/// The mathematical image of an emoji-to-users entry list.
pub open spec fn entries_view(entries: Seq<(String, Vec<u64>)>) -> Seq<(Seq<char>, Seq<u64>)> {
    entries.map_values(|e: (String, Vec<u64>)| (e.0@, e.1@))
}

/// Whether one of `keys` has the same characters as `s`.
pub fn contains_string(keys: &Vec<String>, s: &String) -> (r: bool)
    ensures
        r == keys.deep_view().contains(s@),
{
    let mut i: usize = 0;
    while i < keys.len()
        invariant
            0 <= i <= keys.len(),
            forall|j: int| 0 <= j < i ==> keys.deep_view()[j] != s@,
        decreases keys.len() - i,
    {
        if keys[i].eq(s) {
            proof {
                assert(keys.deep_view()[i as int] == s@);
            }
            return true;
        }
        i += 1;
    }
    false
}

/// A copy of a user-ID list.
fn copy_ids(ids: &Vec<u64>) -> (r: Vec<u64>)
    ensures
        r@ == ids@,
{
    let mut out: Vec<u64> = Vec::new();
    let mut i: usize = 0;
    while i < ids.len()
        invariant
            0 <= i <= ids.len(),
            out@ == ids@.take(i as int),
        decreases ids.len() - i,
    {
        out.push(ids[i]);
        proof {
            assert(out@ =~= ids@.take(i + 1));
        }
        i += 1;
    }
    proof {
        assert(ids@.take(ids@.len() as int) =~= ids@);
    }
    out
}

/// The emojis of `message` that will be fetched, in reaction order: every
/// reaction whose key is not in `exclude_reactions`. For a message without
/// reactions the plan is empty — no fetch happens at all.
pub fn plan_fetches(message: &Message, exclude_reactions: &Vec<String>) -> (r: Vec<String>)
    ensures
        r.deep_view() == planned_emojis(message@.reactions, exclude_reactions.deep_view()),
{
    let ghost reactions = message@.reactions;
    let ghost pred = fetch_pred(exclude_reactions.deep_view());
    let mut out: Vec<String> = Vec::new();
    let mut i: usize = 0;
    proof {
        reveal(Seq::filter);
        assert(reactions.take(0).filter(pred) =~= Seq::<Seq<char>>::empty());
        assert(out.deep_view() =~= Seq::<Seq<char>>::empty());
    }
    while i < message.reactions.len()
        invariant
            0 <= i <= message.reactions.len(),
            reactions == message@.reactions,
            pred == fetch_pred(exclude_reactions.deep_view()),
            reactions.len() == message.reactions.len(),
            out.deep_view() == reactions.take(i as int).filter(pred),
        decreases message.reactions.len() - i,
    {
        let emoji = &message.reactions[i];
        let excluded_here = contains_string(exclude_reactions, emoji);
        proof {
            assert(reactions[i as int] == emoji@);
            assert(pred(emoji@) == !excluded_here);
            crate::filters::lemma_filter_push(reactions.take(i as int), emoji@, pred);
            assert(reactions.take(i + 1) =~= reactions.take(i as int) + seq![emoji@]);
        }
        if !excluded_here {
            let ghost before = out.deep_view();
            out.push(emoji.clone());
            proof {
                assert(out.deep_view() =~= before + seq![emoji@]);
            }
        }
        proof {
            assert(out.deep_view() =~= reactions.take(i + 1).filter(pred));
        }
        i += 1;
    }
    proof {
        assert(reactions.take(reactions.len() as int) =~= reactions);
    }
    out
}

/// Builds the emoji-to-users map: the fetched emojis of `message` (its
/// reactions minus the excluded keys, in order) paired with the user lists
/// their fetches produced. `outcomes[i]` belongs to the `i`-th fetched emoji;
/// an emoji whose fetch failed is omitted rather than failing the request.
pub fn to_reaction_map(
    message: &Message,
    exclude_reactions: &Vec<String>,
    outcomes: &Vec<FetchOutcome>,
) -> (r: Vec<(String, Vec<u64>)>)
    requires
        outcomes.deep_view().len() == planned_emojis(
            message@.reactions,
            exclude_reactions.deep_view(),
        ).len(),
    ensures
        entries_view(r@) == spec_reaction_map(
            planned_emojis(message@.reactions, exclude_reactions.deep_view()),
            outcomes.deep_view(),
        ),
{
    let emojis = plan_fetches(message, exclude_reactions);
    let ghost planned = emojis.deep_view();
    let ghost outs = outcomes.deep_view();
    let mut out: Vec<(String, Vec<u64>)> = Vec::new();
    let mut i: usize = 0;
    proof {
        assert(entries_view(out@) =~= spec_reaction_map(planned.take(0), outs.take(0)));
    }
    while i < emojis.len()
        invariant
            0 <= i <= emojis.len(),
            planned == emojis.deep_view(),
            outs == outcomes.deep_view(),
            planned.len() == emojis.len(),
            outs.len() == emojis.len(),
            outs.len() == outcomes.len(),
            entries_view(out@) == spec_reaction_map(planned.take(i as int), outs.take(i as int)),
        decreases emojis.len() - i,
    {
        proof {
            assert(planned.take(i + 1).drop_last() =~= planned.take(i as int));
            assert(outs.take(i + 1).drop_last() =~= outs.take(i as int));
            assert(planned.take(i + 1).last() == planned[i as int]);
            assert(outs.take(i + 1)[i as int] == outs[i as int]);
            assert(outs[i as int] == outcomes@[i as int]@);
        }
        match &outcomes[i] {
            FetchOutcome::Users(users) => {
                let ghost before = entries_view(out@);
                let entry = (emojis[i].clone(), copy_ids(users));
                proof {
                    assert(entry.0@ == planned[i as int]);
                }
                out.push(entry);
                proof {
                    assert(entries_view(out@) =~= before + seq![(planned[i as int], users@)]);
                }
            },
            FetchOutcome::Failed => {},
        }
        proof {
            assert(entries_view(out@) =~= spec_reaction_map(planned.take(i + 1), outs.take(i + 1)));
        }
        i += 1;
    }
    proof {
        assert(planned.take(planned.len() as int) =~= planned);
        assert(outs.take(outs.len() as int) =~= outs);
    }
    out
}

} // verus!
