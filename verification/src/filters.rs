//! The user allow/deny filter: an optional include list applied first, an
//! optional exclude list applied second. Either list is a no-op when empty,
//! and the composition keeps a user exactly when the include list admits it
//! and the exclude list does not remove it.

use vstd::prelude::*;

verus! {

/// Whether a user survives both filters: the include list (when non-empty)
/// must contain it, and the exclude list (when non-empty) must not.
pub open spec fn keep_user(u: u64, allow: Seq<u64>, deny: Seq<u64>) -> bool {
    (allow.len() == 0 || allow.contains(u)) && (deny.len() == 0 || !deny.contains(u))
}

/// The filter as a predicate value, so that every statement about filtering
/// speaks of one and the same function.
pub open spec fn keep_pred(allow: Seq<u64>, deny: Seq<u64>) -> spec_fn(u64) -> bool {
    |u: u64| keep_user(u, allow, deny)
}

/// The user list after the include filter and then the exclude filter, in the
/// original order.
pub open spec fn spec_apply_filters(users: Seq<u64>, allow: Seq<u64>, deny: Seq<u64>) -> Seq<
    u64,
> {
    users.filter(keep_pred(allow, deny))
}

/// Filtering a sequence extended by one element appends that element exactly
/// when the predicate admits it.
pub proof fn lemma_filter_push<A>(s: Seq<A>, x: A, pred: spec_fn(A) -> bool)
    ensures
        (s + seq![x]).filter(pred) == s.filter(pred) + (if pred(x) {
            seq![x]
        } else {
            Seq::<A>::empty()
        }),
{
    reveal(Seq::filter);
    let whole = s + seq![x];
    assert(whole.drop_last() =~= s);
    assert(whole.last() == x);
    if pred(x) {
        assert(s.filter(pred).push(x) =~= s.filter(pred) + seq![x]);
    } else {
        assert(s.filter(pred) =~= s.filter(pred) + Seq::<A>::empty());
    }
}

/// A filtered sequence holds exactly the original elements that the predicate
/// admits.
pub proof fn lemma_filter_membership<A>(s: Seq<A>, pred: spec_fn(A) -> bool, x: A)
    ensures
        s.filter(pred).contains(x) <==> s.contains(x) && pred(x),
    decreases s.len(),
{
    reveal(Seq::filter);
    if s.len() > 0 {
        lemma_filter_membership(s.drop_last(), pred, x);
        assert(s.drop_last().contains(x) ==> s.contains(x));
        if s.contains(x) && pred(x) {
            if x == s.last() {
                assert(s.filter(pred).last() == x);
                assert(s.filter(pred).contains(x));
            } else {
                let i = choose|i: int| 0 <= i < s.len() && s[i] == x;
                assert(s.drop_last()[i] == x);
                assert(s.drop_last().contains(x));
                assert(s.drop_last().filter(pred).contains(x));
                let j = choose|j: int|
                    0 <= j < s.drop_last().filter(pred).len() && s.drop_last().filter(pred)[j] == x;
                assert(s.filter(pred)[j] == x);
                assert(s.filter(pred).contains(x));
            }
        }
        if s.filter(pred).contains(x) {
            let j = choose|j: int| 0 <= j < s.filter(pred).len() && s.filter(pred)[j] == x;
            if pred(s.last()) && j == s.filter(pred).len() - 1 {
                assert(x == s.last());
                assert(s.contains(x)) by {
                    assert(s[s.len() - 1] == x);
                }
            } else {
                assert(s.drop_last().filter(pred)[j] == x);
                assert(s.drop_last().filter(pred).contains(x));
            }
        }
    }
}

/// Whether `ids` contains `x`.
pub fn contains_id(ids: &Vec<u64>, x: u64) -> (r: bool)
    ensures
        r == ids@.contains(x),
{
    let mut i: usize = 0;
    while i < ids.len()
        invariant
            0 <= i <= ids.len(),
            forall|j: int| 0 <= j < i ==> ids@[j] != x,
        decreases ids.len() - i,
    {
        if ids[i] == x {
            return true;
        }
        i += 1;
    }
    false
}

/// Applies the include filter and then the exclude filter to `users`,
/// preserving order. Both steps are no-ops when their list is empty.
pub fn apply_filters(users: &Vec<u64>, include_users: &Vec<u64>, exclude_users: &Vec<u64>) -> (r:
    Vec<u64>)
    ensures
        r@ == spec_apply_filters(users@, include_users@, exclude_users@),
{
    let ghost pred = keep_pred(include_users@, exclude_users@);
    let mut out: Vec<u64> = Vec::new();
    let mut i: usize = 0;
    proof {
        reveal(Seq::filter);
        assert(users@.take(0).filter(pred) =~= Seq::<u64>::empty());
    }
    while i < users.len()
        invariant
            0 <= i <= users.len(),
            pred == keep_pred(include_users@, exclude_users@),
            out@ == users@.take(i as int).filter(pred),
        decreases users.len() - i,
    {
        let u = users[i];
        let admitted = (include_users.len() == 0 || contains_id(include_users, u))
            && (exclude_users.len() == 0 || !contains_id(exclude_users, u));
        proof {
            assert(admitted == pred(u));
            lemma_filter_push(users@.take(i as int), u, pred);
            assert(users@.take(i + 1) =~= users@.take(i as int) + seq![u]);
        }
        if admitted {
            out.push(u);
            proof {
                assert(out@ =~= users@.take(i as int).filter(pred) + seq![u]);
            }
        }
        proof {
            assert(out@ =~= users@.take(i + 1).filter(pred));
        }
        i += 1;
    }
    proof {
        assert(users@.take(users@.len() as int) =~= users@);
    }
    out
}

/// The filter composition keeps exactly the users admitted by both lists:
/// a user is in the output iff it reacted, the include list (when non-empty)
/// names it, and the exclude list does not.
pub proof fn lemma_filters_keep_exactly(users: Seq<u64>, allow: Seq<u64>, deny: Seq<u64>, u: u64)
    ensures
        spec_apply_filters(users, allow, deny).contains(u) <==> users.contains(u) && keep_user(
            u,
            allow,
            deny,
        ),
{
    lemma_filter_membership(users, keep_pred(allow, deny), u);
}

} // verus!
