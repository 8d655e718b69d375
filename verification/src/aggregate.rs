//! The aggregator: the two result policies over the emoji-to-users map.
//! Grouped-by-emoji keeps one filtered user list per fetched emoji, in map
//! order. Flattened-unique concatenates the filtered lists, prepends the
//! message author when asked to, and deduplicates by user ID with the first
//! occurrence winning, so a prepended author is always first.

use vstd::prelude::*;

use crate::collect::entries_view;
use crate::filters::{apply_filters, contains_id, spec_apply_filters};

verus! {

/// The map with every user list filtered, keys and order untouched.
pub open spec fn filtered_entries(
    entries: Seq<(Seq<char>, Seq<u64>)>,
    allow: Seq<u64>,
    deny: Seq<u64>,
) -> Seq<(Seq<char>, Seq<u64>)> {
    entries.map_values(|e: (Seq<char>, Seq<u64>)| (e.0, spec_apply_filters(e.1, allow, deny)))
}

/// All user lists of the map, concatenated in map order.
pub open spec fn flat_users(entries: Seq<(Seq<char>, Seq<u64>)>) -> Seq<u64>
    decreases entries.len(),
{
    if entries.len() == 0 {
        Seq::empty()
    } else {
        flat_users(entries.drop_last()) + entries.last().1
    }
}

/// First-occurrence-wins deduplication: an element is kept exactly where it
/// has not appeared before.
pub open spec fn dedup_ids(s: Seq<u64>) -> Seq<u64>
    decreases s.len(),
{
    if s.len() == 0 {
        Seq::empty()
    } else {
        let rest = dedup_ids(s.drop_last());
        if s.drop_last().contains(s.last()) {
            rest
        } else {
            rest + seq![s.last()]
        }
    }
}

/// The flattened ids, the author (when given) prepended before deduplication.
pub open spec fn flattened_ids(entries: Seq<(Seq<char>, Seq<u64>)>, author: Option<u64>) -> Seq<
    u64,
> {
    match author {
        Some(a) => dedup_ids(seq![a] + flat_users(entries)),
        None => dedup_ids(flat_users(entries)),
    }
}

/// Deduplication keeps exactly the elements of the original.
pub proof fn lemma_dedup_contains(s: Seq<u64>, x: u64)
    ensures
        dedup_ids(s).contains(x) <==> s.contains(x),
    decreases s.len(),
{
    if s.len() > 0 {
        lemma_dedup_contains(s.drop_last(), x);
        let rest = dedup_ids(s.drop_last());
        assert(s.drop_last().contains(x) ==> s.contains(x));
        if s.contains(x) {
            if x == s.last() {
                if s.drop_last().contains(x) {
                    assert(dedup_ids(s).contains(x));
                } else {
                    assert(dedup_ids(s)[dedup_ids(s).len() - 1] == x);
                    assert(dedup_ids(s).contains(x));
                }
            } else {
                let i = choose|i: int| 0 <= i < s.len() && s[i] == x;
                assert(s.drop_last()[i] == x);
                assert(s.drop_last().contains(x));
                let j = choose|j: int| 0 <= j < rest.len() && rest[j] == x;
                assert(dedup_ids(s)[j] == x);
                assert(dedup_ids(s).contains(x));
            }
        }
        if dedup_ids(s).contains(x) && !s.drop_last().contains(x) {
            let j = choose|j: int| 0 <= j < dedup_ids(s).len() && dedup_ids(s)[j] == x;
            if j < rest.len() {
                assert(rest.contains(x));
            } else {
                assert(x == s.last());
                assert(s[s.len() - 1] == x);
            }
        }
    }
}

/// Deduplication leaves each element at most once.
pub proof fn lemma_dedup_no_duplicates(s: Seq<u64>)
    ensures
        dedup_ids(s).no_duplicates(),
    decreases s.len(),
{
    if s.len() > 0 {
        lemma_dedup_no_duplicates(s.drop_last());
        let rest = dedup_ids(s.drop_last());
        if !s.drop_last().contains(s.last()) {
            lemma_dedup_contains(s.drop_last(), s.last());
            assert(!rest.contains(s.last()));
            let out = rest + seq![s.last()];
            assert forall|i: int, j: int|
                0 <= i < out.len() && 0 <= j < out.len() && i != j implies out[i] != out[j] by {
                if i < rest.len() && j < rest.len() {
                    assert(rest[i] != rest[j]);
                } else if i < rest.len() {
                    assert(rest[i] != s.last()) by {
                        if rest[i] == s.last() {
                            assert(rest.contains(s.last()));
                        }
                    }
                } else if j < rest.len() {
                    assert(rest[j] != s.last()) by {
                        if rest[j] == s.last() {
                            assert(rest.contains(s.last()));
                        }
                    }
                }
            }
        }
    }
}

/// Deduplication keeps the first element first.
pub proof fn lemma_dedup_first(s: Seq<u64>)
    requires
        s.len() > 0,
    ensures
        dedup_ids(s).len() > 0,
        dedup_ids(s)[0] == s[0],
    decreases s.len(),
{
    if s.len() == 1 {
        reveal_with_fuel(dedup_ids, 2);
        assert(dedup_ids(s) =~= seq![s[0]]);
    } else {
        lemma_dedup_first(s.drop_last());
        assert(s.drop_last()[0] == s[0]);
    }
}

/// The flattened-unique result holds each user at most once; with an author
/// given, the author stands first.
pub proof fn lemma_flattened_unique(entries: Seq<(Seq<char>, Seq<u64>)>, author: Option<u64>)
    ensures
        flattened_ids(entries, author).no_duplicates(),
        author matches Some(a) ==> flattened_ids(entries, author).len() > 0 && flattened_ids(
            entries,
            author,
        )[0] == a,
{
    match author {
        Some(a) => {
            lemma_dedup_no_duplicates(seq![a] + flat_users(entries));
            lemma_dedup_first(seq![a] + flat_users(entries));
            assert((seq![a] + flat_users(entries))[0] == a);
        },
        None => {
            lemma_dedup_no_duplicates(flat_users(entries));
        },
    }
}

/// The flattened-unique result holds exactly the users of the map (and the
/// author, when given).
pub proof fn lemma_flattened_membership(
    entries: Seq<(Seq<char>, Seq<u64>)>,
    author: Option<u64>,
    u: u64,
)
    ensures
        flattened_ids(entries, author).contains(u) <==> (flat_users(entries).contains(u) || author
            == Some(u)),
{
    match author {
        Some(a) => {
            lemma_dedup_contains(seq![a] + flat_users(entries), u);
            let pre = seq![a] + flat_users(entries);
            if pre.contains(u) {
                let i = choose|i: int| 0 <= i < pre.len() && pre[i] == u;
                if i == 0 {
                    assert(a == u);
                } else {
                    assert(flat_users(entries)[i - 1] == u);
                    assert(flat_users(entries).contains(u));
                }
            }
            if flat_users(entries).contains(u) {
                let i = choose|i: int|
                    0 <= i < flat_users(entries).len() && flat_users(entries)[i] == u;
                assert(pre[i + 1] == u);
                assert(pre.contains(u));
            }
            if a == u {
                assert(pre[0] == u);
                assert(pre.contains(u));
            }
        },
        None => {
            lemma_dedup_contains(flat_users(entries), u);
        },
    }
}

/// Applies the include/exclude filters to every user list of the map,
/// leaving keys and order untouched.
pub fn filter_map_entries(
    entries: &Vec<(String, Vec<u64>)>,
    include_users: &Vec<u64>,
    exclude_users: &Vec<u64>,
) -> (r: Vec<(String, Vec<u64>)>)
    ensures
        entries_view(r@) == filtered_entries(
            entries_view(entries@),
            include_users@,
            exclude_users@,
        ),
{
    let ghost ev = entries_view(entries@);
    let mut out: Vec<(String, Vec<u64>)> = Vec::new();
    let mut i: usize = 0;
    proof {
        assert(entries_view(out@) =~= filtered_entries(ev.take(0), include_users@, exclude_users@));
    }
    while i < entries.len()
        invariant
            0 <= i <= entries.len(),
            ev == entries_view(entries@),
            ev.len() == entries.len(),
            entries_view(out@) == filtered_entries(
                ev.take(i as int),
                include_users@,
                exclude_users@,
            ),
        decreases entries.len() - i,
    {
        let entry = &entries[i];
        let ghost before = entries_view(out@);
        let filtered = apply_filters(&entry.1, include_users, exclude_users);
        out.push((entry.0.clone(), filtered));
        proof {
            assert(ev[i as int] == (entry.0@, entry.1@));
            assert(entries_view(out@) =~= before + seq![
                (entry.0@, spec_apply_filters(entry.1@, include_users@, exclude_users@)),
            ]);
            assert(entries_view(out@) =~= filtered_entries(
                ev.take(i + 1),
                include_users@,
                exclude_users@,
            ));
        }
        i += 1;
    }
    proof {
        assert(ev.take(ev.len() as int) =~= ev);
    }
    out
}

/// Flattens the map's user lists into one list, in map order.
fn flatten_entries(entries: &Vec<(String, Vec<u64>)>) -> (r: Vec<u64>)
    ensures
        r@ == flat_users(entries_view(entries@)),
{
    let ghost ev = entries_view(entries@);
    let mut out: Vec<u64> = Vec::new();
    let mut i: usize = 0;
    proof {
        assert(out@ =~= flat_users(ev.take(0)));
    }
    while i < entries.len()
        invariant
            0 <= i <= entries.len(),
            ev == entries_view(entries@),
            ev.len() == entries.len(),
            out@ == flat_users(ev.take(i as int)),
        decreases entries.len() - i,
    {
        let users = &entries[i].1;
        let ghost before = out@;
        let mut j: usize = 0;
        while j < users.len()
            invariant
                0 <= j <= users.len(),
                out@ == before + users@.take(j as int),
            decreases users.len() - j,
        {
            out.push(users[j]);
            proof {
                assert(out@ =~= before + users@.take(j + 1));
            }
            j += 1;
        }
        proof {
            assert(users@.take(users@.len() as int) =~= users@);
            assert(ev.take(i + 1).drop_last() =~= ev.take(i as int));
            assert(ev.take(i + 1).last() == ev[i as int]);
            assert(ev[i as int].1 == users@);
            assert(out@ =~= flat_users(ev.take(i + 1)));
        }
        i += 1;
    }
    proof {
        assert(ev.take(ev.len() as int) =~= ev);
    }
    out
}

/// The flattened-unique aggregation: the map's filtered user lists in one
/// list, the author (when given) prepended, deduplicated by user ID with the
/// first occurrence winning.
pub fn flatten_unique(entries: &Vec<(String, Vec<u64>)>, author: Option<u64>) -> (r: Vec<u64>)
    ensures
        r@ == flattened_ids(entries_view(entries@), author),
{
    let flat = flatten_entries(entries);
    let mut raw: Vec<u64> = Vec::new();
    if let Some(a) = author {
        raw.push(a);
    }
    let ghost prefix = raw@;
    let mut k: usize = 0;
    while k < flat.len()
        invariant
            0 <= k <= flat.len(),
            raw@ == prefix + flat@.take(k as int),
        decreases flat.len() - k,
    {
        raw.push(flat[k]);
        proof {
            assert(raw@ =~= prefix + flat@.take(k + 1));
        }
        k += 1;
    }
    proof {
        assert(flat@.take(flat@.len() as int) =~= flat@);
        match author {
            Some(a) => {
                assert(raw@ =~= seq![a] + flat_users(entries_view(entries@)));
            },
            None => {
                assert(raw@ =~= flat_users(entries_view(entries@)));
            },
        }
    }
    let mut out: Vec<u64> = Vec::new();
    let mut i: usize = 0;
    proof {
        assert(out@ =~= dedup_ids(raw@.take(0)));
    }
    while i < raw.len()
        invariant
            0 <= i <= raw.len(),
            out@ == dedup_ids(raw@.take(i as int)),
        decreases raw.len() - i,
    {
        let u = raw[i];
        let seen = contains_id(&out, u);
        proof {
            lemma_dedup_contains(raw@.take(i as int), u);
            assert(seen == raw@.take(i as int).contains(u));
            assert(raw@.take(i + 1).drop_last() =~= raw@.take(i as int));
            assert(raw@.take(i + 1).last() == raw@[i as int]);
        }
        if !seen {
            out.push(u);
            proof {
                assert(out@ =~= dedup_ids(raw@.take(i as int)) + seq![u]);
            }
        }
        proof {
            assert(out@ =~= dedup_ids(raw@.take(i + 1)));
        }
        i += 1;
    }
    proof {
        assert(raw@.take(raw@.len() as int) =~= raw@);
    }
    out
}

} // verus!
