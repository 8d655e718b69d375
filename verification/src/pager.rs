//! The pager: accumulation of the paginated reacting-user listing for one
//! emoji. The transport returns users in pages of at most [`PAGE_SIZE`]; each
//! page is requested with the last-seen user ID of the previous page as
//! cursor, and the walk ends with the first page that is shorter than the
//! requested size (an empty page included). The walk is modelled as a fold
//! over the sequence of pages the transport returned, so that the
//! accumulation and the termination rule are verified independently of the
//! network: the caller performs one request per consumed page and feeds the
//! pages in here.

use vstd::prelude::*;

verus! {

/// Users requested per page; the platform's maximum.
pub const PAGE_SIZE: usize = 100;

/// A page shorter than the requested size ends the walk.
pub open spec fn page_is_last(page: Seq<u64>) -> bool {
    page.len() < PAGE_SIZE
}

/// How many pages the walk consumes: every page up to and including the first
/// short one, or all of them when none is short.
pub open spec fn pages_consumed(pages: Seq<Seq<u64>>) -> nat
    decreases pages.len(),
{
    if pages.len() == 0 {
        0
    } else if page_is_last(pages[0]) {
        1
    } else {
        1 + pages_consumed(pages.drop_first())
    }
}

/// All users of the consumed pages, in fetch order.
pub open spec fn collected_users(pages: Seq<Seq<u64>>) -> Seq<u64>
    decreases pages.len(),
{
    if pages.len() == 0 {
        Seq::empty()
    } else if page_is_last(pages[0]) {
        pages[0]
    } else {
        pages[0] + collected_users(pages.drop_first())
    }
}

/// The cursor for the next page request: the last user ID of the page.
pub fn next_page_cursor(page: &Vec<u64>) -> (r: Option<u64>)
    ensures
        r == (if page@.len() == 0 {
            None::<u64>
        } else {
            Some(page@.last())
        }),
{
    if page.len() == 0 {
        None
    } else {
        Some(page[page.len() - 1])
    }
}

/// Whether this page ends the walk.
pub fn page_ends_fetch(page: &Vec<u64>) -> (r: bool)
    ensures
        r == page_is_last(page@),
{
    page.len() < PAGE_SIZE
}

/// Accumulates the paginated reacting-user listing for one emoji out of the
/// pages the transport returned: `pages[i]` is what the transport answered to
/// the `i`-th request. Returns all users of the consumed pages, in order, and
/// the number of pages consumed — that is, the number of requests the walk
/// issues. No page after the first short one is consumed.
pub fn fetch_reaction_users(pages: &Vec<Vec<u64>>) -> (r: (Vec<u64>, usize))
    ensures
        r.0@ == collected_users(pages.deep_view()),
        r.1 == pages_consumed(pages.deep_view()),
{
    let ghost all = pages.deep_view();
    let mut out: Vec<u64> = Vec::new();
    let mut i: usize = 0;
    proof {
        assert(all.skip(0) =~= all);
        assert(Seq::<u64>::empty() + collected_users(all) =~= collected_users(all));
    }
    while i < pages.len()
        invariant
            0 <= i <= pages.len(),
            all == pages.deep_view(),
            all.len() == pages.len(),
            forall|k: int| 0 <= k < all.len() ==> all[k] == pages@[k]@,
            collected_users(all) == out@ + collected_users(all.skip(i as int)),
            pages_consumed(all) == i + pages_consumed(all.skip(i as int)),
        decreases pages.len() - i,
    {
        let page = &pages[i];
        let ghost rest = all.skip(i as int);
        let ghost old_out = out@;
        proof {
            assert(rest[0] == page@);
            assert(rest.drop_first() =~= all.skip(i + 1));
        }
        let mut j: usize = 0;
        while j < page.len()
            invariant
                0 <= j <= page.len(),
                out@ == old_out + page@.take(j as int),
            decreases page.len() - j,
        {
            out.push(page[j]);
            proof {
                assert(out@ =~= old_out + page@.take(j + 1));
            }
            j += 1;
        }
        proof {
            assert(page@.take(page@.len() as int) =~= page@);
            assert(out@ == old_out + page@);
        }
        if page_ends_fetch(page) {
            proof {
                assert(pages_consumed(rest) == 1);
                assert(collected_users(rest) == page@);
                assert(pages_consumed(all) == i + 1);
                assert(collected_users(all) == old_out + page@);
            }
            return (out, i + 1);
        }
        proof {
            assert(pages_consumed(rest) == 1 + pages_consumed(all.skip(i + 1)));
            assert(collected_users(rest) == page@ + collected_users(all.skip(i + 1)));
            assert(old_out + (page@ + collected_users(all.skip(i + 1))) =~= (old_out + page@)
                + collected_users(all.skip(i + 1)));
            assert(collected_users(all) == out@ + collected_users(all.skip(i + 1)));
        }
        i += 1;
    }
    proof {
        assert(all.skip(all.len() as int) =~= Seq::<Seq<u64>>::empty());
    }
    (out, i)
}

/// The reacting users of one emoji after pagination and both user filters:
/// the users of the consumed pages, in fetch order, narrowed by the include
/// list and then the exclude list.
pub fn get_filtered_users(
    pages: &Vec<Vec<u64>>,
    include_users: &Vec<u64>,
    exclude_users: &Vec<u64>,
) -> (r: Vec<u64>)
    ensures
        r@ == crate::filters::spec_apply_filters(
            collected_users(pages.deep_view()),
            include_users@,
            exclude_users@,
        ),
{
    let (users, _requests) = fetch_reaction_users(pages);
    crate::filters::apply_filters(&users, include_users, exclude_users)
}

/// Once the walk is past a long page, the rest of the fold is the fold of the
/// remaining pages.
pub proof fn lemma_pager_consumes_minimal(pages: Seq<Seq<u64>>)
    ensures
        pages_consumed(pages) <= pages.len(),
        forall|j: int|
            0 <= j < pages_consumed(pages) - 1 ==> !page_is_last(#[trigger] pages[j]),
        pages_consumed(pages) < pages.len() ==> page_is_last(
            pages[pages_consumed(pages) as int - 1],
        ),
    decreases pages.len(),
{
    if pages.len() > 0 && !page_is_last(pages[0]) {
        lemma_pager_consumes_minimal(pages.drop_first());
        assert forall|j: int|
            0 <= j < pages_consumed(pages) - 1 implies !page_is_last(#[trigger] pages[j]) by {
            if j > 0 {
                assert(pages.drop_first()[j - 1] == pages[j]);
            }
        }
        if pages_consumed(pages) < pages.len() {
            assert(pages.drop_first()[pages_consumed(pages.drop_first()) as int - 1] == pages[
                pages_consumed(pages) as int - 1
            ]);
        }
    }
}

} // verus!
