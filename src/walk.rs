//! What a whole closing walk does: the actions that a closer hands out from the
//! moment it lists open items, when the driver confirms every close and answers
//! every `FetchNext` with the next page.
use vstd::prelude::*;

use crate::session::{advance, receive_page, ActionView, CloserView, ItemView, PageView, Phase};
use crate::text::log_line_of;

verus! {

/// The actions handed out from `m` while `pages` are the pages still to come.
pub open spec fn walk(m: CloserView, pages: Seq<PageView>) -> Seq<ActionView>
    decreases pages.len(), m.listed.len() - m.closed, if m.phase == Phase::Closing { 1int } else { 0int },
{
    if m.closed > m.listed.len() {
        Seq::empty()
    } else if m.phase == Phase::Listing {
        if pages.len() == 0 {
            Seq::empty()
        } else {
            let (m2, a) = receive_page(m, pages[0].items, pages[0].has_next);
            seq![a] + walk(m2, pages.drop_first())
        }
    } else if m.phase == Phase::Closing {
        let (m2, a) = advance(m);
        seq![a] + walk(m2, pages)
    } else {
        Seq::empty()
    }
}

/// One `Close` per item, in order, counted on from `start`.
pub open spec fn close_actions(items: Seq<ItemView>, start: nat) -> Seq<ActionView> {
    Seq::new(
        items.len(),
        |k: int|
            ActionView::Close {
                number: items[k].number,
                line: log_line_of(
                    (start + k + 1) as nat,
                    items[k].number,
                    items[k].pull_request,
                    items[k].title,
                ),
            },
    )
}

/// The walk over `pages` written out: each page's items closed in order with a
/// counter that runs on across pages, then `FetchNext` where the page points to
/// another, or `Finished` where it does not.
pub open spec fn listed_walk(pages: Seq<PageView>, start: nat) -> Seq<ActionView>
    decreases pages.len(),
{
    if pages.len() == 0 {
        Seq::empty()
    } else {
        close_actions(pages[0].items, start) + if pages[0].has_next {
            seq![ActionView::FetchNext] + listed_walk(pages.drop_first(), start + pages[0].items.len())
        } else {
            seq![ActionView::Finished]
        }
    }
}

proof fn lemma_listing(m: CloserView, pages: Seq<PageView>)
    requires
        m.phase == Phase::Listing,
        m.closed == m.listed.len(),
    ensures
        walk(m, pages) == listed_walk(pages, m.closed),
    decreases pages.len(), 0int, 0int,
{
    if pages.len() > 0 {
        let m1 = CloserView { listed: m.listed + pages[0].items, has_next: pages[0].has_next, ..m };
        lemma_draining(m1, pages.drop_first());
        assert(m1.listed.skip(m1.closed as int) =~= pages[0].items);
    }
}

proof fn lemma_draining(m: CloserView, pages: Seq<PageView>)
    requires
        m.closed <= m.listed.len(),
    ensures
        seq![advance(m).1] + walk(advance(m).0, pages) == close_actions(m.listed.skip(m.closed as int), m.closed)
            + if m.has_next {
                seq![ActionView::FetchNext] + listed_walk(pages, m.listed.len())
            } else {
                seq![ActionView::Finished]
            },
    decreases pages.len(), m.listed.len() - m.closed, 1int,
{
    let (m2, a) = advance(m);
    let rest = m.listed.skip(m.closed as int);
    if m.closed < m.listed.len() {
        lemma_draining(m2, pages);
        assert(walk(m2, pages) == seq![advance(m2).1] + walk(advance(m2).0, pages));
        let rest2 = m2.listed.skip(m2.closed as int);
        assert(close_actions(rest, m.closed) =~= seq![a] + close_actions(rest2, m2.closed));
    } else {
        assert(close_actions(rest, m.closed) =~= Seq::empty());
        if m.has_next {
            lemma_listing(m2, pages);
        }
    }
}

/// A walk hands out exactly what [`listed_walk`] writes out, whatever the pages
/// hold: every item is closed once, in the order the listing gave, with a
/// counter that starts at one and grows by one per item; a page that points to
/// another is followed by `FetchNext`, and the first that does not ends the
/// walk with `Finished`.
pub proof fn lemma_walk_follows_listing(m: CloserView, pages: Seq<PageView>)
    requires
        m.phase == Phase::Listing,
        m.listed.len() == 0,
        m.closed == 0,
    ensures
        walk(m, pages) == listed_walk(pages, 0),
{
    lemma_listing(m, pages);
}

/// The numbers of the items that `actions` close, in order.
pub open spec fn closed_numbers(actions: Seq<ActionView>) -> Seq<nat>
    decreases actions.len(),
{
    if actions.len() == 0 {
        Seq::empty()
    } else {
        let before = closed_numbers(actions.drop_last());
        match actions.last() {
            ActionView::Close { number, line: _ } => before.push(number),
            _ => before,
        }
    }
}

/// How many of `actions` ask for a further page.
pub open spec fn fetch_count(actions: Seq<ActionView>) -> nat
    decreases actions.len(),
{
    if actions.len() == 0 {
        0
    } else {
        fetch_count(actions.drop_last()) + if actions.last() is FetchNext { 1nat } else { 0nat }
    }
}

pub open spec fn numbers(items: Seq<ItemView>) -> Seq<nat> {
    items.map_values(|i: ItemView| i.number)
}

/// Every item of every page, in the listing's order.
pub open spec fn all_items(pages: Seq<PageView>) -> Seq<ItemView> {
    pages.map_values(|p: PageView| p.items).flatten()
}

/// A whole listing: every page but the last points to a next one, and the
/// last points to none.
pub open spec fn complete(pages: Seq<PageView>) -> bool {
    &&& pages.len() > 0
    &&& forall|i: int| 0 <= i < pages.len() - 1 ==> (#[trigger] pages[i]).has_next
    &&& !pages.last().has_next
}

proof fn lemma_closed_numbers_add(a: Seq<ActionView>, b: Seq<ActionView>)
    ensures
        closed_numbers(a + b) == closed_numbers(a) + closed_numbers(b),
        fetch_count(a + b) == fetch_count(a) + fetch_count(b),
    decreases b.len(),
{
    if b.len() == 0 {
        assert(a + b =~= a);
        assert(closed_numbers(a) + closed_numbers(b) =~= closed_numbers(a));
    } else {
        lemma_closed_numbers_add(a, b.drop_last());
        assert((a + b).drop_last() =~= a + b.drop_last());
        assert((a + b).last() == b.last());
        match b.last() {
            ActionView::Close { number, line: _ } => {
                assert(closed_numbers(a) + closed_numbers(b) =~= (closed_numbers(a) + closed_numbers(b.drop_last())).push(number));
            },
            _ => {},
        }
    }
}

proof fn lemma_step_action(a: ActionView)
    requires
        a is FetchNext || a is Finished,
    ensures
        closed_numbers(seq![a]) == Seq::<nat>::empty(),
        fetch_count(seq![a]) == if a is FetchNext { 1nat } else { 0nat },
{
    let s = seq![a];
    assert(s.drop_last() =~= Seq::<ActionView>::empty());
    assert(s.last() == a);
    assert(closed_numbers(s.drop_last()) == Seq::<nat>::empty());
    assert(fetch_count(s.drop_last()) == 0);
}

proof fn lemma_close_actions(items: Seq<ItemView>, start: nat)
    ensures
        closed_numbers(close_actions(items, start)) == numbers(items),
        fetch_count(close_actions(items, start)) == 0,
    decreases items.len(),
{
    if items.len() == 0 {
        assert(numbers(items) =~= Seq::empty());
    } else {
        lemma_close_actions(items.drop_last(), start);
        assert(close_actions(items, start).drop_last() =~= close_actions(items.drop_last(), start));
        assert(numbers(items) =~= numbers(items.drop_last()).push(items.last().number));
    }
}

proof fn lemma_listed_walk(pages: Seq<PageView>, start: nat)
    requires
        complete(pages),
    ensures
        closed_numbers(listed_walk(pages, start)) == numbers(all_items(pages)),
        fetch_count(listed_walk(pages, start)) == pages.len() - 1,
        listed_walk(pages, start).last() is Finished,
    decreases pages.len(),
{
    let items = pages[0].items;
    let head = close_actions(items, start);
    lemma_close_actions(items, start);
    assert(pages.map_values(|p: PageView| p.items) =~= seq![items] + pages.drop_first().map_values(|p: PageView| p.items));
    assert(all_items(pages) == items + all_items(pages.drop_first())) by {
        let nested = pages.map_values(|p: PageView| p.items);
        assert(nested.drop_first() =~= pages.drop_first().map_values(|p: PageView| p.items));
    }
    assert(numbers(all_items(pages)) =~= numbers(items) + numbers(all_items(pages.drop_first())));
    if pages[0].has_next {
        let rest = pages.drop_first();
        assert(complete(rest)) by {
            assert forall|i: int| 0 <= i < rest.len() - 1 implies (#[trigger] rest[i]).has_next by {
                assert(rest[i] == pages[i + 1]);
            }
        }
        let tail = listed_walk(rest, start + items.len());
        lemma_listed_walk(rest, start + items.len());
        lemma_closed_numbers_add(seq![ActionView::FetchNext], tail);
        lemma_closed_numbers_add(head, seq![ActionView::FetchNext] + tail);
        lemma_step_action(ActionView::FetchNext);
    } else {
        assert(pages.len() == 1);
        assert(pages.drop_first() =~= Seq::empty());
        assert(all_items(pages.drop_first()) =~= Seq::empty()) by {
            assert(pages.drop_first().map_values(|p: PageView| p.items) =~= Seq::<Seq<ItemView>>::empty());
        }
        lemma_closed_numbers_add(head, seq![ActionView::Finished]);
        lemma_step_action(ActionView::Finished);
        assert(numbers(all_items(pages)) =~= numbers(items));
    }
}

/// Over a whole listing, a walk closes every listed item, each once and in the
/// listing's order, and ends with `Finished`.
pub proof fn lemma_walk_closes_every_item(m: CloserView, pages: Seq<PageView>)
    requires
        m.phase == Phase::Listing,
        m.listed.len() == 0,
        m.closed == 0,
        complete(pages),
    ensures
        closed_numbers(walk(m, pages)) == numbers(all_items(pages)),
        walk(m, pages).last() is Finished,
{
    lemma_walk_follows_listing(m, pages);
    lemma_listed_walk(pages, 0);
}

/// Over a whole listing, a walk asks for one page fewer than the listing has:
/// never for a page after the one that points to none.
pub proof fn lemma_walk_fetches_each_next_page(m: CloserView, pages: Seq<PageView>)
    requires
        m.phase == Phase::Listing,
        m.listed.len() == 0,
        m.closed == 0,
        complete(pages),
    ensures
        fetch_count(walk(m, pages)) == pages.len() - 1,
{
    lemma_walk_follows_listing(m, pages);
    lemma_listed_walk(pages, 0);
}

proof fn lemma_empty_pages(pages: Seq<PageView>, start: nat)
    requires
        forall|i: int| 0 <= i < pages.len() ==> (#[trigger] pages[i]).items.len() == 0,
    ensures
        closed_numbers(listed_walk(pages, start)) == Seq::<nat>::empty(),
    decreases pages.len(),
{
    if pages.len() > 0 {
        let items = pages[0].items;
        lemma_close_actions(items, start);
        assert(numbers(items) =~= Seq::empty());
        let last = if pages[0].has_next {
            let rest = pages.drop_first();
            assert forall|i: int| 0 <= i < rest.len() implies (#[trigger] rest[i]).items.len() == 0 by {
                assert(rest[i] == pages[i + 1]);
            }
            lemma_empty_pages(rest, start + items.len());
            lemma_closed_numbers_add(seq![ActionView::FetchNext], listed_walk(rest, start + items.len()));
            lemma_step_action(ActionView::FetchNext);
            seq![ActionView::FetchNext] + listed_walk(rest, start + items.len())
        } else {
            lemma_step_action(ActionView::Finished);
            seq![ActionView::Finished]
        };
        lemma_closed_numbers_add(close_actions(items, start), last);
    }
}

/// A run against a repository with no open item left, such as a second run
/// right after a successful one, closes nothing.
pub proof fn lemma_rerun_closes_nothing(m: CloserView, pages: Seq<PageView>)
    requires
        m.phase == Phase::Listing,
        m.listed.len() == 0,
        m.closed == 0,
        forall|i: int| 0 <= i < pages.len() ==> (#[trigger] pages[i]).items.len() == 0,
    ensures
        closed_numbers(walk(m, pages)) == Seq::<nat>::empty(),
{
    lemma_walk_follows_listing(m, pages);
    lemma_empty_pages(pages, 0);
}

} // verus!
