//! The order in which the queues of pending events are gone through.
use crate::event_loop::event::{append_events, event_views, Event};
use crate::event_loop::prompt::{queue_views, queues_distinct, HatQueue, QueueView};
use crate::text::{
    in_order, lemma_text_order_total, lemma_text_order_transitive, less, text_le, text_less,
};
use vstd::prelude::*;

verus! {

/// Queues in order with another one behind all that it does not come before.
pub open spec fn queue_placed(queues: Seq<QueueView>, queue: QueueView) -> Seq<QueueView>
    decreases queues.len(),
{
    if queues.len() == 0 || !text_less(queue.hat_id, queues.last().hat_id) {
        queues.push(queue)
    } else {
        queue_placed(queues.drop_last(), queue).push(queues.last())
    }
}

/// Queues in the order of the identifiers of their hats.
pub open spec fn by_hat(queues: Seq<QueueView>) -> Seq<QueueView>
    decreases queues.len(),
{
    if queues.len() == 0 {
        queues
    } else {
        queue_placed(by_hat(queues.drop_last()), queues.last())
    }
}

/// The hats that queues belong to.
pub open spec fn queue_hats(queues: Seq<QueueView>) -> Seq<Seq<char>> {
    queues.map_values(|queue: QueueView| queue.hat_id)
}

fn copy_queue(queue: &HatQueue) -> (r: HatQueue)
    ensures
        r.hat_id@ == queue.hat_id@,
        event_views(r.events@) == event_views(queue.events@),
{
    let mut events: Vec<Event> = Vec::new();
    append_events(&mut events, &queue.events);
    assert(event_views(events@) == event_views(queue.events@));
    HatQueue { hat_id: queue.hat_id.clone(), events }
}

fn place_queue(queues: &mut Vec<HatQueue>, queue: HatQueue)
    ensures
        queue_views(final(queues)@) == queue_placed(
            queue_views(old(queues)@),
            QueueView { hat_id: queue.hat_id@, events: event_views(queue.events@) },
        ),
{
    let ghost all = queue_views(queues@);
    let ghost view = QueueView { hat_id: queue.hat_id@, events: event_views(queue.events@) };
    let mut k: usize = queues.len();
    assert(all.take(k as int) == all);
    assert(queue_placed(all.take(k as int), view) + all.skip(k as int) == queue_placed(all, view));
    while k > 0 && less(queue.hat_id.as_str(), queues[k - 1].hat_id.as_str())
        invariant
            k <= queues.len(),
            *queues == *old(queues),
            all == queue_views(queues@),
            view.hat_id == queue.hat_id@,
            queue_placed(all.take(k as int), view) + all.skip(k as int) == queue_placed(all, view),
        decreases k,
    {
        proof {
            let front = all.take(k as int);
            assert(front.last() == all[k - 1]);
            assert(front.drop_last() == all.take(k - 1));
            assert(all.skip(k - 1) == seq![front.last()] + all.skip(k as int));
            assert(queue_placed(all.take(k - 1), view).push(front.last()) + all.skip(k as int)
                == queue_placed(all.take(k - 1), view) + all.skip(k - 1));
        }
        k = k - 1;
    }
    queues.insert(k, queue);
    proof {
        let front = all.take(k as int);
        if k > 0 {
            assert(front.last() == all[k - 1]);
        }
        assert(queue_placed(front, view) == front.push(view));
        assert(queue_views(queues@) == front.push(view) + all.skip(k as int));
    }
}

/// Puts queues into the order of the identifiers of their hats.
pub fn sort_queues(queues: &Vec<HatQueue>) -> (r: Vec<HatQueue>)
    ensures
        queue_views(r@) == by_hat(queue_views(queues@)),
{
    let ghost all = queue_views(queues@);
    let mut r: Vec<HatQueue> = Vec::new();
    let mut i: usize = 0;
    assert(queue_views(r@) == by_hat(all.take(0)));
    while i < queues.len()
        invariant
            i <= queues.len(),
            all == queue_views(queues@),
            queue_views(r@) == by_hat(all.take(i as int)),
        decreases queues.len() - i,
    {
        proof {
            assert(all.take(i + 1).drop_last() == all.take(i as int));
            assert(all.take(i + 1).last() == all[i as int]);
        }
        place_queue(&mut r, copy_queue(&queues[i]));
        i = i + 1;
    }
    assert(all.take(i as int) == all);
    r
}

proof fn lemma_queue_placed(queues: Seq<QueueView>, queue: QueueView)
    requires
        in_order(queue_hats(queues)),
    ensures
        in_order(queue_hats(queue_placed(queues, queue))),
        queue_placed(queues, queue).to_multiset() == queues.to_multiset().insert(queue),
        forall|other: QueueView|
            #[trigger] queue_placed(queues, queue).contains(other) ==> other == queue
                || queues.contains(other),
    decreases queues.len(),
{
    broadcast use vstd::seq_lib::group_to_multiset_ensures;

    let ids = queue_hats(queues);
    if queues.len() == 0 || !text_less(queue.hat_id, queues.last().hat_id) {
        let result = queues.push(queue);
        assert forall|i: int, j: int| 0 <= i < j < result.len() implies text_le(
            #[trigger] queue_hats(result)[i],
            #[trigger] queue_hats(result)[j],
        ) by {
            if j < queues.len() {
                assert(text_le(ids[i], ids[j]));
            } else {
                assert(ids[queues.len() - 1] == queues.last().hat_id);
                if i < queues.len() - 1 {
                    assert(text_le(ids[i], ids[queues.len() - 1]));
                    lemma_text_order_transitive(ids[i], queues.last().hat_id, queue.hat_id);
                }
            }
        }
        vstd::seq_lib::to_multiset_build(queues, queue);
    } else {
        let front = queues.drop_last();
        assert forall|i: int, j: int| 0 <= i < j < front.len() implies text_le(
            #[trigger] queue_hats(front)[i],
            #[trigger] queue_hats(front)[j],
        ) by {
            assert(text_le(ids[i], ids[j]));
        }
        lemma_queue_placed(front, queue);
        let inner = queue_placed(front, queue);
        let result = inner.push(queues.last());
        assert forall|i: int, j: int| 0 <= i < j < result.len() implies text_le(
            #[trigger] queue_hats(result)[i],
            #[trigger] queue_hats(result)[j],
        ) by {
            if j < inner.len() {
                assert(text_le(queue_hats(inner)[i], queue_hats(inner)[j]));
            } else if inner[i] == queue {
                lemma_text_order_total(queue.hat_id, queues.last().hat_id);
            } else {
                assert(inner.contains(inner[i]));
                let k = front.index_of(inner[i]);
                assert(text_le(ids[k], ids[queues.len() - 1]));
            }
        }
        assert forall|other: QueueView| #[trigger] result.contains(other) implies other == queue
            || queues.contains(other) by {
            let i = result.index_of(other);
            if i < inner.len() {
                assert(inner.contains(inner[i]));
                if other != queue {
                    let k = front.index_of(other);
                    assert(queues[k] == other);
                }
            } else {
                assert(queues[queues.len() - 1] == other);
            }
        }
        vstd::seq_lib::to_multiset_build(inner, queues.last());
        vstd::seq_lib::to_multiset_build(front, queues.last());
        assert(front.push(queues.last()) == queues);
        assert(result.to_multiset() == queues.to_multiset().insert(queue));
    }
}

/// The queues come in ascending order of the identifiers of their hats, each of them as often as it
/// is there.
pub proof fn law_queues_come_in_the_order_of_hats(queues: Seq<QueueView>)
    ensures
        in_order(queue_hats(by_hat(queues))),
        by_hat(queues).to_multiset() == queues.to_multiset(),
    decreases queues.len(),
{
    if queues.len() > 0 {
        law_queues_come_in_the_order_of_hats(queues.drop_last());
        lemma_queue_placed(by_hat(queues.drop_last()), queues.last());
        vstd::seq_lib::to_multiset_build(queues.drop_last(), queues.last());
        assert(queues.drop_last().push(queues.last()) == queues);
    }
}

proof fn lemma_by_hat_members(queues: Seq<QueueView>)
    ensures
        forall|queue: QueueView| #[trigger] by_hat(queues).contains(queue) <==> queues.contains(queue),
{
    broadcast use vstd::seq_lib::group_to_multiset_ensures;

    law_queues_come_in_the_order_of_hats(queues);
    let sorted = by_hat(queues);
    assert forall|queue: QueueView| #[trigger] sorted.contains(queue) <==> queues.contains(
        queue,
    ) by {
        assert(sorted.to_multiset().count(queue) > 0 <==> sorted.contains(queue));
        assert(queues.to_multiset().count(queue) > 0 <==> queues.contains(queue));
    }
}

/// Sorting keeps the queues, and keeps that no hat has two of them.
pub proof fn lemma_by_hat(queues: Seq<QueueView>)
    ensures
        forall|queue: QueueView| #[trigger] by_hat(queues).contains(queue) <==> queues.contains(queue),
        queues_distinct(queues) ==> queues_distinct(by_hat(queues)),
{
    lemma_by_hat_members(queues);
    if queues_distinct(queues) {
        lemma_by_hat_distinct(queues);
    }
}

proof fn lemma_by_hat_distinct(queues: Seq<QueueView>)
    requires
        queues_distinct(queues),
    ensures
        queues_distinct(by_hat(queues)),
    decreases queues.len(),
{
    if queues.len() > 0 {
        let front = queues.drop_last();
        lemma_by_hat_distinct(front);
        lemma_by_hat_members(front);
        assert forall|i: int| 0 <= i < by_hat(front).len() implies (#[trigger] by_hat(
            front,
        )[i]).hat_id != queues.last().hat_id by {
            assert(by_hat(front).contains(by_hat(front)[i]));
            let k = front.index_of(by_hat(front)[i]);
            assert(queues[k] == by_hat(front)[i]);
        }
        lemma_placed_distinct(by_hat(front), queues.last());
    }
}

proof fn lemma_placed_distinct(queues: Seq<QueueView>, queue: QueueView)
    requires
        queues_distinct(queues),
        forall|i: int| 0 <= i < queues.len() ==> (#[trigger] queues[i]).hat_id != queue.hat_id,
    ensures
        queues_distinct(queue_placed(queues, queue)),
        forall|i: int|
            0 <= i < queue_placed(queues, queue).len() ==> #[trigger] queue_placed(queues, queue)[i]
                == queue || queues.contains(queue_placed(queues, queue)[i]),
    decreases queues.len(),
{
    let result = queue_placed(queues, queue);
    if queues.len() == 0 || !text_less(queue.hat_id, queues.last().hat_id) {
        assert forall|i: int| 0 <= i < result.len() implies #[trigger] result[i] == queue
            || queues.contains(result[i]) by {
            if i < queues.len() {
                assert(result[i] == queues[i]);
            }
        }
    } else {
        let front = queues.drop_last();
        lemma_placed_distinct(front, queue);
        let inner = queue_placed(front, queue);
        assert forall|i: int| 0 <= i < result.len() implies #[trigger] result[i] == queue
            || queues.contains(result[i]) by {
            if i < inner.len() {
                if inner[i] != queue {
                    assert(front.contains(inner[i]));
                    let k = front.index_of(inner[i]);
                    assert(queues[k] == result[i]);
                }
            } else {
                assert(result[i] == queues[queues.len() - 1]);
            }
        }
        assert forall|i: int, j: int| 0 <= i < j < result.len() implies (
        #[trigger] result[i]).hat_id != (#[trigger] result[j]).hat_id by {
            if j < inner.len() {
                assert(inner[i].hat_id != inner[j].hat_id);
            } else if inner[i] != queue {
                assert(front.contains(inner[i]));
                let k = front.index_of(inner[i]);
                assert(queues[k].hat_id != queues[queues.len() - 1].hat_id);
            } else {
                assert(queues[queues.len() - 1].hat_id != queue.hat_id);
            }
        }
    }
}

/// The order in which queues are handed over does not matter: the same queues, one for each hat, are
/// gone through in the same order.
pub proof fn law_the_order_of_queues_is_deterministic(one: Seq<QueueView>, other: Seq<QueueView>)
    requires
        queues_distinct(one),
        one.to_multiset() == other.to_multiset(),
    ensures
        by_hat(one) == by_hat(other),
{
    law_queues_come_in_the_order_of_hats(one);
    law_queues_come_in_the_order_of_hats(other);
    lemma_by_hat(one);
    lemma_sorted_equal(by_hat(one), by_hat(other));
}

proof fn lemma_sorted_equal(one: Seq<QueueView>, other: Seq<QueueView>)
    requires
        queues_distinct(one),
        in_order(queue_hats(one)),
        in_order(queue_hats(other)),
        one.to_multiset() == other.to_multiset(),
    ensures
        one == other,
    decreases one.len(),
{
    broadcast use vstd::seq_lib::group_to_multiset_ensures;

    assert(one.len() == one.to_multiset().len());
    assert(other.len() == other.to_multiset().len());
    if one.len() > 0 {
        let last = one.last();
        let mine = one.drop_last();
        let yours = other.drop_last();
        assert(one.contains(last));
        assert(other.to_multiset().count(last) > 0);
        assert(other.contains(last));
        let k = other.index_of(last);
        assert(other.contains(other.last()));
        assert(one.to_multiset().count(other.last()) > 0);
        assert(one.contains(other.last()));
        let j = one.index_of(other.last());
        assert(queue_hats(other)[k] == last.hat_id);
        assert(queue_hats(other)[other.len() - 1] == other.last().hat_id);
        assert(queue_hats(one)[j] == other.last().hat_id);
        assert(queue_hats(one)[one.len() - 1] == last.hat_id);
        lemma_text_order_total(last.hat_id, other.last().hat_id);
        if j < one.len() - 1 {
            assert(text_le(queue_hats(one)[j], queue_hats(one)[one.len() - 1]));
            if k < other.len() - 1 {
                assert(text_le(queue_hats(other)[k], queue_hats(other)[other.len() - 1]));
            }
            assert(one[j].hat_id == one[one.len() - 1].hat_id);
            assert(false);
        }
        assert(last == other.last());
        assert(one == mine.push(last));
        assert(other == yours.push(last));
        vstd::seq_lib::to_multiset_build(mine, last);
        vstd::seq_lib::to_multiset_build(yours, last);
        assert(mine.to_multiset() == one.to_multiset().remove(last));
        assert(yours.to_multiset() == other.to_multiset().remove(last));
        assert forall|a: int, b: int| 0 <= a < b < mine.len() implies text_le(
            #[trigger] queue_hats(mine)[a],
            #[trigger] queue_hats(mine)[b],
        ) by {
            assert(text_le(queue_hats(one)[a], queue_hats(one)[b]));
        }
        assert forall|a: int, b: int| 0 <= a < b < yours.len() implies text_le(
            #[trigger] queue_hats(yours)[a],
            #[trigger] queue_hats(yours)[b],
        ) by {
            assert(text_le(queue_hats(other)[a], queue_hats(other)[b]));
        }
        lemma_sorted_equal(mine, yours);
    } else {
        assert(one == other);
    }
}

} // verus!
