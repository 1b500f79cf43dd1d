//! What the task list shows: the tasks that match the search, ordered by their
//! identifiers.

use crate::list::model;
use crate::task::{Task, TaskView};
use crate::text::{matches_search, text_matches};
use vstd::prelude::*;

verus! {

/// The tasks of the list whose text matches the search, in the order in which
/// they stand in the list.
pub open spec fn matching(list: Seq<TaskView>, search: Seq<char>) -> Seq<TaskView> {
    list.filter(|t: TaskView| text_matches(t.text, search))
}

/// The identifiers never go down along the list.
pub open spec fn ordered_by_id(list: Seq<TaskView>) -> bool {
    forall|a: int, b: int| 0 <= a < b < list.len() ==> list[a].id <= list[b].id
}

/// `order` names, for each place of `sorted`, the place of `list` that its task
/// came from: every task of `sorted` is one of `list`, a smaller identifier
/// comes first, and of two tasks with one identifier the one that stood first
/// in `list` comes first.
pub open spec fn is_stable_order(order: Seq<int>, list: Seq<TaskView>, sorted: Seq<TaskView>) -> bool {
    &&& order.len() == list.len()
    &&& sorted.len() == list.len()
    &&& forall|a: int|
        0 <= a < order.len() ==> 0 <= #[trigger] order[a] < list.len() && sorted[a] == list[order[a]]
    &&& forall|a: int, b: int|
        #![trigger sorted[a], sorted[b]]
        0 <= a < b < order.len() ==> sorted[a].id < sorted[b].id || (sorted[a].id == sorted[b].id
            && order[a] < order[b])
}

/// `sorted` holds the tasks of `list`, each once, ordered by identifier, and
/// tasks with one identifier in the order that they have in `list`.
pub open spec fn sorted_stably(list: Seq<TaskView>, sorted: Seq<TaskView>) -> bool {
    exists|order: Seq<int>| is_stable_order(order, list, sorted)
}

/// The tasks of the list whose text matches the search, whatever the case of
/// the letters, in the order in which they stand in the list.
pub fn filter_matching(list: &Vec<Task>, search: &str) -> (kept: Vec<Task>)
    ensures
        model(kept@) == matching(model(list@), search@),
{
    let mut kept: Vec<Task> = Vec::new();
    let mut i: usize = 0;
    assert(model(list@).subrange(0, 0) =~= Seq::<TaskView>::empty());
    assert(model(kept@) =~= matching(Seq::<TaskView>::empty(), search@)) by {
        reveal(Seq::filter);
    }
    while i < list.len()
        invariant
            i <= list.len(),
            model(kept@) == matching(model(list@).subrange(0, i as int), search@),
        decreases list.len() - i,
    {
        let ghost before = model(kept@);
        let ghost head = model(list@).subrange(0, i as int);
        let ghost next = model(list@).subrange(0, i + 1);
        assert(next.drop_last() =~= head);
        assert(next.last() == list@[i as int]@);
        assert(matching(next, search@) == if text_matches(list@[i as int]@.text, search@) {
            before.push(list@[i as int]@)
        } else {
            before
        }) by {
            reveal(Seq::filter);
        }
        if matches_search(list[i].task.as_str(), search) {
            kept.push(list[i].clone());
            assert(model(kept@) =~= before.push(list@[i as int]@));
        }
        i += 1;
    }
    assert(model(list@).subrange(0, list@.len() as int) =~= model(list@));
    kept
}

/// The tasks of the list ordered by identifier; tasks with one identifier keep
/// the order in which they stand in the list.
pub fn sort_by_id(list: &Vec<Task>) -> (sorted: Vec<Task>)
    ensures
        sorted_stably(model(list@), model(sorted@)),
{
    let mut sorted: Vec<Task> = Vec::new();
    let ghost mut order: Seq<int> = Seq::empty();
    let mut k: usize = 0;
    while k < list.len()
        invariant
            k <= list.len(),
            sorted@.len() == k,
            is_stable_order(order, model(list@).subrange(0, k as int), model(sorted@)),
        decreases list.len() - k,
    {
        let id = list[k].id;
        let mut j: usize = sorted.len();
        while j > 0 && sorted[j - 1].id > id
            invariant
                j <= sorted@.len(),
                forall|b: int| j <= b < sorted@.len() ==> (#[trigger] sorted@[b]).id > id,
            decreases j,
        {
            j -= 1;
        }
        let ghost before = model(sorted@);
        let ghost before_order = order;
        assert forall|a: int| 0 <= a < j implies (#[trigger] before[a]).id <= id by {
            assert(before[j - 1] == sorted@[j - 1]@);
            if a < j - 1 {
                assert(before[a].id <= before[j - 1].id);
            }
        }
        assert forall|b: int| j <= b < before.len() implies (#[trigger] before[b]).id > id by {
            assert(before[b] == sorted@[b]@);
        }
        sorted.insert(j, list[k].clone());
        proof {
            order = order.insert(j as int, k as int);
            let now = model(sorted@);
            let head = model(list@).subrange(0, k + 1);
            assert(now =~= before.insert(j as int, list@[k as int]@));
            assert forall|a: int| 0 <= a < order.len() implies 0 <= #[trigger] order[a] < head.len()
                && now[a] == head[order[a]] by {
                if a < j {
                    assert(order[a] == before_order[a]);
                } else if a > j {
                    assert(order[a] == before_order[a - 1]);
                }
            }
            assert forall|a: int, b: int|
                #![trigger now[a], now[b]]
                0 <= a < b < order.len() implies now[a].id < now[b].id || (now[a].id == now[b].id
                && order[a] < order[b]) by {
                let pa = if a < j { a } else { a - 1 };
                let pb = if b < j { b } else { b - 1 };
                if a != j && b != j {
                    assert(order[a] == before_order[pa]);
                    assert(order[b] == before_order[pb]);
                    assert(now[a] == before[pa]);
                    assert(now[b] == before[pb]);
                } else if a == j {
                    assert(now[b] == before[pb]);
                } else {
                    assert(order[a] == before_order[pa]);
                    assert(now[a] == before[pa]);
                    assert(0 <= before_order[pa] < k);
                }
            }
        }
        k += 1;
    }
    assert(model(list@).subrange(0, list@.len() as int) =~= model(list@));
    sorted
}

/// The tasks to show for a search: those whose text matches it, ordered by
/// identifier.
pub fn visible_tasks(list: &Vec<Task>, search: &str) -> (shown: Vec<Task>)
    ensures
        sorted_stably(matching(model(list@), search@), model(shown@)),
{
    let kept = filter_matching(list, search);
    sort_by_id(&kept)
}

} // verus!
