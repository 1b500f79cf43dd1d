//! What holds of the task list whatever it contains: a task that was added is
//! listed, and a removal leaves the identifiers without a gap and the tasks in
//! their order.

use crate::list::{
    after_removal, appended, dense_from, first_with_id, has_id, has_text, is_first_with_id,
    lemma_first_with_id_is, renumbered, texts,
};
use crate::shown::{is_stable_order, matching, ordered_by_id, sorted_stably};
use crate::table::inserted;
use crate::task::TaskView;
use crate::text::text_matches;
use vstd::prelude::*;

verus! {

/// After a row was inserted into the table, the table lists its text, lists
/// every text that it listed before, and is still numbered from 1 without a
/// gap if it was so before.
pub proof fn law_inserted_text_is_listed(rows: Seq<TaskView>, text: Seq<char>)
    ensures
        has_text(inserted(rows, text), text),
        forall|other: Seq<char>| has_text(rows, other) ==> has_text(inserted(rows, text), other),
        dense_from(rows, 1) ==> dense_from(inserted(rows, text), 1),
{
    let after = inserted(rows, text);
    assert(after[rows.len() as int].text == text);
    assert forall|other: Seq<char>| has_text(rows, other) implies has_text(after, other) by {
        let i = choose|i: int| 0 <= i < rows.len() && #[trigger] rows[i].text == other;
        assert(after[i].text == other);
    }
}

/// After a task was appended to a list, the list holds its text and every
/// text that it held before, and is still numbered from 0 without a gap if it
/// was so before.
pub proof fn law_appended_text_is_listed(list: Seq<TaskView>, text: Seq<char>)
    ensures
        has_text(appended(list, text), text),
        forall|other: Seq<char>| has_text(list, other) ==> has_text(appended(list, text), other),
        dense_from(list, 0) ==> dense_from(appended(list, text), 0),
{
    let after = appended(list, text);
    assert(after[list.len() as int].text == text);
    assert forall|other: Seq<char>| has_text(list, other) implies has_text(after, other) by {
        let i = choose|i: int| 0 <= i < list.len() && #[trigger] list[i].text == other;
        assert(after[i].text == other);
    }
}

/// Numbering anew changes no text and leaves no gap.
pub proof fn law_renumbering_is_dense(list: Seq<TaskView>, first: nat)
    ensures
        dense_from(renumbered(list, first), first),
        texts(renumbered(list, first)) == texts(list),
        dense_from(list, first) ==> renumbered(list, first) == list,
{
    assert(texts(renumbered(list, first)) =~= texts(list));
    if dense_from(list, first) {
        assert forall|i: int| 0 <= i < list.len() implies renumbered(list, first)[i] == list[i] by {
            assert(list[i].id == first + i);
        }
        assert(renumbered(list, first) =~= list);
    }
}

/// A removal that finds its task takes exactly that task away: one task
/// fewer, the other texts in the order that they had, and identifiers that
/// count up from `first` without a gap.
pub proof fn law_removal_leaves_no_gap(list: Seq<TaskView>, id: nat, first: nat)
    requires
        has_id(list, id),
    ensures
        after_removal(list, id, first).len() == list.len() - 1,
        dense_from(after_removal(list, id, first), first),
        texts(after_removal(list, id, first)) == texts(list).remove(first_with_id(list, id)),
{
    let i = choose|i: int| 0 <= i < list.len() && #[trigger] list[i].id == id;
    lemma_some_place_is_first(list, id, i);
    let p = first_with_id(list, id);
    assert(is_first_with_id(list, id, p));
    assert(texts(after_removal(list, id, first)) =~= texts(list).remove(p));
}

/// A removal that finds no task with the identifier changes nothing.
pub proof fn law_removal_of_unknown_id(list: Seq<TaskView>, id: nat, first: nat)
    requires
        !has_id(list, id),
    ensures
        after_removal(list, id, first) == list,
{
}

/// In a list without gaps, the identifier of a removed task is in use
/// afterwards exactly when a task stood behind the removed one, which then
/// took the identifier over. So the identifier of the last task is free once
/// that task has been removed.
pub proof fn law_removed_id_is_reused_by_next(list: Seq<TaskView>, id: nat, first: nat)
    requires
        dense_from(list, first),
    ensures
        has_id(after_removal(list, id, first), id) <==> has_id(list, id) && has_id(list, id + 1),
{
    let after = after_removal(list, id, first);
    if has_id(list, id) {
        law_removal_leaves_no_gap(list, id, first);
        if has_id(list, id + 1) {
            let i = choose|i: int| 0 <= i < list.len() && #[trigger] list[i].id == id + 1;
            assert(after[i - 1].id == id);
        }
        if has_id(after, id) {
            let i = choose|i: int| 0 <= i < after.len() && #[trigger] after[i].id == id;
            assert(list[i + 1].id == id + 1);
        }
    }
}

/// Removing the row that was inserted last gives the table back as it was
/// before the insert.
pub proof fn law_removal_undoes_insert(rows: Seq<TaskView>, text: Seq<char>)
    requires
        dense_from(rows, 1),
    ensures
        after_removal(inserted(rows, text), rows.len() + 1, 1) == rows,
{
    let grown = inserted(rows, text);
    let id = rows.len() + 1;
    assert(grown[rows.len() as int].id == id);
    assert(is_first_with_id(grown, id, rows.len() as int)) by {
        assert forall|j: int| 0 <= j < rows.len() implies #[trigger] grown[j].id != id by {
            assert(rows[j].id == 1 + j);
        }
    }
    lemma_first_with_id_is(grown, id, rows.len() as int);
    assert(grown.remove(rows.len() as int) =~= rows);
    law_renumbering_is_dense(rows, 1);
}

/// Among the places that hold an identifier, one is the first.
proof fn lemma_some_place_is_first(list: Seq<TaskView>, id: nat, i: int)
    requires
        0 <= i < list.len(),
        list[i].id == id,
    ensures
        is_first_with_id(list, id, first_with_id(list, id)),
    decreases i,
{
    if exists|j: int| 0 <= j < i && list[j].id == id {
        let j = choose|j: int| 0 <= j < i && list[j].id == id;
        lemma_some_place_is_first(list, id, j);
    } else {
        assert(is_first_with_id(list, id, i));
    }
}

/// A stably sorted list never goes down in its identifiers.
pub proof fn law_sorted_is_ordered(list: Seq<TaskView>, sorted: Seq<TaskView>)
    requires
        sorted_stably(list, sorted),
    ensures
        ordered_by_id(sorted),
        sorted.len() == list.len(),
{
    let order = choose|order: Seq<int>| is_stable_order(order, list, sorted);
    assert forall|a: int, b: int| 0 <= a < b < sorted.len() implies sorted[a].id <= sorted[b].id by {
        assert(sorted[a].id < sorted[b].id || (sorted[a].id == sorted[b].id && order[a] < order[b]));
    }
}

/// A stable order is a rearrangement: every place of the list is named by it.
proof fn lemma_order_names_every_place(
    order: Seq<int>,
    list: Seq<TaskView>,
    sorted: Seq<TaskView>,
    m: int,
)
    requires
        is_stable_order(order, list, sorted),
        0 <= m < list.len(),
    ensures
        exists|a: int| 0 <= a < order.len() && order[a] == m,
{
    let n = list.len() as int;
    assert forall|a: int, b: int| 0 <= a < order.len() && 0 <= b < order.len() && a != b implies order[a]
        != order[b] by {
        if a < b {
            assert(sorted[a].id < sorted[b].id || (sorted[a].id == sorted[b].id && order[a] < order[b]));
        } else {
            assert(sorted[b].id < sorted[a].id || (sorted[b].id == sorted[a].id && order[b] < order[a]));
        }
    }
    assert(order.no_duplicates());
    order.unique_seq_to_set();
    vstd::set_lib::lemma_int_range(0, n);
    let named = order.to_set();
    let places = vstd::set_lib::set_int_range(0, n);
    assert forall|v: int| named.contains(v) implies places.contains(v) by {
        let a = choose|a: int| 0 <= a < order.len() && order[a] == v;
        assert(0 <= order[a] < list.len());
    }
    assert(named.subset_of(places));
    vstd::set_lib::lemma_len_subset(named, places);
    vstd::set_lib::lemma_subset_equality(named, places);
    assert(places.contains(m));
    assert(named.contains(m));
    assert(order.contains(m));
}

/// Two stable orders of one list agree at every place.
proof fn lemma_stable_orders_agree(
    p: Seq<int>,
    q: Seq<int>,
    list: Seq<TaskView>,
    s1: Seq<TaskView>,
    s2: Seq<TaskView>,
    a: int,
)
    requires
        is_stable_order(p, list, s1),
        is_stable_order(q, list, s2),
        0 <= a < list.len(),
    ensures
        p[a] == q[a],
    decreases a,
{
    assert forall|c: int| 0 <= c < a implies p[c] == q[c] by {
        lemma_stable_orders_agree(p, q, list, s1, s2, c);
    }
    if p[a] != q[a] {
        assert(0 <= p[a] < list.len());
        assert(0 <= q[a] < list.len());
        lemma_order_names_every_place(q, list, s2, p[a]);
        let b = choose|b: int| 0 <= b < q.len() && q[b] == p[a];
        lemma_order_names_every_place(p, list, s1, q[a]);
        let c = choose|c: int| 0 <= c < p.len() && p[c] == q[a];
        assert(s1[a] == list[p[a]] && s2[a] == list[q[a]]);
        assert(s2[b] == list[q[b]] && s1[c] == list[p[c]]);
        if b < a {
            assert(p[b] == q[b]);
            assert(s1[b].id < s1[a].id || (s1[b].id == s1[a].id && p[b] < p[a]));
            assert(s1[b] == list[p[b]]);
        } else if c < a {
            assert(p[c] == q[c]);
            assert(s2[c].id < s2[a].id || (s2[c].id == s2[a].id && q[c] < q[a]));
            assert(s2[c] == list[q[c]]);
        } else {
            assert(s2[a].id < s2[b].id || (s2[a].id == s2[b].id && q[a] < q[b]));
            assert(s1[a].id < s1[c].id || (s1[a].id == s1[c].id && p[a] < p[c]));
        }
    }
}

/// Sorting stably has one result: two lists that are both a stable sorting
/// of one list are equal.
pub proof fn law_stable_sorting_is_unique(list: Seq<TaskView>, s1: Seq<TaskView>, s2: Seq<TaskView>)
    requires
        sorted_stably(list, s1),
        sorted_stably(list, s2),
    ensures
        s1 == s2,
{
    let p = choose|order: Seq<int>| is_stable_order(order, list, s1);
    let q = choose|order: Seq<int>| is_stable_order(order, list, s2);
    assert forall|a: int| 0 <= a < s1.len() implies s1[a] == s2[a] by {
        lemma_stable_orders_agree(p, q, list, s1, s2, a);
        assert(0 <= p[a] < list.len() && s1[a] == list[p[a]]);
        assert(0 <= q[a] < list.len() && s2[a] == list[q[a]]);
    }
    assert(s1 =~= s2);
}

/// A stable sorting keeps every task: each task of the list stands at some
/// place of the sorted list.
pub proof fn law_sorting_keeps_every_task(list: Seq<TaskView>, sorted: Seq<TaskView>, m: int)
    requires
        sorted_stably(list, sorted),
        0 <= m < list.len(),
    ensures
        exists|a: int| 0 <= a < sorted.len() && sorted[a] == list[m],
{
    let order = choose|order: Seq<int>| is_stable_order(order, list, sorted);
    lemma_order_names_every_place(order, list, sorted, m);
    let a = choose|a: int| 0 <= a < order.len() && order[a] == m;
    assert(0 <= order[a] < list.len() && sorted[a] == list[order[a]]);
}

/// What the board shows for a search is what matches it: every task shown
/// is a task of the list whose text matches the search, and every task of
/// the list whose text matches the search is shown.
pub proof fn law_shown_are_the_matching_tasks(
    list: Seq<TaskView>,
    search: Seq<char>,
    shown: Seq<TaskView>,
)
    requires
        sorted_stably(matching(list, search), shown),
    ensures
        forall|a: int|
            0 <= a < shown.len() ==> text_matches((#[trigger] shown[a]).text, search)
                && list.contains(shown[a]),
        forall|m: int|
            0 <= m < list.len() && text_matches((#[trigger] list[m]).text, search)
                ==> shown.contains(list[m]),
{
    let pred = |t: TaskView| text_matches(t.text, search);
    let kept = list.filter(pred);
    assert(kept == matching(list, search));
    let order = choose|order: Seq<int>| is_stable_order(order, kept, shown);
    assert forall|a: int| 0 <= a < shown.len() implies text_matches(
        (#[trigger] shown[a]).text,
        search,
    ) && list.contains(shown[a]) by {
        assert(0 <= order[a] < kept.len() && shown[a] == kept[order[a]]);
        list.lemma_filter_pred(pred, order[a]);
        assert(kept.contains(kept[order[a]]));
        list.lemma_filter_contains_rev(pred, kept[order[a]]);
    }
    assert forall|m: int|
        0 <= m < list.len() && text_matches((#[trigger] list[m]).text, search) implies shown.contains(
        list[m],
    ) by {
        list.lemma_filter_contains(pred, m);
        let i = choose|i: int| 0 <= i < kept.len() && kept[i] == list[m];
        law_sorting_keeps_every_task(kept, shown, i);
    }
}

} // verus!
