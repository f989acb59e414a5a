//! Proved laws of the diff engine, stated over its mathematical model.

use vstd::prelude::*;

use crate::diff::{
    addition_updates, diff_updates, entry_updates, find_by_id, lemma_find_by_id_spec,
    lemma_find_present, match_updates, removal_updates,
};
use crate::workspace::{distinct_ids, has_id, UpdateModel, WorkspaceModel};

verus! {

/// How many elements of `s` satisfy `p`.
pub open spec fn count_matching<T>(s: Seq<T>, p: spec_fn(T) -> bool) -> nat
    decreases s.len(),
{
    if s.len() == 0 {
        0
    } else {
        count_matching(s.drop_last(), p) + (if p(s.last()) {
            1nat
        } else {
            0nat
        })
    }
}

/// Whether an update is an addition of an entity carrying `id`.
pub open spec fn add_matcher(id: i64) -> spec_fn(UpdateModel) -> bool {
    |u: UpdateModel| u matches UpdateModel::Add(w) && w.id == id
}

/// Whether an update is a removal of `id`.
pub open spec fn remove_matcher(id: i64) -> spec_fn(UpdateModel) -> bool {
    |u: UpdateModel| u matches UpdateModel::Remove(rid) && rid == id
}

/// Whether an entity carries `id`.
pub open spec fn id_matcher(id: i64) -> spec_fn(WorkspaceModel) -> bool {
    |w: WorkspaceModel| w.id == id
}

/// Number of `Add` updates for `id` in an update sequence.
pub open spec fn count_adds(us: Seq<UpdateModel>, id: i64) -> nat {
    count_matching(us, add_matcher(id))
}

/// Number of `Remove` updates for `id` in an update sequence.
pub open spec fn count_removes(us: Seq<UpdateModel>, id: i64) -> nat {
    count_matching(us, remove_matcher(id))
}

/// Number of entities carrying `id` in an entity list.
pub open spec fn count_id(s: Seq<WorkspaceModel>, id: i64) -> nat {
    count_matching(s, id_matcher(id))
}

proof fn lemma_count_concat<T>(a: Seq<T>, b: Seq<T>, p: spec_fn(T) -> bool)
    ensures
        count_matching(a + b, p) == count_matching(a, p) + count_matching(b, p),
    decreases b.len(),
{
    if b.len() == 0 {
        assert(a + b =~= a);
        assert(count_matching(b, p) == 0);
    } else {
        assert((a + b).drop_last() =~= a + b.drop_last());
        assert((a + b).last() == b.last());
        lemma_count_concat(a, b.drop_last(), p);
    }
}

proof fn lemma_count_singleton<T>(x: T, p: spec_fn(T) -> bool)
    ensures
        count_matching(seq![x], p) == (if p(x) {
            1nat
        } else {
            0nat
        }),
{
    assert(seq![x].drop_last() =~= Seq::<T>::empty());
    assert(seq![x].last() == x);
    assert(count_matching(Seq::<T>::empty(), p) == 0);
}

proof fn lemma_count_pos<T>(s: Seq<T>, p: spec_fn(T) -> bool)
    ensures
        (count_matching(s, p) > 0) <==> (exists|i: int| 0 <= i < s.len() && p(s[i])),
    decreases s.len(),
{
    if s.len() == 0 {
    } else {
        let d = s.drop_last();
        lemma_count_pos(d, p);
        assert(forall|i: int| 0 <= i < d.len() ==> d[i] == s[i]);
        if count_matching(s, p) > 0 {
            if p(s.last()) {
                assert(p(s[s.len() - 1]));
            } else {
                let i = choose|i: int| 0 <= i < d.len() && p(d[i]);
                assert(p(s[i]));
            }
        }
        if exists|i: int| 0 <= i < s.len() && p(s[i]) {
            let i = choose|i: int| 0 <= i < s.len() && p(s[i]);
            if i == s.len() - 1 {
                assert(p(s.last()));
            } else {
                assert(p(d[i]));
            }
        }
    }
}

proof fn lemma_count_id_distinct(s: Seq<WorkspaceModel>, id: i64)
    requires
        distinct_ids(s),
        has_id(s, id),
    ensures
        count_id(s, id) == 1,
    decreases s.len(),
{
    let d = s.drop_last();
    assert(forall|i: int| 0 <= i < d.len() ==> d[i] == s[i]);
    assert(distinct_ids(d));
    if s.last().id == id {
        assert(forall|i: int| 0 <= i < d.len() ==> d[i].id != id);
        lemma_count_pos(d, id_matcher(id));
        assert(count_id(d, id) == 0);
    } else {
        let i = choose|i: int| 0 <= i < s.len() && s[i].id == id;
        assert(i != s.len() - 1);
        assert(d[i].id == id);
        lemma_count_id_distinct(d, id);
    }
}

proof fn lemma_match_updates_counts(old_w: WorkspaceModel, new_w: WorkspaceModel, id: i64)
    ensures
        count_adds(match_updates(old_w, new_w), id) == 0,
        count_removes(match_updates(old_w, new_w), id) == 0,
{
    let a = if old_w.name != new_w.name {
        seq![UpdateModel::Rename { id: new_w.id, name: new_w.name }]
    } else {
        Seq::<UpdateModel>::empty()
    };
    let b = if old_w.index != new_w.index || old_w.monitor != new_w.monitor {
        seq![UpdateModel::Move(new_w)]
    } else {
        Seq::<UpdateModel>::empty()
    };
    let c = if new_w.visibility.spec_is_focused() && !old_w.visibility.spec_is_focused() {
        seq![UpdateModel::Focus { old: Some(old_w), new: new_w }]
    } else {
        Seq::<UpdateModel>::empty()
    };
    assert(match_updates(old_w, new_w) == a + b + c);
    lemma_count_concat(a + b, c, add_matcher(id));
    lemma_count_concat(a, b, add_matcher(id));
    lemma_count_concat(a + b, c, remove_matcher(id));
    lemma_count_concat(a, b, remove_matcher(id));
    lemma_count_singleton(UpdateModel::Rename { id: new_w.id, name: new_w.name }, add_matcher(id));
    lemma_count_singleton(UpdateModel::Move(new_w), add_matcher(id));
    lemma_count_singleton(
        UpdateModel::Focus { old: Some(old_w), new: new_w },
        add_matcher(id),
    );
    lemma_count_singleton(
        UpdateModel::Rename { id: new_w.id, name: new_w.name },
        remove_matcher(id),
    );
    lemma_count_singleton(UpdateModel::Move(new_w), remove_matcher(id));
    lemma_count_singleton(
        UpdateModel::Focus { old: Some(old_w), new: new_w },
        remove_matcher(id),
    );
    assert(count_matching(Seq::<UpdateModel>::empty(), add_matcher(id)) == 0);
    assert(count_matching(Seq::<UpdateModel>::empty(), remove_matcher(id)) == 0);
}

proof fn lemma_count_adds_addition(old: Seq<WorkspaceModel>, new: Seq<WorkspaceModel>, id: i64)
    ensures
        count_adds(addition_updates(old, new), id) == (if has_id(old, id) {
            0nat
        } else {
            count_id(new, id)
        }),
    decreases new.len(),
{
    if new.len() == 0 {
        assert(count_matching(Seq::<UpdateModel>::empty(), add_matcher(id)) == 0);
        assert(count_matching(new, id_matcher(id)) == 0);
    } else {
        let d = new.drop_last();
        let w = new.last();
        lemma_count_adds_addition(old, d, id);
        lemma_count_concat(addition_updates(old, d), entry_updates(old, w), add_matcher(id));
        lemma_find_by_id_spec(old, w.id);
        match find_by_id(old, w.id) {
            Some(old_w) => {
                lemma_match_updates_counts(old_w, w, id);
                assert(has_id(old, w.id));
            },
            None => {
                lemma_count_singleton(UpdateModel::Add(w), add_matcher(id));
                assert(!has_id(old, w.id));
            },
        }
    }
}

proof fn lemma_count_removes_addition(
    old: Seq<WorkspaceModel>,
    new: Seq<WorkspaceModel>,
    id: i64,
)
    ensures
        count_removes(addition_updates(old, new), id) == 0,
    decreases new.len(),
{
    if new.len() == 0 {
        assert(count_matching(Seq::<UpdateModel>::empty(), remove_matcher(id)) == 0);
    } else {
        let d = new.drop_last();
        let w = new.last();
        lemma_count_removes_addition(old, d, id);
        lemma_count_concat(addition_updates(old, d), entry_updates(old, w), remove_matcher(id));
        match find_by_id(old, w.id) {
            Some(old_w) => {
                lemma_match_updates_counts(old_w, w, id);
            },
            None => {
                lemma_count_singleton(UpdateModel::Add(w), remove_matcher(id));
            },
        }
    }
}

proof fn lemma_count_adds_removal(old: Seq<WorkspaceModel>, new: Seq<WorkspaceModel>, id: i64)
    ensures
        count_adds(removal_updates(old, new), id) == 0,
    decreases old.len(),
{
    if old.len() == 0 {
        assert(count_matching(Seq::<UpdateModel>::empty(), add_matcher(id)) == 0);
    } else {
        let d = old.drop_last();
        let w = old.last();
        lemma_count_adds_removal(d, new, id);
        let piece = if has_id(new, w.id) {
            Seq::<UpdateModel>::empty()
        } else {
            seq![UpdateModel::Remove(w.id)]
        };
        lemma_count_concat(removal_updates(d, new), piece, add_matcher(id));
        lemma_count_singleton(UpdateModel::Remove(w.id), add_matcher(id));
        assert(count_matching(Seq::<UpdateModel>::empty(), add_matcher(id)) == 0);
    }
}

proof fn lemma_count_removes_removal(old: Seq<WorkspaceModel>, new: Seq<WorkspaceModel>, id: i64)
    ensures
        count_removes(removal_updates(old, new), id) == (if has_id(new, id) {
            0nat
        } else {
            count_id(old, id)
        }),
    decreases old.len(),
{
    if old.len() == 0 {
        assert(count_matching(Seq::<UpdateModel>::empty(), remove_matcher(id)) == 0);
        assert(count_matching(old, id_matcher(id)) == 0);
    } else {
        let d = old.drop_last();
        let w = old.last();
        lemma_count_removes_removal(d, new, id);
        let piece = if has_id(new, w.id) {
            Seq::<UpdateModel>::empty()
        } else {
            seq![UpdateModel::Remove(w.id)]
        };
        lemma_count_concat(removal_updates(d, new), piece, remove_matcher(id));
        lemma_count_singleton(UpdateModel::Remove(w.id), remove_matcher(id));
        assert(count_matching(Seq::<UpdateModel>::empty(), remove_matcher(id)) == 0);
    }
}

/// With pairwise distinct ids on both sides, one diff pass emits exactly one
/// `Add` for every id only in the new list, exactly one `Remove` for every id
/// only in the old list, and no id receives both an `Add` and a `Remove`.
pub proof fn lemma_add_remove_partition(old: Seq<WorkspaceModel>, new: Seq<WorkspaceModel>)
    requires
        distinct_ids(old),
        distinct_ids(new),
    ensures
        forall|id: i64|
            has_id(new, id) && !has_id(old, id) ==> #[trigger] count_adds(
                diff_updates(old, new),
                id,
            ) == 1,
        forall|id: i64|
            has_id(old, id) && !has_id(new, id) ==> #[trigger] count_removes(
                diff_updates(old, new),
                id,
            ) == 1,
        forall|id: i64|
            !(#[trigger] count_adds(diff_updates(old, new), id) > 0 && count_removes(
                diff_updates(old, new),
                id,
            ) > 0),
{
    assert forall|id: i64|
        has_id(new, id) && !has_id(old, id) implies #[trigger] count_adds(
        diff_updates(old, new),
        id,
    ) == 1 by {
        lemma_count_concat(addition_updates(old, new), removal_updates(old, new), add_matcher(id));
        lemma_count_adds_addition(old, new, id);
        lemma_count_adds_removal(old, new, id);
        lemma_count_id_distinct(new, id);
    }
    assert forall|id: i64|
        has_id(old, id) && !has_id(new, id) implies #[trigger] count_removes(
        diff_updates(old, new),
        id,
    ) == 1 by {
        lemma_count_concat(
            addition_updates(old, new),
            removal_updates(old, new),
            remove_matcher(id),
        );
        lemma_count_removes_addition(old, new, id);
        lemma_count_removes_removal(old, new, id);
        lemma_count_id_distinct(old, id);
    }
    assert forall|id: i64|
        !(#[trigger] count_adds(diff_updates(old, new), id) > 0 && count_removes(
            diff_updates(old, new),
            id,
        ) > 0) by {
        if count_adds(diff_updates(old, new), id) > 0 && count_removes(
            diff_updates(old, new),
            id,
        ) > 0 {
            lemma_count_concat(
                addition_updates(old, new),
                removal_updates(old, new),
                add_matcher(id),
            );
            lemma_count_concat(
                addition_updates(old, new),
                removal_updates(old, new),
                remove_matcher(id),
            );
            lemma_count_adds_addition(old, new, id);
            lemma_count_adds_removal(old, new, id);
            lemma_count_removes_addition(old, new, id);
            lemma_count_removes_removal(old, new, id);
            // an Add for id means the id is new, a Remove means it is gone:
            // the id would have to occur in `new` and be absent from it.
            assert(!has_id(old, id) && count_id(new, id) > 0);
            assert(!has_id(new, id) && count_id(old, id) > 0);
            lemma_count_pos(new, id_matcher(id));
            assert(has_id(new, id));
        }
    }
}

proof fn lemma_addition_all_empty(old: Seq<WorkspaceModel>, new: Seq<WorkspaceModel>)
    requires
        forall|i: int|
            0 <= i < new.len() ==> #[trigger] entry_updates(old, new[i])
                == Seq::<UpdateModel>::empty(),
    ensures
        addition_updates(old, new) == Seq::<UpdateModel>::empty(),
    decreases new.len(),
{
    if new.len() > 0 {
        let d = new.drop_last();
        assert(forall|i: int| 0 <= i < d.len() ==> d[i] == new[i]);
        lemma_addition_all_empty(old, d);
        assert(entry_updates(old, new.last()) == Seq::<UpdateModel>::empty());
        assert(Seq::<UpdateModel>::empty() + Seq::<UpdateModel>::empty() =~= Seq::<
            UpdateModel,
        >::empty());
    }
}

proof fn lemma_removal_all_present(old: Seq<WorkspaceModel>, new: Seq<WorkspaceModel>)
    requires
        forall|i: int| 0 <= i < old.len() ==> has_id(new, #[trigger] old[i].id),
    ensures
        removal_updates(old, new) == Seq::<UpdateModel>::empty(),
    decreases old.len(),
{
    if old.len() > 0 {
        let d = old.drop_last();
        assert(forall|i: int| 0 <= i < d.len() ==> d[i] == old[i]);
        lemma_removal_all_present(d, new);
        assert(old.last() == old[old.len() - 1]);
        assert(has_id(new, old.last().id));
        assert(Seq::<UpdateModel>::empty() + Seq::<UpdateModel>::empty() =~= Seq::<
            UpdateModel,
        >::empty());
    }
}

/// Comparing an entity against an identical previous state emits nothing.
proof fn lemma_match_updates_same(w: WorkspaceModel)
    ensures
        match_updates(w, w) == Seq::<UpdateModel>::empty(),
{
    assert(Seq::<UpdateModel>::empty() + Seq::<UpdateModel>::empty() + Seq::<
        UpdateModel,
    >::empty() =~= Seq::<UpdateModel>::empty());
}

/// Idempotence: diffing a list against itself yields zero updates.
pub proof fn lemma_diff_self_empty(s: Seq<WorkspaceModel>)
    requires
        distinct_ids(s),
    ensures
        diff_updates(s, s) == Seq::<UpdateModel>::empty(),
{
    assert forall|i: int|
        0 <= i < s.len() implies #[trigger] entry_updates(s, s[i]) == Seq::<
        UpdateModel,
    >::empty() by {
        lemma_find_present(s, i);
        lemma_match_updates_same(s[i]);
    }
    lemma_addition_all_empty(s, s);
    assert(forall|i: int| 0 <= i < s.len() ==> has_id(s, #[trigger] s[i].id));
    lemma_removal_all_present(s, s);
    assert(Seq::<UpdateModel>::empty() + Seq::<UpdateModel>::empty() =~= Seq::<
        UpdateModel,
    >::empty());
}

/// Ordering, first half: the per-entity updates of the first `k` entities of
/// the new list precede, unchanged and in order, those of the remaining
/// entities.
pub proof fn lemma_addition_updates_split(
    old: Seq<WorkspaceModel>,
    new: Seq<WorkspaceModel>,
    k: int,
)
    requires
        0 <= k <= new.len(),
    ensures
        addition_updates(old, new) == addition_updates(old, new.take(k)) + addition_updates(
            old,
            new.skip(k),
        ),
    decreases new.len(),
{
    if k == new.len() {
        assert(new.take(k) =~= new);
        assert(new.skip(k).len() == 0);
        assert(addition_updates(old, new.skip(k)) == Seq::<UpdateModel>::empty());
        assert(addition_updates(old, new.take(k)) + addition_updates(old, new.skip(k))
            =~= addition_updates(old, new));
    } else {
        let d = new.drop_last();
        lemma_addition_updates_split(old, d, k);
        assert(d.take(k) =~= new.take(k));
        assert(new.skip(k).drop_last() =~= d.skip(k));
        assert(new.skip(k).last() == new.last());
        assert(addition_updates(old, new) =~= addition_updates(old, new.take(k))
            + addition_updates(old, new.skip(k)));
    }
}

/// Ordering, second half: the removals for the first `k` entities of the old
/// list precede, unchanged and in order, those for the remaining entities.
pub proof fn lemma_removal_updates_split(
    old: Seq<WorkspaceModel>,
    new: Seq<WorkspaceModel>,
    k: int,
)
    requires
        0 <= k <= old.len(),
    ensures
        removal_updates(old, new) == removal_updates(old.take(k), new) + removal_updates(
            old.skip(k),
            new,
        ),
    decreases old.len(),
{
    if k == old.len() {
        assert(old.take(k) =~= old);
        assert(old.skip(k).len() == 0);
        assert(removal_updates(old.skip(k), new) == Seq::<UpdateModel>::empty());
        assert(removal_updates(old.take(k), new) + removal_updates(old.skip(k), new)
            =~= removal_updates(old, new));
    } else {
        let d = old.drop_last();
        lemma_removal_updates_split(d, new, k);
        assert(d.take(k) =~= old.take(k));
        assert(old.skip(k).drop_last() =~= d.skip(k));
        assert(old.skip(k).last() == old.last());
        assert(removal_updates(old, new) =~= removal_updates(old.take(k), new)
            + removal_updates(old.skip(k), new));
    }
}

/// Ordering, pinned to one entity: everything the diff emits for entities
/// before position `i` of the new list comes first, then exactly the updates
/// of the entity at `i`, then everything for the entities after it; all
/// removals follow separately (`diff_updates` is the two phases concatenated).
pub proof fn lemma_addition_updates_at(old: Seq<WorkspaceModel>, new: Seq<WorkspaceModel>, i: int)
    requires
        0 <= i < new.len(),
    ensures
        addition_updates(old, new) == addition_updates(old, new.take(i)) + entry_updates(
            old,
            new[i],
        ) + addition_updates(old, new.skip(i + 1)),
{
    lemma_addition_updates_split(old, new, i);
    lemma_addition_updates_split(old, new.skip(i), 1);
    let single = new.skip(i).take(1);
    assert(single =~= seq![new[i]]);
    assert(seq![new[i]].drop_last() =~= Seq::<WorkspaceModel>::empty());
    assert(addition_updates(old, Seq::<WorkspaceModel>::empty()) == Seq::<UpdateModel>::empty());
    assert(seq![new[i]].last() == new[i]);
    assert(addition_updates(old, seq![new[i]]) =~= entry_updates(old, new[i]));
    assert(new.skip(i).skip(1) =~= new.skip(i + 1));
    assert(addition_updates(old, new) =~= addition_updates(old, new.take(i)) + entry_updates(
        old,
        new[i],
    ) + addition_updates(old, new.skip(i + 1)));
}

/// Focus asymmetry, per matched pair: when only the focus state of an entity
/// changes, losing focus emits nothing and gaining focus emits exactly one
/// `Focus` update.
pub proof fn lemma_focus_asymmetry(old_w: WorkspaceModel, new_w: WorkspaceModel)
    requires
        new_w.id == old_w.id,
        new_w.name == old_w.name,
        new_w.index == old_w.index,
        new_w.monitor == old_w.monitor,
    ensures
        old_w.visibility.spec_is_focused() && !new_w.visibility.spec_is_focused()
            ==> match_updates(old_w, new_w) == Seq::<UpdateModel>::empty(),
        !old_w.visibility.spec_is_focused() && new_w.visibility.spec_is_focused()
            ==> match_updates(old_w, new_w) == seq![
            UpdateModel::Focus { old: Some(old_w), new: new_w },
        ],
{
    if old_w.visibility.spec_is_focused() && !new_w.visibility.spec_is_focused() {
        assert(Seq::<UpdateModel>::empty() + Seq::<UpdateModel>::empty() + Seq::<
            UpdateModel,
        >::empty() =~= Seq::<UpdateModel>::empty());
    }
    if !old_w.visibility.spec_is_focused() && new_w.visibility.spec_is_focused() {
        assert(Seq::<UpdateModel>::empty() + Seq::<UpdateModel>::empty() + seq![
            UpdateModel::Focus { old: Some(old_w), new: new_w },
        ] =~= seq![UpdateModel::Focus { old: Some(old_w), new: new_w }]);
    }
}

/// Focus asymmetry over whole lists: if the only change between two refreshes
/// is the focus state of the entity at position `k`, a transition out of
/// focus yields an empty diff and a transition into focus yields exactly one
/// `Focus` update.
pub proof fn lemma_focus_asymmetry_in_list(
    old: Seq<WorkspaceModel>,
    new: Seq<WorkspaceModel>,
    k: int,
)
    requires
        distinct_ids(old),
        new.len() == old.len(),
        0 <= k < old.len(),
        forall|i: int| 0 <= i < old.len() && i != k ==> new[i] == old[i],
        new[k].id == old[k].id,
        new[k].name == old[k].name,
        new[k].index == old[k].index,
        new[k].monitor == old[k].monitor,
    ensures
        old[k].visibility.spec_is_focused() && !new[k].visibility.spec_is_focused()
            ==> diff_updates(old, new) == Seq::<UpdateModel>::empty(),
        !old[k].visibility.spec_is_focused() && new[k].visibility.spec_is_focused()
            ==> diff_updates(old, new) == seq![
            UpdateModel::Focus { old: Some(old[k]), new: new[k] },
        ],
{
    assert forall|i: int| 0 <= i < new.len() implies has_id(old, #[trigger] new[i].id) && has_id(
        new,
        #[trigger] old[i].id,
    ) by {
        assert(new[i].id == old[i].id);
    }
    assert forall|i: int|
        0 <= i < new.len() && i != k implies #[trigger] entry_updates(old, new[i]) == Seq::<
        UpdateModel,
    >::empty() by {
        lemma_find_present(old, i);
        lemma_match_updates_same(old[i]);
    }
    lemma_find_present(old, k);
    lemma_removal_all_present(old, new);
    lemma_addition_updates_at(old, new, k);
    let front = new.take(k);
    let back = new.skip(k + 1);
    assert(forall|i: int| 0 <= i < front.len() ==> front[i] == new[i]);
    assert(forall|i: int| 0 <= i < back.len() ==> back[i] == new[i + k + 1]);
    lemma_addition_all_empty(old, front);
    lemma_addition_all_empty(old, back);
    lemma_focus_asymmetry(old[k], new[k]);
    if old[k].visibility.spec_is_focused() && !new[k].visibility.spec_is_focused() {
        assert(Seq::<UpdateModel>::empty() + match_updates(old[k], new[k]) + Seq::<
            UpdateModel,
        >::empty() + Seq::<UpdateModel>::empty() =~= Seq::<UpdateModel>::empty());
    }
    if !old[k].visibility.spec_is_focused() && new[k].visibility.spec_is_focused() {
        assert(Seq::<UpdateModel>::empty() + match_updates(old[k], new[k]) + Seq::<
            UpdateModel,
        >::empty() + Seq::<UpdateModel>::empty() =~= seq![
            UpdateModel::Focus { old: Some(old[k]), new: new[k] },
        ]);
    }
}

/// Rename and move are independent: an entity whose label and monitor both
/// changed (focus state unchanged) receives exactly a `Rename` followed by a
/// `Move` in the same pass.
pub proof fn lemma_rename_move_independent(old_w: WorkspaceModel, new_w: WorkspaceModel)
    requires
        new_w.id == old_w.id,
        new_w.name != old_w.name,
        new_w.monitor != old_w.monitor,
        new_w.visibility.spec_is_focused() == old_w.visibility.spec_is_focused(),
    ensures
        match_updates(old_w, new_w) == seq![
            UpdateModel::Rename { id: new_w.id, name: new_w.name },
            UpdateModel::Move(new_w),
        ],
{
    assert(seq![UpdateModel::Rename { id: new_w.id, name: new_w.name }] + seq![
        UpdateModel::Move(new_w),
    ] + Seq::<UpdateModel>::empty() =~= seq![
        UpdateModel::Rename { id: new_w.id, name: new_w.name },
        UpdateModel::Move(new_w),
    ]);
}

/// Rename and move within a whole pass: if the entity at position `k` of the
/// new list matched `old_w` and changed both label and monitor (focus state
/// unchanged), the diff carries its `Rename` and `Move`, in that order, right
/// between the updates of its neighbours.
pub proof fn lemma_rename_move_in_diff(
    old: Seq<WorkspaceModel>,
    new: Seq<WorkspaceModel>,
    k: int,
    old_w: WorkspaceModel,
)
    requires
        0 <= k < new.len(),
        find_by_id(old, new[k].id) == Some(old_w),
        new[k].name != old_w.name,
        new[k].monitor != old_w.monitor,
        new[k].visibility.spec_is_focused() == old_w.visibility.spec_is_focused(),
    ensures
        diff_updates(old, new) == addition_updates(old, new.take(k)) + seq![
            UpdateModel::Rename { id: new[k].id, name: new[k].name },
            UpdateModel::Move(new[k]),
        ] + addition_updates(old, new.skip(k + 1)) + removal_updates(old, new),
{
    lemma_addition_updates_at(old, new, k);
    assert(old_w.id == new[k].id) by {
        lemma_find_by_id_spec(old, new[k].id);
    }
    lemma_rename_move_independent(old_w, new[k]);
    assert(diff_updates(old, new) =~= addition_updates(old, new.take(k)) + seq![
        UpdateModel::Rename { id: new[k].id, name: new[k].name },
        UpdateModel::Move(new[k]),
    ] + addition_updates(old, new.skip(k + 1)) + removal_updates(old, new));
}

} // verus!
