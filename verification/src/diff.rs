//! The diff engine: turns "previous list vs. freshly fetched list" into the
//! exact ordered sequence of typed updates describing the transition.
//!
//! Matched and added entities contribute updates in the order they appear in
//! the new list; removals follow afterwards, in the order the vanished
//! entities appeared in the old list.

use vstd::prelude::*;

use crate::workspace::{
    distinct_ids, has_id, update_models, workspace_models, UpdateModel, Workspace,
    WorkspaceModel, WorkspaceUpdate,
};

verus! {

/// The first entity of `s` carrying `id`, if any.
pub open spec fn find_by_id(s: Seq<WorkspaceModel>, id: i64) -> Option<WorkspaceModel>
    decreases s.len(),
{
    if s.len() == 0 {
        None
    } else if s.first().id == id {
        Some(s.first())
    } else {
        find_by_id(s.drop_first(), id)
    }
}

/// Updates emitted for a new entity whose id was already present: a rename if
/// the label changed, then a move if the position or the monitor changed, then
/// a focus event if the entity newly gained focus. The checks are independent,
/// so one refresh may emit several updates for the same id. A transition out
/// of focus emits nothing.
pub open spec fn match_updates(old_w: WorkspaceModel, new_w: WorkspaceModel) -> Seq<UpdateModel> {
    (if old_w.name != new_w.name {
        seq![UpdateModel::Rename { id: new_w.id, name: new_w.name }]
    } else {
        Seq::<UpdateModel>::empty()
    }) + (if old_w.index != new_w.index || old_w.monitor != new_w.monitor {
        seq![UpdateModel::Move(new_w)]
    } else {
        Seq::<UpdateModel>::empty()
    }) + (if new_w.visibility.spec_is_focused() && !old_w.visibility.spec_is_focused() {
        seq![UpdateModel::Focus { old: Some(old_w), new: new_w }]
    } else {
        Seq::<UpdateModel>::empty()
    })
}

/// Updates emitted for one entity of the new list: an addition if its id is
/// unknown, otherwise the per-field comparison against its previous state.
pub open spec fn entry_updates(old: Seq<WorkspaceModel>, new_w: WorkspaceModel) -> Seq<
    UpdateModel,
> {
    match find_by_id(old, new_w.id) {
        Some(old_w) => match_updates(old_w, new_w),
        None => seq![UpdateModel::Add(new_w)],
    }
}

/// The first diff phase: per-entity updates, in the order of the new list.
pub open spec fn addition_updates(old: Seq<WorkspaceModel>, new: Seq<WorkspaceModel>) -> Seq<
    UpdateModel,
>
    decreases new.len(),
{
    if new.len() == 0 {
        Seq::<UpdateModel>::empty()
    } else {
        addition_updates(old, new.drop_last()) + entry_updates(old, new.last())
    }
}

/// The second diff phase: one removal for each old entity whose id is absent
/// from the new list, in the order of the old list.
pub open spec fn removal_updates(old: Seq<WorkspaceModel>, new: Seq<WorkspaceModel>) -> Seq<
    UpdateModel,
>
    decreases old.len(),
{
    if old.len() == 0 {
        Seq::<UpdateModel>::empty()
    } else {
        removal_updates(old.drop_last(), new) + (if has_id(new, old.last().id) {
            Seq::<UpdateModel>::empty()
        } else {
            seq![UpdateModel::Remove(old.last().id)]
        })
    }
}

/// The full diff of one non-initial refresh: all per-entity updates, then all
/// removals.
pub open spec fn diff_updates(old: Seq<WorkspaceModel>, new: Seq<WorkspaceModel>) -> Seq<
    UpdateModel,
> {
    addition_updates(old, new) + removal_updates(old, new)
}

/// What a refresh publishes: a single full-state snapshot on the initial
/// refresh, the diff on every later one.
pub open spec fn refresh_updates(
    old: Seq<WorkspaceModel>,
    new: Seq<WorkspaceModel>,
    is_init: bool,
) -> Seq<UpdateModel> {
    if is_init {
        seq![UpdateModel::Init(new)]
    } else {
        diff_updates(old, new)
    }
}

/// Scanning past a prefix free of `id` does not change what is found.
proof fn lemma_find_skip(s: Seq<WorkspaceModel>, id: i64, i: int)
    requires
        0 <= i <= s.len(),
        forall|j: int| 0 <= j < i ==> s[j].id != id,
    ensures
        find_by_id(s, id) == find_by_id(s.skip(i), id),
    decreases i,
{
    if i > 0 {
        assert(s.drop_first() =~= s.skip(1));
        assert(forall|j: int| 0 <= j < i - 1 ==> s.skip(1)[j].id != id);
        lemma_find_skip(s.skip(1), id, i - 1);
        assert(s.skip(1).skip(i - 1) =~= s.skip(i));
    } else {
        assert(s.skip(0) =~= s);
    }
}

/// A fruitless scan means no entity carries the id at all.
proof fn lemma_find_none_no_id(s: Seq<WorkspaceModel>, id: i64)
    requires
        find_by_id(s, id) is None,
    ensures
        !has_id(s, id),
    decreases s.len(),
{
    if s.len() > 0 {
        lemma_find_none_no_id(s.drop_first(), id);
        assert forall|i: int| 0 <= i < s.len() implies s[i].id != id by {
            if i > 0 {
                assert(s.drop_first()[i - 1] == s[i]);
            }
        }
    }
}

/// A scan finds an entity exactly when some entity carries the id; what it
/// finds carries the id itself and occurs in the list.
pub proof fn lemma_find_by_id_spec(s: Seq<WorkspaceModel>, id: i64)
    ensures
        (find_by_id(s, id) is Some) <==> has_id(s, id),
        find_by_id(s, id) matches Some(w) ==> w.id == id && exists|i: int|
            0 <= i < s.len() && s[i] == w,
    decreases s.len(),
{
    if s.len() == 0 {
    } else if s.first().id == id {
        assert(s[0] == s.first());
    } else {
        let d = s.drop_first();
        lemma_find_by_id_spec(d, id);
        assert(forall|i: int| 0 <= i < d.len() ==> d[i] == s[i + 1]);
        if has_id(s, id) {
            let i = choose|i: int| 0 <= i < s.len() && s[i].id == id;
            assert(i != 0);
            assert(d[i - 1] == s[i]);
            assert(has_id(d, id));
        }
        if find_by_id(s, id) is Some {
            let w = find_by_id(d, id).unwrap();
            let i = choose|i: int| 0 <= i < d.len() && d[i] == w;
            assert(s[i + 1] == w);
        }
    }
}

/// With pairwise distinct ids, the scan for the id of `s[i]` finds `s[i]`
/// itself.
pub proof fn lemma_find_present(s: Seq<WorkspaceModel>, i: int)
    requires
        distinct_ids(s),
        0 <= i < s.len(),
    ensures
        find_by_id(s, s[i].id) == Some(s[i]),
    decreases i,
{
    if i == 0 {
        assert(s.first() == s[0]);
    } else {
        let d = s.drop_first();
        assert(s.first().id != s[i].id);
        assert(distinct_ids(d)) by {
            assert(forall|a: int, b: int|
                0 <= a < b < d.len() ==> d[a] == s[a + 1] && d[b] == s[b + 1]);
        }
        assert(d[i - 1] == s[i]);
        lemma_find_present(d, i - 1);
    }
}

/// Index of the first entity of `list` carrying `id`, if any.
fn find_index_by_id(list: &Vec<Workspace>, id: i64) -> (r: Option<usize>)
    ensures
        match r {
            Some(j) => j < list@.len() && list@[j as int]@.id == id && find_by_id(
                workspace_models(list@),
                id,
            ) == Some(list@[j as int]@),
            None => find_by_id(workspace_models(list@), id) is None && !has_id(
                workspace_models(list@),
                id,
            ),
        },
{
    let ghost s = workspace_models(list@);
    let mut j: usize = 0;
    while j < list.len()
        invariant
            j <= list@.len(),
            s == workspace_models(list@),
            forall|k: int| 0 <= k < j ==> s[k].id != id,
        decreases list@.len() - j,
    {
        if list[j].id == id {
            proof {
                lemma_find_skip(s, id, j as int);
                assert(s.skip(j as int).first() == s[j as int]);
            }
            return Some(j);
        }
        j += 1;
    }
    proof {
        lemma_find_skip(s, id, s.len() as int);
        assert(s.skip(s.len() as int).len() == 0);
        lemma_find_none_no_id(s, id);
    }
    None
}

/// Computes the update sequence of one refresh.
///
/// On the initial refresh the result is a single snapshot of the new list.
/// Otherwise the result walks the new list in order (additions and per-field
/// comparisons against the old entity with the same id), then the old list in
/// order (removals of vanished ids).
pub fn diff(old: &Vec<Workspace>, new: &Vec<Workspace>, is_init: bool) -> (updates: Vec<
    WorkspaceUpdate,
>)
    ensures
        update_models(updates@) == refresh_updates(
            workspace_models(old@),
            workspace_models(new@),
            is_init,
        ),
{
    let ghost oldm = workspace_models(old@);
    let ghost newm = workspace_models(new@);
    let mut updates: Vec<WorkspaceUpdate> = Vec::new();
    if is_init {
        let snapshot = new.clone();
        proof {
            assert(snapshot@ =~= new@);
        }
        updates.push(WorkspaceUpdate::Init(snapshot));
        proof {
            assert(update_models(updates@) =~= refresh_updates(oldm, newm, true));
        }
        return updates;
    }
    let mut i: usize = 0;
    while i < new.len()
        invariant
            i <= new@.len(),
            oldm == workspace_models(old@),
            newm == workspace_models(new@),
            update_models(updates@) == addition_updates(oldm, newm.take(i as int)),
        decreases new@.len() - i,
    {
        let ghost pre = updates@;
        let new_w = &new[i];
        match find_index_by_id(old, new_w.id) {
            Some(j) => {
                let old_w = &old[j];
                if !(new_w.name == old_w.name) {
                    updates.push(
                        WorkspaceUpdate::Rename { id: new_w.id, name: new_w.name.clone() },
                    );
                }
                if new_w.index != old_w.index || !(new_w.monitor == old_w.monitor) {
                    updates.push(WorkspaceUpdate::Move(new_w.clone()));
                }
                if new_w.visibility.is_focused() && !old_w.visibility.is_focused() {
                    updates.push(
                        WorkspaceUpdate::Focus { old: Some(old_w.clone()), new: new_w.clone() },
                    );
                }
                proof {
                    assert(update_models(updates@) =~= update_models(pre) + match_updates(
                        old@[j as int]@,
                        newm[i as int],
                    ));
                }
            },
            None => {
                updates.push(WorkspaceUpdate::Add(new_w.clone()));
                proof {
                    assert(update_models(updates@) =~= update_models(pre) + entry_updates(
                        oldm,
                        newm[i as int],
                    ));
                }
            },
        }
        proof {
            assert(newm.take(i + 1).drop_last() =~= newm.take(i as int));
            assert(newm.take(i + 1).last() == newm[i as int]);
            assert(update_models(updates@) =~= addition_updates(oldm, newm.take(i + 1)));
        }
        i += 1;
    }
    proof {
        assert(newm.take(newm.len() as int) =~= newm);
    }
    let mut k: usize = 0;
    while k < old.len()
        invariant
            k <= old@.len(),
            oldm == workspace_models(old@),
            newm == workspace_models(new@),
            update_models(updates@) == addition_updates(oldm, newm) + removal_updates(
                oldm.take(k as int),
                newm,
            ),
        decreases old@.len() - k,
    {
        let ghost pre = updates@;
        proof {
            let full = oldm.take(k + 1);
            assert(full.drop_last() =~= oldm.take(k as int));
            assert(full.last() == oldm[k as int]);
            assert(full.len() == k + 1);
        }
        match find_index_by_id(new, old[k].id) {
            Some(j) => {
                proof {
                    assert(newm[j as int].id == oldm[k as int].id);
                    assert(has_id(newm, oldm[k as int].id));
                    assert(removal_updates(oldm.take(k + 1), newm) == removal_updates(
                        oldm.take(k as int),
                        newm,
                    ) + Seq::<UpdateModel>::empty());
                    assert(removal_updates(oldm.take(k as int), newm) + Seq::<
                        UpdateModel,
                    >::empty() =~= removal_updates(oldm.take(k as int), newm));
                    assert(update_models(updates@) == addition_updates(oldm, newm)
                        + removal_updates(oldm.take(k + 1), newm));
                }
            },
            None => {
                updates.push(WorkspaceUpdate::Remove(old[k].id));
                proof {
                    let rid = oldm[k as int].id;
                    assert(!has_id(newm, rid));
                    assert(removal_updates(oldm.take(k + 1), newm) == removal_updates(
                        oldm.take(k as int),
                        newm,
                    ) + seq![UpdateModel::Remove(rid)]);
                    assert(update_models(updates@) =~= update_models(pre).push(
                        UpdateModel::Remove(rid),
                    ));
                    assert(update_models(pre).push(UpdateModel::Remove(rid))
                        =~= addition_updates(oldm, newm) + (removal_updates(
                        oldm.take(k as int),
                        newm,
                    ) + seq![UpdateModel::Remove(rid)]));
                    assert(update_models(updates@) == addition_updates(oldm, newm)
                        + removal_updates(oldm.take(k + 1), newm));
                }
            },
        }
        k += 1;
    }
    proof {
        assert(oldm.take(oldm.len() as int) =~= oldm);
    }
    updates
}

} // verus!
