//! What grouping guarantees, stated over the views of rows and owners.
use vstd::prelude::*;
use crate::flattening::{flatten, lemma_flatten_front, rows_of};
use crate::grouping::{
    complete_rows, group, is_complete, lemma_complete_rows_add,
    lemma_complete_rows_all, lemma_complete_rows_kept, lemma_group_first_run,
    lemma_group_owners_have_pets, lemma_group_step, owner_of_run, pet_of, pets_of, run_len,
};
use crate::model::{OwnerRowView, OwnerView};

verus! {

/// The order of owner keys: a missing key comes before every identifier.
pub open spec fn key_le(a: Option<i32>, b: Option<i32>) -> bool {
    match (a, b) {
        (None, _) => true,
        (Some(_), None) => false,
        (Some(x), Some(y)) => x <= y,
    }
}

/// Rows are sorted by owner when no row has a smaller key than a row before it.
pub open spec fn sorted_by_owner(rows: Seq<OwnerRowView>) -> bool {
    forall|i: int, j: int|
        0 <= i <= j < rows.len() ==> key_le(
            (#[trigger] rows[i]).owner_id,
            (#[trigger] rows[j]).owner_id,
        )
}

/// No identifier occurs twice, and the identifiers rise from each owner to
/// the next.
pub open spec fn ids_increase(owners: Seq<OwnerView>) -> bool {
    forall|i: int, j: int|
        0 <= i < j < owners.len() ==> (#[trigger] owners[i]).id < (#[trigger] owners[j]).id
}

/// Owners that come back unchanged when their rows are grouped: each well
/// formed, and no two neighbours with the same identifier.
pub open spec fn is_grouped(owners: Seq<OwnerView>) -> bool {
    &&& forall|i: int| 0 <= i < owners.len() ==> (#[trigger] owners[i]).wf()
    &&& forall|i: int, j: int|
        0 <= i && j == i + 1 && j < owners.len() ==> (#[trigger] owners[i]).id != (
        #[trigger] owners[j]).id
}

/// The owner's name depends on the owner's identifier alone: complete rows
/// with the same key carry the same name.
pub open spec fn names_agree(rows: Seq<OwnerRowView>) -> bool {
    forall|i: int, j: int|
        0 <= i < rows.len() && 0 <= j < rows.len() && is_complete(#[trigger] rows[i])
            && is_complete(#[trigger] rows[j]) && rows[i].owner_id == rows[j].owner_id
            ==> rows[i].owner_name == rows[j].owner_name
}

/// The complete rows among `rows` that carry the identifier `id`, in order.
pub open spec fn rows_of_owner(rows: Seq<OwnerRowView>, id: i32) -> Seq<OwnerRowView> {
    rows.filter(|r: OwnerRowView| is_complete(r) && r.owner_id == Some(id))
}

/// Two complete rows with the same owner key give one owner with both pets,
/// the pet of the first row first.
pub proof fn lemma_two_rows_one_owner(a: OwnerRowView, b: OwnerRowView)
    requires
        is_complete(a),
        is_complete(b),
        a.owner_id == b.owner_id,
    ensures
        group(seq![a, b]) == seq![
            OwnerView {
                id: a.owner_id->0,
                name: a.owner_name->0,
                pets: seq![pet_of(a), pet_of(b)],
            },
        ],
{
    let run = seq![a, b];
    let none = Seq::<OwnerRowView>::empty();
    lemma_group_first_run(run, none);
    assert(run + none == run);
    lemma_complete_rows_all(run);
    assert(pets_of(run) == seq![pet_of(a), pet_of(b)]);
    assert(group(none) == Seq::<OwnerView>::empty());
    let owner = owner_of_run(run)->0;
    assert(seq![owner] + group(none) == seq![owner]);
}

/// Grouping never reaches across a change of key: where one sequence of rows
/// ends with another key than the next begins with, their owners are those of
/// the first followed by those of the second.
pub proof fn lemma_group_splits_at_key_change(a: Seq<OwnerRowView>, b: Seq<OwnerRowView>)
    requires
        a.len() > 0 && b.len() > 0 ==> a.last().owner_id != b[0].owner_id,
    ensures
        group(a + b) == group(a) + group(b),
    decreases a.len(),
{
    if a.len() == 0 {
        assert(a + b == b);
        assert(group(a) + group(b) == group(b));
    } else {
        lemma_group_step(a);
        let n = run_len(a) as int;
        let run = a.take(n);
        let rest = a.skip(n);
        if rest.len() > 0 {
            assert(rest.last() == a.last());
        } else if b.len() > 0 {
            assert(a.last() == a[n - 1]);
        }
        lemma_group_splits_at_key_change(rest, b);
        lemma_group_first_run(run, rest + b);
        assert(run + (rest + b) == a + b);
        if owner_of_run(run) is Some {
            let first = seq![owner_of_run(run)->0];
            assert(first + (group(rest) + group(b)) == (first + group(rest)) + group(b));
        }
    }
}

/// Whatever holds of every identifier among the rows holds of the identifier
/// of every owner that grouping gives.
pub proof fn lemma_group_ids_are_keys(rows: Seq<OwnerRowView>, holds: spec_fn(i32) -> bool)
    requires
        forall|j: int|
            0 <= j < rows.len() && (#[trigger] rows[j]).owner_id is Some ==> holds(
                rows[j].owner_id->0,
            ),
    ensures
        forall|i: int| 0 <= i < group(rows).len() ==> holds((#[trigger] group(rows)[i]).id),
    decreases rows.len(),
{
    if rows.len() > 0 {
        lemma_group_step(rows);
        lemma_group_ids_are_keys(rows.skip(run_len(rows) as int), holds);
    }
}

/// In sorted rows, every row after the first run has a greater identifier
/// than the rows of that run.
proof fn lemma_sorted_tail_is_above(rows: Seq<OwnerRowView>)
    requires
        rows.len() > 0,
        sorted_by_owner(rows),
    ensures
        sorted_by_owner(rows.skip(run_len(rows) as int)),
        forall|j: int|
            0 <= j < rows.skip(run_len(rows) as int).len() ==> {
                let key = (#[trigger] rows.skip(run_len(rows) as int)[j]).owner_id;
                &&& key is Some
                &&& key != rows[0].owner_id
                &&& rows[0].owner_id matches Some(first) ==> first < key->0
            },
{
    lemma_group_step(rows);
    let n = run_len(rows) as int;
    let tail = rows.skip(n);
    assert forall|j: int| 0 <= j < tail.len() implies {
        let key = (#[trigger] tail[j]).owner_id;
        &&& key is Some
        &&& key != rows[0].owner_id
        &&& rows[0].owner_id matches Some(first) ==> first < key->0
    } by {
        assert(key_le(rows[0].owner_id, rows[n].owner_id));
        assert(key_le(rows[n].owner_id, rows[n + j].owner_id));
    }
}

/// Sorted rows give each owner once: the identifiers of the owners increase
/// strictly, and each owner is well formed.
pub proof fn lemma_group_of_sorted(rows: Seq<OwnerRowView>)
    requires
        sorted_by_owner(rows),
    ensures
        ids_increase(group(rows)),
        is_grouped(group(rows)),
    decreases rows.len(),
{
    lemma_group_owners_have_pets(rows);
    if rows.len() > 0 {
        let tail = rows.skip(run_len(rows) as int);
        lemma_group_step(rows);
        lemma_sorted_tail_is_above(rows);
        lemma_group_of_sorted(tail);
        match owner_of_run(rows.take(run_len(rows) as int)) {
            Some(owner) => {
                lemma_group_ids_are_keys(tail, |id: i32| owner.id < id);
            },
            None => {},
        }
    }
}

/// Rows of other owners add nothing to the rows of an owner.
proof fn lemma_rows_of_owner_none(rows: Seq<OwnerRowView>, id: i32)
    requires
        forall|j: int| 0 <= j < rows.len() ==> (#[trigger] rows[j]).owner_id != Some(id),
    ensures
        rows_of_owner(rows, id) == Seq::<OwnerRowView>::empty(),
    decreases rows.len(),
{
    reveal(Seq::filter);
    if rows.len() > 0 {
        let front = rows.drop_last();
        assert forall|j: int| 0 <= j < front.len() implies (#[trigger] front[j]).owner_id != Some(
            id,
        ) by {
            assert(front[j] == rows[j]);
        }
        lemma_rows_of_owner_none(front, id);
        assert(rows.last() == rows[rows.len() - 1]);
    }
}

/// Among rows that all carry one identifier, the rows of that owner are the
/// complete rows.
proof fn lemma_rows_of_owner_all(rows: Seq<OwnerRowView>, id: i32)
    requires
        forall|j: int| 0 <= j < rows.len() ==> (#[trigger] rows[j]).owner_id == Some(id),
    ensures
        rows_of_owner(rows, id) == complete_rows(rows),
    decreases rows.len(),
{
    reveal(Seq::filter);
    if rows.len() > 0 {
        let front = rows.drop_last();
        assert forall|j: int| 0 <= j < front.len() implies (#[trigger] front[j]).owner_id == Some(
            id,
        ) by {
            assert(front[j] == rows[j]);
        }
        lemma_rows_of_owner_all(front, id);
        assert(rows.last() == rows[rows.len() - 1]);
    }
}

/// Sorted rows are grouped by owner as a whole: each owner that comes out
/// holds the pets of all complete rows with that owner's identifier, in order.
pub proof fn lemma_sorted_owner_has_all_pets(rows: Seq<OwnerRowView>)
    requires
        sorted_by_owner(rows),
    ensures
        forall|i: int|
            0 <= i < group(rows).len() ==> (#[trigger] group(rows)[i]).pets == pets_of(
                rows_of_owner(rows, group(rows)[i].id),
            ),
    decreases rows.len(),
{
    if rows.len() > 0 {
        let n = run_len(rows) as int;
        let run = rows.take(n);
        let tail = rows.skip(n);
        lemma_group_step(rows);
        lemma_sorted_tail_is_above(rows);
        lemma_sorted_owner_has_all_pets(tail);
        lemma_group_ids_are_keys(tail, |id: i32| Some(id) != rows[0].owner_id);
        assert forall|i: int| 0 <= i < group(rows).len() implies (#[trigger] group(rows)[i]).pets
            == pets_of(rows_of_owner(rows, group(rows)[i].id)) by {
            let id = group(rows)[i].id;
            Seq::filter_distributes_over_add(
                run,
                tail,
                |r: OwnerRowView| is_complete(r) && r.owner_id == Some(id),
            );
            if owner_of_run(run) is Some && i == 0 {
                lemma_rows_of_owner_all(run, id);
                lemma_rows_of_owner_none(tail, id);
                assert(complete_rows(run) + Seq::<OwnerRowView>::empty() == complete_rows(run));
            } else {
                lemma_rows_of_owner_none(run, id);
                assert(Seq::<OwnerRowView>::empty() + rows_of_owner(tail, id) == rows_of_owner(
                    tail,
                    id,
                ));
            }
        }
    }
}

/// Grouping keeps every pet: the pets of the owners, taken owner by owner,
/// are the pets of the complete rows, in their order.
pub proof fn lemma_group_keeps_every_pet(rows: Seq<OwnerRowView>)
    ensures
        pets_of(flatten(group(rows))) == pets_of(complete_rows(rows)),
    decreases rows.len(),
{
    if rows.len() == 0 {
        lemma_complete_rows_kept(rows);
        assert(pets_of(flatten(group(rows))) == pets_of(complete_rows(rows)));
    } else {
        let n = run_len(rows) as int;
        let run = rows.take(n);
        let tail = rows.skip(n);
        lemma_group_step(rows);
        lemma_group_keeps_every_pet(tail);
        lemma_complete_rows_add(run, tail);
        let kept = complete_rows(run);
        let rest = complete_rows(tail);
        assert(pets_of(kept + rest) == pets_of(kept) + pets_of(rest));
        match owner_of_run(run) {
            Some(owner) => {
                let later = flatten(group(tail));
                lemma_flatten_front(owner, group(tail));
                assert(pets_of(rows_of(owner) + later) == pets_of(rows_of(owner)) + pets_of(later));
                assert(pets_of(rows_of(owner)) == pets_of(kept));
            },
            None => {
                assert(kept + rest == rest);
            },
        }
    }
}

/// Grouping neither loses nor invents a row: where the name of an owner
/// depends on the identifier alone, the grouped owners written out as rows
/// are exactly the complete rows, in their order.
pub proof fn lemma_flatten_group(rows: Seq<OwnerRowView>)
    requires
        names_agree(rows),
    ensures
        flatten(group(rows)) == complete_rows(rows),
    decreases rows.len(),
{
    if rows.len() == 0 {
        lemma_complete_rows_kept(rows);
        assert(complete_rows(rows) == Seq::<OwnerRowView>::empty());
    } else {
        let n = run_len(rows) as int;
        let run = rows.take(n);
        let tail = rows.skip(n);
        lemma_group_step(rows);
        assert(names_agree(tail));
        lemma_flatten_group(tail);
        lemma_complete_rows_add(run, tail);
        let kept = complete_rows(run);
        lemma_complete_rows_kept(run);
        match owner_of_run(run) {
            Some(owner) => {
                lemma_flatten_front(owner, group(tail));
                assert(rows_of(owner) =~= kept) by {
                    assert(run.contains(kept[0]));
                    let a = choose|a: int| 0 <= a < run.len() && run[a] == kept[0];
                    assert forall|i: int| 0 <= i < kept.len() implies rows_of(owner)[i]
                        == kept[i] by {
                        assert(run.contains(kept[i]));
                        let b = choose|b: int| 0 <= b < run.len() && run[b] == kept[i];
                        assert(rows[a].owner_name == rows[b].owner_name);
                        assert(owner.pets[i] == pet_of(kept[i]));
                    }
                }
            },
            None => {
                assert(kept + complete_rows(tail) == complete_rows(tail));
            },
        }
    }
}

/// Rows for one owner are grouped back into that owner.
pub proof fn lemma_owner_of_rows_of(owner: OwnerView)
    requires
        owner.wf(),
    ensures
        owner_of_run(rows_of(owner)) == Some(owner),
{
    let run = rows_of(owner);
    lemma_complete_rows_all(run);
    assert(pets_of(run) =~= owner.pets) by {
        assert forall|i: int| 0 <= i < run.len() implies pets_of(run)[i] == owner.pets[i] by {
            assert(owner.pets[i].pet_type.id == 0);
        }
    }
}

/// Flattened owners start with the first row of the first owner.
proof fn lemma_flatten_first(owners: Seq<OwnerView>)
    requires
        flatten(owners).len() > 0,
        forall|i: int| 0 <= i < owners.len() ==> (#[trigger] owners[i]).wf(),
    ensures
        owners.len() > 0,
        flatten(owners)[0].owner_id == Some(owners[0].id),
{
    assert(owners.len() > 0);
    assert(owners[0].wf());
    assert(flatten(owners)[0] == rows_of(owners[0])[0]);
}

/// Grouping undoes flattening: owners that are grouped come back unchanged
/// from their rows.
pub proof fn lemma_group_flatten(owners: Seq<OwnerView>)
    requires
        is_grouped(owners),
    ensures
        group(flatten(owners)) == owners,
    decreases owners.len(),
{
    if owners.len() > 0 {
        let first = owners[0];
        let rest = owners.skip(1);
        assert(is_grouped(rest)) by {
            assert forall|i: int| 0 <= i < rest.len() implies (#[trigger] rest[i]).wf() by {
                assert(rest[i] == owners[i + 1]);
            }
            assert forall|i: int, j: int| 0 <= i && j == i + 1 && j < rest.len() implies (
            #[trigger] rest[i]).id != (#[trigger] rest[j]).id by {
                assert(rest[i] == owners[i + 1]);
                assert(rest[j] == owners[j + 1]);
            }
        }
        lemma_group_flatten(rest);
        let run = rows_of(first);
        let tail = flatten(rest);
        assert(first.wf());
        if tail.len() > 0 {
            lemma_flatten_first(rest);
            assert(rest[0] == owners[1]);
            assert(owners[0].id != owners[1].id);
        }
        lemma_group_first_run(run, tail);
        lemma_owner_of_rows_of(first);
        assert(seq![first] + rest == owners);
    }
}

/// Grouping is idempotent through flattening: rows sorted by owner, grouped,
/// written out again as rows and grouped once more give the same owners.
pub proof fn lemma_regroup_is_identity(rows: Seq<OwnerRowView>)
    requires
        sorted_by_owner(rows),
    ensures
        group(flatten(group(rows))) == group(rows),
{
    lemma_group_of_sorted(rows);
    lemma_group_flatten(group(rows));
}

} // verus!
