//! Grouping of flat join rows into owners.
use vstd::prelude::*;
use vstd::slice::slice_subrange;
use crate::model::{
    owners_view, pets_view, rows_view, Owner, OwnerRow, OwnerRowView, OwnerView, PetType,
    PetTypeView, Pets, PetsView,
};

verus! {

/// A row is complete when the store delivered every field of it.
pub open spec fn is_complete(row: OwnerRowView) -> bool {
    &&& row.owner_id is Some
    &&& row.owner_name is Some
    &&& row.pet_id is Some
    &&& row.pet_name is Some
    &&& row.pet_type is Some
}

/// The pet that a complete row describes. The query does not fetch the
/// identifier of the pet's type, so it is always zero.
pub open spec fn pet_of(row: OwnerRowView) -> PetsView {
    PetsView {
        id: row.pet_id->0,
        name: row.pet_name->0,
        pet_type: PetTypeView { id: 0, name: row.pet_type->0 },
    }
}

/// The complete rows among `rows`, in order.
pub open spec fn complete_rows(rows: Seq<OwnerRowView>) -> Seq<OwnerRowView> {
    rows.filter(|r: OwnerRowView| is_complete(r))
}

/// The pets that complete rows describe, in order.
pub open spec fn pets_of(rows: Seq<OwnerRowView>) -> Seq<PetsView> {
    rows.map_values(|r: OwnerRowView| pet_of(r))
}

/// The owner that one run of rows stands for: identifier and name come from
/// the first complete row, and every complete row contributes one pet. A run
/// without a complete row stands for nobody.
pub open spec fn owner_of_run(run: Seq<OwnerRowView>) -> Option<OwnerView> {
    let kept = complete_rows(run);
    if kept.len() == 0 {
        None
    } else {
        Some(
            OwnerView {
                id: kept[0].owner_id->0,
                name: kept[0].owner_name->0,
                pets: pets_of(kept),
            },
        )
    }
}

/// The length of the run that `rows` starts with: the longest prefix in which
/// every row has the owner key of the row before it. Two missing keys count as
/// equal.
pub open spec fn run_len(rows: Seq<OwnerRowView>) -> nat
    decreases rows.len(),
{
    if rows.len() == 0 {
        0
    } else if rows.len() == 1 || rows[1].owner_id != rows[0].owner_id {
        1
    } else {
        1 + run_len(rows.skip(1))
    }
}

/// The owners that a sequence of rows stands for: the rows are cut into
/// maximal runs of equal adjacent owner keys, and each run gives at most one
/// owner, in order. Equal keys that are not adjacent are never brought together.
pub open spec fn group(rows: Seq<OwnerRowView>) -> Seq<OwnerView>
    decreases rows.len(),
    via group_decreases
{
    if rows.len() == 0 {
        Seq::empty()
    } else {
        let n = run_len(rows) as int;
        let rest = group(rows.skip(n));
        match owner_of_run(rows.take(n)) {
            Some(owner) => seq![owner] + rest,
            None => rest,
        }
    }
}

#[via_fn]
proof fn group_decreases(rows: Seq<OwnerRowView>) {
    if rows.len() > 0 {
        lemma_run_props(rows);
    }
}

/// The view of an owner that may be absent.
pub open spec fn owner_option_view(owner: Option<Owner>) -> Option<OwnerView> {
    match owner {
        Some(o) => Some(o@),
        None => None,
    }
}

impl OwnerRow {
    /// The pet of this row, or nothing if any field of the row is missing.
    pub fn pet(&self) -> (pet: Option<Pets>)
        ensures
            pet is Some <==> is_complete(self@),
            pet is Some ==> pet->0@ == pet_of(self@),
    {
        if self.owner_id.is_none() || self.owner_name.is_none() {
            return None;
        }
        match (self.pet_id, &self.pet_name, &self.pet_type) {
            (Some(id), Some(name), Some(kind)) => Some(
                Pets { id, name: name.clone(), pet_type: PetType { id: 0, name: kind.clone() } },
            ),
            _ => None,
        }
    }
}

/// Whether two rows carry the same owner key.
fn same_owner(a: &OwnerRow, b: &OwnerRow) -> (same: bool)
    ensures
        same == (a@.owner_id == b@.owner_id),
{
    match (a.owner_id, b.owner_id) {
        (Some(x), Some(y)) => x == y,
        (None, None) => true,
        _ => false,
    }
}

/// The index just past the run that begins at `start`.
fn run_end(rows: &[OwnerRow], start: usize) -> (end: usize)
    requires
        start < rows.len(),
    ensures
        start < end <= rows.len(),
        end - start == run_len(rows_view(rows@).skip(start as int)),
{
    let ghost tail = rows_view(rows@).skip(start as int);
    let mut end: usize = start + 1;
    while end < rows.len() && same_owner(&rows[end], &rows[start])
        invariant
            start < end <= rows.len(),
            tail == rows_view(rows@).skip(start as int),
            forall|i: int| 0 <= i < end - start ==> (#[trigger] tail[i]).owner_id == tail[0].owner_id,
        decreases rows.len() - end,
    {
        end += 1;
    }
    proof {
        lemma_run_len_is(tail, end - start);
    }
    end
}

impl Owner {
    /// Groups the rows of a query result into owners.
    pub fn parse_result(result: Vec<OwnerRow>) -> (owners: Vec<Owner>)
        ensures
            owners_view(owners@) == group(rows_view(result@)),
            forall|i: int| 0 <= i < owners.len() ==> (#[trigger] owners[i])@.wf(),
    {
        let ghost all = rows_view(result@);
        let mut owners: Vec<Owner> = Vec::new();
        let mut start: usize = 0;
        assert(all.skip(0) == all);
        while start < result.len()
            invariant
                start <= result.len(),
                all == rows_view(result@),
                owners_view(owners@) + group(all.skip(start as int)) == group(all),
            decreases result.len() - start,
        {
            let end = run_end(result.as_slice(), start);
            let run = slice_subrange(result.as_slice(), start, end);
            let ghost tail = all.skip(start as int);
            let ghost before = owners@;
            proof {
                assert(rows_view(run@) == tail.take(end - start));
                assert(tail.skip(end - start) == all.skip(end as int));
            }
            match Owner::parse_owner(run) {
                Some(owner) => {
                    let ghost added = owner@;
                    owners.push(owner);
                    proof {
                        assert(owners_view(owners@) == owners_view(before) + seq![added]);
                        assert(group(tail) == seq![added] + group(all.skip(end as int)));
                    }
                },
                None => {},
            }
            start = end;
        }
        proof {
            assert(owners_view(owners@) == group(all));
            assert forall|i: int| 0 <= i < owners.len() implies (#[trigger] owners[i])@.wf() by {
                lemma_group_owners_have_pets(all);
                assert(group(all)[i] == owners[i]@);
            }
        }
        owners
    }

    /// Builds the owner of one run of rows that share an owner key.
    pub fn parse_owner(grouped_rows: &[OwnerRow]) -> (owner: Option<Owner>)
        ensures
            owner_option_view(owner) == owner_of_run(rows_view(grouped_rows@)),
            owner matches Some(found) ==> found@.wf(),
    {
        let ghost run = rows_view(grouped_rows@);
        let mut id: i32 = 0;
        let mut name: Option<String> = None;
        let mut pets: Vec<Pets> = Vec::new();
        let mut k: usize = 0;
        proof {
            lemma_complete_rows_kept(run.take(0));
        }
        while k < grouped_rows.len()
            invariant
                k <= grouped_rows.len(),
                run == rows_view(grouped_rows@),
                pets_view(pets@) == pets_of(complete_rows(run.take(k as int))),
                name is None <==> complete_rows(run.take(k as int)).len() == 0,
                name is Some ==> {
                    let first = complete_rows(run.take(k as int))[0];
                    id == first.owner_id->0 && name->0@ == first.owner_name->0
                },
            decreases grouped_rows.len() - k,
        {
            let row = &grouped_rows[k];
            let ghost kept = complete_rows(run.take(k as int));
            proof {
                lemma_complete_rows_step(run, k as int);
                assert(run[k as int] == row@);
            }
            match row.pet() {
                Some(pet) => {
                    if name.is_none() {
                        match (row.owner_id, &row.owner_name) {
                            (Some(first_id), Some(first_name)) => {
                                id = first_id;
                                name = Some(first_name.clone());
                            },
                            _ => {},
                        }
                    }
                    let ghost before = pets@;
                    let ghost added = pet@;
                    pets.push(pet);
                    proof {
                        assert(pets_view(pets@) =~= pets_view(before).push(added));
                        assert(pets_of(kept.push(row@)) =~= pets_of(kept).push(pet_of(row@)));
                    }
                },
                None => {},
            }
            k += 1;
        }
        proof {
            assert(run.take(k as int) == run);
            lemma_complete_rows_kept(run);
        }
        match name {
            Some(name) => Some(Owner { id, name, pets }),
            None => None,
        }
    }
}

/// What a run is: it is not empty, its rows share the key of the first row,
/// and the row after it, if there is one, has another key.
pub proof fn lemma_run_props(rows: Seq<OwnerRowView>)
    requires
        rows.len() > 0,
    ensures
        1 <= run_len(rows) <= rows.len(),
        forall|i: int| 0 <= i < run_len(rows) ==> (#[trigger] rows[i]).owner_id == rows[0].owner_id,
        run_len(rows) < rows.len() ==> rows[run_len(rows) as int].owner_id != rows[0].owner_id,
    decreases rows.len(),
{
    if rows.len() > 1 && rows[1].owner_id == rows[0].owner_id {
        let rest = rows.skip(1);
        lemma_run_props(rest);
        assert forall|i: int| 0 <= i < run_len(rows) implies (#[trigger] rows[i]).owner_id
            == rows[0].owner_id by {
            if i > 0 {
                assert(rows[i] == rest[i - 1]);
            }
        }
        if run_len(rows) < rows.len() {
            assert(rows[run_len(rows) as int] == rest[run_len(rest) as int]);
        }
    }
}

/// `run_len` is the only length at which a run ends.
pub proof fn lemma_run_len_is(rows: Seq<OwnerRowView>, n: int)
    requires
        0 < n <= rows.len(),
        forall|i: int| 0 <= i < n ==> (#[trigger] rows[i]).owner_id == rows[0].owner_id,
        n == rows.len() || rows[n].owner_id != rows[0].owner_id,
    ensures
        run_len(rows) == n,
    decreases n,
{
    if n > 1 {
        let rest = rows.skip(1);
        assert(rows[1].owner_id == rows[0].owner_id);
        assert forall|i: int| 0 <= i < n - 1 implies (#[trigger] rest[i]).owner_id
            == rest[0].owner_id by {
            assert(rest[i] == rows[i + 1]);
        }
        lemma_run_len_is(rest, n - 1);
    }
}

/// Every kept row is complete and occurs among the rows it was kept from.
pub proof fn lemma_complete_rows_kept(rows: Seq<OwnerRowView>)
    ensures
        complete_rows(rows).len() <= rows.len(),
        forall|i: int|
            0 <= i < complete_rows(rows).len() ==> is_complete(#[trigger] complete_rows(rows)[i])
                && rows.contains(complete_rows(rows)[i]),
    decreases rows.len(),
{
    reveal(Seq::filter);
    if rows.len() > 0 {
        let front = rows.drop_last();
        let kept = complete_rows(rows);
        lemma_complete_rows_kept(front);
        assert forall|i: int| 0 <= i < kept.len() implies is_complete(#[trigger] kept[i])
            && rows.contains(kept[i]) by {
            if i < complete_rows(front).len() {
                assert(kept[i] == complete_rows(front)[i]);
                assert(front.contains(kept[i]));
                let j = choose|j: int| 0 <= j < front.len() && front[j] == kept[i];
                assert(rows[j] == kept[i]);
            } else {
                assert(rows[rows.len() - 1] == kept[i]);
            }
        }
    }
}

/// Rows that are all complete are all kept.
pub proof fn lemma_complete_rows_all(rows: Seq<OwnerRowView>)
    requires
        forall|i: int| 0 <= i < rows.len() ==> is_complete(#[trigger] rows[i]),
    ensures
        complete_rows(rows) == rows,
    decreases rows.len(),
{
    reveal(Seq::filter);
    if rows.len() > 0 {
        lemma_complete_rows_all(rows.drop_last());
        assert(rows.drop_last().push(rows.last()) == rows);
    }
}

/// Keeping the complete rows of two sequences in turn keeps those of their
/// concatenation.
pub proof fn lemma_complete_rows_add(a: Seq<OwnerRowView>, b: Seq<OwnerRowView>)
    ensures
        complete_rows(a + b) == complete_rows(a) + complete_rows(b),
{
    Seq::filter_distributes_over_add(a, b, |r: OwnerRowView| is_complete(r));
}

/// The owner of a run carries the key of the run and is well formed.
pub proof fn lemma_owner_of_run(run: Seq<OwnerRowView>)
    requires
        forall|i: int| 0 <= i < run.len() ==> (#[trigger] run[i]).owner_id == run[0].owner_id,
    ensures
        owner_of_run(run) matches Some(owner) ==> {
            &&& run.len() > 0
            &&& run[0].owner_id == Some(owner.id)
            &&& owner.wf()
        },
{
    let kept = complete_rows(run);
    lemma_complete_rows_kept(run);
    if kept.len() > 0 {
        assert(is_complete(kept[0]));
        assert(run.contains(kept[0]));
    }
}

/// Where the rows after a run start with another key, the run is grouped on
/// its own and the rows after it on their own.
pub proof fn lemma_group_first_run(run: Seq<OwnerRowView>, tail: Seq<OwnerRowView>)
    requires
        run.len() > 0,
        forall|i: int| 0 <= i < run.len() ==> (#[trigger] run[i]).owner_id == run[0].owner_id,
        tail.len() > 0 ==> tail[0].owner_id != run[0].owner_id,
    ensures
        group(run + tail) == match owner_of_run(run) {
            Some(owner) => seq![owner] + group(tail),
            None => group(tail),
        },
{
    let rows = run + tail;
    let n = run.len() as int;
    assert forall|i: int| 0 <= i < n implies (#[trigger] rows[i]).owner_id
        == rows[0].owner_id by {
        assert(rows[i] == run[i]);
    }
    if n < rows.len() {
        assert(rows[n] == tail[0]);
    }
    lemma_run_len_is(rows, n);
    assert(rows.take(n) == run);
    assert(rows.skip(n) == tail);
}

/// Rows that all carry one key, as the store returns them when asked for one
/// owner, give the owner of that run or nobody.
pub proof fn lemma_group_of_one_key(rows: Seq<OwnerRowView>)
    requires
        forall|i: int| 0 <= i < rows.len() ==> (#[trigger] rows[i]).owner_id == rows[0].owner_id,
    ensures
        group(rows) == match owner_of_run(rows) {
            Some(owner) => seq![owner],
            None => Seq::<OwnerView>::empty(),
        },
{
    let none = Seq::<OwnerRowView>::empty();
    if rows.len() > 0 {
        lemma_group_first_run(rows, none);
        assert(rows + none == rows);
        if owner_of_run(rows) is Some {
            assert(seq![owner_of_run(rows)->0] + group(none) == seq![owner_of_run(rows)->0]);
        }
    } else {
        lemma_complete_rows_kept(rows);
    }
}

/// How grouping proceeds: the first run gives at most one owner, which
/// carries the key of the run, and the rows after the run are grouped on their
/// own.
pub proof fn lemma_group_step(rows: Seq<OwnerRowView>)
    requires
        rows.len() > 0,
    ensures
        ({
            let n = run_len(rows) as int;
            let run = rows.take(n);
            let tail = rows.skip(n);
            let first = owner_of_run(run);
            &&& 1 <= n <= rows.len()
            &&& run + tail == rows
            &&& forall|i: int| 0 <= i < n ==> (#[trigger] rows[i]).owner_id == rows[0].owner_id
            &&& forall|i: int| 0 <= i < n ==> (#[trigger] run[i]) == rows[i]
            &&& forall|j: int| 0 <= j < tail.len() ==> (#[trigger] tail[j]) == rows[n + j]
            &&& tail.len() > 0 ==> tail[0].owner_id != rows[0].owner_id
            &&& first matches Some(owner) ==> rows[0].owner_id == Some(owner.id) && owner.wf()
            &&& group(rows) == match first {
                Some(owner) => seq![owner] + group(tail),
                None => group(tail),
            }
            &&& forall|i: int|
                0 <= i < group(rows).len() ==> #[trigger] group(rows)[i] == match first {
                    Some(owner) => if i == 0 {
                        owner
                    } else {
                        group(tail)[i - 1]
                    },
                    None => group(tail)[i],
                }
        }),
{
    lemma_run_props(rows);
    let n = run_len(rows) as int;
    let run = rows.take(n);
    let tail = rows.skip(n);
    assert(run + tail == rows);
    assert forall|i: int| 0 <= i < run.len() implies (#[trigger] run[i]).owner_id
        == run[0].owner_id by {
        assert(run[i] == rows[i]);
    }
    lemma_owner_of_run(run);
    assert(run[0] == rows[0]);
    if tail.len() > 0 {
        assert(tail[0] == rows[n]);
    }
}

/// Every owner that grouping gives is well formed.
pub proof fn lemma_group_owners_have_pets(rows: Seq<OwnerRowView>)
    ensures
        forall|i: int| 0 <= i < group(rows).len() ==> (#[trigger] group(rows)[i]).wf(),
    decreases rows.len(),
{
    if rows.len() > 0 {
        lemma_group_step(rows);
        lemma_group_owners_have_pets(rows.skip(run_len(rows) as int));
    }
}

/// Taking one more row either appends it to the complete rows or changes nothing.
proof fn lemma_complete_rows_step(rows: Seq<OwnerRowView>, k: int)
    requires
        0 <= k < rows.len(),
    ensures
        complete_rows(rows.take(k + 1)) == if is_complete(rows[k]) {
            complete_rows(rows.take(k)).push(rows[k])
        } else {
            complete_rows(rows.take(k))
        },
{
    reveal(Seq::filter);
    assert(rows.take(k + 1).drop_last() == rows.take(k));
}

} // verus!
