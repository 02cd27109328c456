//! Writing owners out again as flat rows, one row per pet.
use vstd::prelude::*;
use crate::model::{Owner, OwnerRow, OwnerRowView, OwnerView, PetsView, owners_view, rows_view};

verus! {

/// The row that lists `pet` under `owner`.
pub open spec fn row_of(owner: OwnerView, pet: PetsView) -> OwnerRowView {
    OwnerRowView {
        owner_id: Some(owner.id),
        owner_name: Some(owner.name),
        pet_id: Some(pet.id),
        pet_name: Some(pet.name),
        pet_type: Some(pet.pet_type.name),
    }
}

/// The rows that list the pets of one owner, in order.
pub open spec fn rows_of(owner: OwnerView) -> Seq<OwnerRowView> {
    Seq::new(owner.pets.len(), |i: int| row_of(owner, owner.pets[i]))
}

/// The rows that list every pet of every owner, in order.
pub open spec fn flatten(owners: Seq<OwnerView>) -> Seq<OwnerRowView>
    decreases owners.len(),
{
    if owners.len() == 0 {
        Seq::empty()
    } else {
        rows_of(owners[0]) + flatten(owners.skip(1))
    }
}

/// Flattening owners writes out the rows of the first, then those of the rest.
pub proof fn lemma_flatten_front(owner: OwnerView, rest: Seq<OwnerView>)
    ensures
        flatten(seq![owner] + rest) == rows_of(owner) + flatten(rest),
{
    let owners = seq![owner] + rest;
    assert(owners[0] == owner);
    assert(owners.skip(1) == rest);
}

/// Flattening owners writes out the rows of all but the last, then those of
/// the last.
pub proof fn lemma_flatten_push(owners: Seq<OwnerView>, last: OwnerView)
    ensures
        flatten(owners.push(last)) == flatten(owners) + rows_of(last),
    decreases owners.len(),
{
    let all = owners.push(last);
    if owners.len() == 0 {
        assert(all.skip(1) == Seq::<OwnerView>::empty());
        assert(flatten(all) == rows_of(last) + flatten(all.skip(1)));
        assert(flatten(owners) + rows_of(last) == rows_of(last));
        assert(rows_of(last) + flatten(all.skip(1)) == rows_of(last));
    } else {
        lemma_flatten_push(owners.skip(1), last);
        assert(all.skip(1) == owners.skip(1).push(last));
        assert(all[0] == owners[0]);
        assert(rows_of(owners[0]) + (flatten(owners.skip(1)) + rows_of(last)) == (rows_of(
            owners[0],
        ) + flatten(owners.skip(1))) + rows_of(last));
    }
}

impl Owner {
    /// The rows that list the pets of this owner, one row per pet, in order.
    pub fn rows(&self) -> (rows: Vec<OwnerRow>)
        ensures
            rows_view(rows@) == rows_of(self@),
    {
        let mut rows: Vec<OwnerRow> = Vec::new();
        let mut i: usize = 0;
        while i < self.pets.len()
            invariant
                i <= self.pets.len(),
                rows.len() == i,
                forall|k: int| 0 <= k < i ==> (#[trigger] rows[k])@ == row_of(self@, self.pets[k]@),
            decreases self.pets.len() - i,
        {
            let pet = &self.pets[i];
            rows.push(
                OwnerRow {
                    owner_id: Some(self.id),
                    owner_name: Some(self.name.clone()),
                    pet_id: Some(pet.id),
                    pet_name: Some(pet.name.clone()),
                    pet_type: Some(pet.pet_type.name.clone()),
                },
            );
            i += 1;
        }
        assert(rows_view(rows@) =~= rows_of(self@));
        rows
    }
}

/// Writes owners out as the rows that list every pet of every owner, in order.
pub fn flatten_owners(owners: &Vec<Owner>) -> (rows: Vec<OwnerRow>)
    ensures
        rows_view(rows@) == flatten(owners_view(owners@)),
{
    let ghost all = owners_view(owners@);
    let mut rows: Vec<OwnerRow> = Vec::new();
    let mut i: usize = 0;
    assert(rows_view(rows@) =~= flatten(all.take(0)));
    while i < owners.len()
        invariant
            i <= owners.len(),
            all == owners_view(owners@),
            rows_view(rows@) == flatten(all.take(i as int)),
        decreases owners.len() - i,
    {
        let ghost before = rows@;
        let mut part = owners[i].rows();
        let ghost added = part@;
        rows.append(&mut part);
        proof {
            lemma_flatten_push(all.take(i as int), all[i as int]);
            assert(all.take(i as int).push(all[i as int]) == all.take(i + 1));
            assert(rows_view(before + added) =~= rows_view(before) + rows_view(added));
        }
        i += 1;
    }
    assert(all.take(i as int) == all);
    rows
}

} // verus!
