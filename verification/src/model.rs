//! The records that are served, the flat rows they are built from, and the
//! mathematical view of each.
use vstd::prelude::*;

verus! {

/// A category label for a pet, such as "Dog".
#[derive(Debug, Clone, PartialEq, Eq)]
pub struct PetType {
    pub id: i32,
    pub name: String,
}

/// An animal that belongs to exactly one owner.
#[derive(Debug, Clone, PartialEq, Eq)]
pub struct Pets {
    pub id: i32,
    pub name: String,
    pub pet_type: PetType,
}

/// A person together with the pets they own, in the order the store listed them.
#[derive(Debug, Clone, PartialEq, Eq)]
pub struct Owner {
    pub id: i32,
    pub name: String,
    pub pets: Vec<Pets>,
}

/// One row of the owner-pet-type join. A field that the store did not deliver
/// is `None`.
#[derive(Debug, Clone, PartialEq, Eq)]
pub struct OwnerRow {
    pub owner_id: Option<i32>,
    pub owner_name: Option<String>,
    pub pet_id: Option<i32>,
    pub pet_name: Option<String>,
    pub pet_type: Option<String>,
}

pub ghost struct PetTypeView {
    pub id: i32,
    pub name: Seq<char>,
}

pub ghost struct PetsView {
    pub id: i32,
    pub name: Seq<char>,
    pub pet_type: PetTypeView,
}

pub ghost struct OwnerView {
    pub id: i32,
    pub name: Seq<char>,
    pub pets: Seq<PetsView>,
}

pub ghost struct OwnerRowView {
    pub owner_id: Option<i32>,
    pub owner_name: Option<Seq<char>>,
    pub pet_id: Option<i32>,
    pub pet_name: Option<Seq<char>>,
    pub pet_type: Option<Seq<char>>,
}

impl OwnerView {
    /// An owner is well formed when it has at least one pet, and zero stands
    /// for the identifier of every pet type, which the store is not asked for.
    pub open spec fn wf(self) -> bool {
        &&& self.pets.len() > 0
        &&& forall|j: int| 0 <= j < self.pets.len() ==> (#[trigger] self.pets[j]).pet_type.id == 0
    }
}

/// The text of an optional string.
pub open spec fn text_of(s: Option<String>) -> Option<Seq<char>> {
    match s {
        Some(t) => Some(t@),
        None => None,
    }
}

impl View for PetType {
    type V = PetTypeView;

    open spec fn view(&self) -> PetTypeView {
        PetTypeView { id: self.id, name: self.name@ }
    }
}

impl View for Pets {
    type V = PetsView;

    open spec fn view(&self) -> PetsView {
        PetsView { id: self.id, name: self.name@, pet_type: self.pet_type@ }
    }
}

impl View for Owner {
    type V = OwnerView;

    open spec fn view(&self) -> OwnerView {
        OwnerView { id: self.id, name: self.name@, pets: pets_view(self.pets@) }
    }
}

impl View for OwnerRow {
    type V = OwnerRowView;

    open spec fn view(&self) -> OwnerRowView {
        OwnerRowView {
            owner_id: self.owner_id,
            owner_name: text_of(self.owner_name),
            pet_id: self.pet_id,
            pet_name: text_of(self.pet_name),
            pet_type: text_of(self.pet_type),
        }
    }
}

/// The views of a sequence of pets, in order.
pub open spec fn pets_view(pets: Seq<Pets>) -> Seq<PetsView> {
    pets.map_values(|p: Pets| p@)
}

/// The views of a sequence of owners, in order.
pub open spec fn owners_view(owners: Seq<Owner>) -> Seq<OwnerView> {
    owners.map_values(|o: Owner| o@)
}

/// The views of a sequence of rows, in order.
pub open spec fn rows_view(rows: Seq<OwnerRow>) -> Seq<OwnerRowView> {
    rows.map_values(|r: OwnerRow| r@)
}

} // verus!
