//! The statements sent to the store, and what is made of its answers.
use vstd::prelude::*;
use vstd::string::StringExecFns;
use crate::error::PetsDbError;
use crate::grouping::group;
use crate::model::{Owner, OwnerRow, owners_view, rows_view};

verus! {

/// The join of every owner with each of their pets and its type, one row per
/// pet.
pub const OWNER_SELECT: &'static str = "SELECT
    owner.id as owner_id,
    owner.name as owner_name,
    pet.id as pet_id,
    pet.name as pet_name,
    pet_type.name as pet_type
FROM
    owners owner
    JOIN pets pet ON owner.id = pet.owner_id
    JOIN pet_types pet_type ON pet.type_id = pet_type.id";

/// The condition that keeps the rows of one owner. The identifier is not
/// written here: it is bound to the placeholder.
pub const OWNER_ID_FILTER: &'static str = "owner.id = ?";

/// The order that brings the rows of each owner together.
pub const OWNER_ORDER: &'static str = "ORDER BY owner_id";

/// A statement as it is handed to the store: text with one `?` for each value,
/// and the values bound to them, in order.
#[derive(Debug, Clone, PartialEq, Eq)]
pub struct Statement {
    pub text: String,
    pub params: Vec<u32>,
}

/// The text that asks for all owners.
pub open spec fn owner_query_text() -> Seq<char> {
    OWNER_SELECT@ + "\n"@ + OWNER_ORDER@
}

/// The text that asks for one owner. It is the same for every identifier.
pub open spec fn find_owner_text() -> Seq<char> {
    OWNER_SELECT@ + "\nWHERE "@ + OWNER_ID_FILTER@ + "\n"@ + OWNER_ORDER@
}

impl Owner {
    /// The statement that asks for all owners.
    pub fn all_statement() -> (statement: Statement)
        ensures
            statement.text@ == owner_query_text(),
            statement.params@ == Seq::<u32>::empty(),
    {
        let mut text = String::from_str(OWNER_SELECT);
        text.append("\n");
        text.append(OWNER_ORDER);
        Statement { text, params: Vec::new() }
    }

    /// The statement that asks for the owner with the identifier `id`. The
    /// identifier travels as a bound value and never becomes part of the text.
    pub fn find_statement(id: u32) -> (statement: Statement)
        ensures
            statement.text@ == find_owner_text(),
            statement.params@ == seq![id],
    {
        let mut text = String::from_str(OWNER_SELECT);
        text.append("\nWHERE ");
        text.append(OWNER_ID_FILTER);
        text.append("\n");
        text.append(OWNER_ORDER);
        let mut params: Vec<u32> = Vec::new();
        params.push(id);
        Statement { text, params }
    }

    /// All owners, from what the store answered to `all_statement`: the rows
    /// grouped, or the store's failure. No rows are no owners, not an error.
    pub fn all(fetched: Result<Vec<OwnerRow>, mysql::Error>) -> (outcome: Result<
        Vec<Owner>,
        PetsDbError,
    >)
        ensures
            match fetched {
                Ok(rows) => outcome matches Ok(owners) && owners_view(owners@) == group(
                    rows_view(rows@),
                ),
                Err(error) => outcome == Err::<Vec<Owner>, PetsDbError>(
                    PetsDbError::MysqlError(error),
                ),
            },
            fetched matches Ok(rows) && rows.len() == 0 ==> (outcome matches Ok(owners)
                && owners.len() == 0),
    {
        match fetched {
            Ok(rows) => {
                let owners = Owner::parse_result(rows);
                assert(owners_view(owners@).len() == owners.len());
                Ok(owners)
            },
            Err(error) => Err(PetsDbError::from(error)),
        }
    }

    /// One owner, from what the store answered to `find_statement`: the first
    /// owner that the rows give, `OwnerNotFound` where they give none, or the
    /// store's failure.
    pub fn find(fetched: Result<Vec<OwnerRow>, mysql::Error>) -> (outcome: Result<
        Owner,
        PetsDbError,
    >)
        ensures
            match fetched {
                Ok(rows) => {
                    let owners = group(rows_view(rows@));
                    if owners.len() == 0 {
                        outcome == Err::<Owner, PetsDbError>(PetsDbError::OwnerNotFound)
                    } else {
                        outcome matches Ok(owner) && owner@ == owners[0]
                    }
                },
                Err(error) => outcome == Err::<Owner, PetsDbError>(
                    PetsDbError::MysqlError(error),
                ),
            },
            fetched matches Ok(rows) && rows.len() == 0 ==> outcome == Err::<Owner, PetsDbError>(
                PetsDbError::OwnerNotFound,
            ),
            outcome matches Ok(owner) ==> owner@.wf(),
    {
        match fetched {
            Ok(rows) => {
                let mut owners = Owner::parse_result(rows);
                assert(owners_view(owners@).len() == owners.len());
                if owners.len() == 0 {
                    Err(PetsDbError::OwnerNotFound)
                } else {
                    let ghost all = owners@;
                    let first = owners.remove(0);
                    assert(first@ == owners_view(all)[0]);
                    Ok(first)
                }
            },
            Err(error) => Err(PetsDbError::from(error)),
        }
    }
}

} // verus!
