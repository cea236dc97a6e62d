//! The storage contract that the use cases work against.
use vstd::prelude::*;
use crate::entity::PasswordEntity;
use crate::records::{found_by_id, has_id, saved, without_id};

verus! {

/// Why a store operation failed.
#[derive(Clone, Debug)]
pub enum RepositoryError {
    /// No record has the id, or the site name and user name, asked for.
    NotFound,
    /// The backing medium could not be opened, created or written.
    StorageIo(String),
    /// The stored content is not a valid record collection, or a record
    /// could not be written out.
    Serialization(String),
}

pub type RepositoryResult<T> = Result<T, RepositoryError>;

/// A store of credential records keyed by id. `records` is the collection
/// in store order.
pub trait IPasswordRepository {
    spec fn records(&self) -> Seq<PasswordEntity>;

    /// Inserts the record if its id is new, else replaces the first record
    /// with that id in place; hands the record back.
    fn save(&mut self, password: &PasswordEntity) -> (r: RepositoryResult<PasswordEntity>)
        ensures
            final(self).records() == saved(old(self).records(), *password),
            r == Ok::<PasswordEntity, RepositoryError>(*password),
    ;

    /// The first record with this id, or `None`.
    fn get_by_id(&self, id: &str) -> (r: RepositoryResult<Option<PasswordEntity>>)
        ensures
            r == Ok::<Option<PasswordEntity>, RepositoryError>(found_by_id(self.records(), id@)),
    ;

    /// Every record, in store order.
    fn get_all(&self) -> (r: RepositoryResult<Vec<PasswordEntity>>)
        ensures
            r is Ok,
            r->Ok_0@ == self.records(),
    ;

    /// Removes the records with this id; `NotFound` when there is none.
    fn delete_by_id(&mut self, id: &str) -> (r: RepositoryResult<()>)
        ensures
            has_id(old(self).records(), id@) ==> r is Ok && final(self).records() == without_id(
                old(self).records(),
                id@,
            ),
            !has_id(old(self).records(), id@) ==> r is Err && r->Err_0 is NotFound
                && final(self).records() == old(self).records(),
    ;
}

} // verus!
