//! The intent-level operations: add, list, and get or delete by site name
//! and user name, resolved to an id by the first matching record.
use vstd::prelude::*;
use crate::entity::PasswordEntity;
use crate::records::{
    found_by_id, has_id, key_index, lemma_key_index_from, position_of_key, saved, without_id,
};
use crate::repository::{IPasswordRepository, RepositoryError, RepositoryResult};

verus! {

/// The use cases, over the store they were given.
pub struct PasswordUseCase<R: IPasswordRepository> {
    repository: R,
}

/// The id that (`site`, `user`) resolves to in `s`: that of the first record
/// with this site name and user name.
pub open spec fn resolved_id(s: Seq<PasswordEntity>, site: Seq<char>, user: Seq<char>) -> Option<
    Seq<char>,
> {
    match key_index(s, site, user) {
        Some(i) => Some(s[i].id@),
        None => None,
    }
}

impl<R: IPasswordRepository> PasswordUseCase<R> {
    /// The records of the store.
    pub closed spec fn store(&self) -> Seq<PasswordEntity> {
        self.repository.records()
    }

    pub fn new(repository: R) -> (r: Self)
        ensures
            r.store() == repository.records(),
    {
        PasswordUseCase { repository }
    }

    /// The store, for the caller that persists it.
    pub fn repository(&self) -> (r: &R)
        ensures
            r.records() == self.store(),
    {
        &self.repository
    }

    pub fn add_password(&mut self, password: &PasswordEntity) -> (r: RepositoryResult<PasswordEntity>)
        ensures
            final(self).store() == saved(old(self).store(), *password),
            r == Ok::<PasswordEntity, RepositoryError>(*password),
    {
        self.repository.save(password)
    }

    pub fn get_all_passwords(&self) -> (r: RepositoryResult<Vec<PasswordEntity>>)
        ensures
            r is Ok,
            r->Ok_0@ == self.store(),
    {
        self.repository.get_all()
    }

    /// The record that (`site`, `username`) resolves to; `NotFound` when no
    /// record has this site name and user name.
    pub fn get_password(&self, site: &str, username: &str) -> (r: RepositoryResult<
        Option<PasswordEntity>,
    >)
        ensures
            match resolved_id(self.store(), site@, username@) {
                Some(id) => r == Ok::<Option<PasswordEntity>, RepositoryError>(
                    found_by_id(self.store(), id),
                ),
                None => r is Err && r->Err_0 is NotFound,
            },
    {
        let id = self.find_id_by_site_and_username(site, username)?;
        self.repository.get_by_id(id.as_str())
    }

    /// Removes the records with the id that (`site`, `username`) resolves
    /// to; `NotFound`, with the store unchanged, when no record has this
    /// site name and user name.
    pub fn delete_password(&mut self, site: &str, username: &str) -> (r: RepositoryResult<()>)
        ensures
            match resolved_id(old(self).store(), site@, username@) {
                Some(id) => r is Ok && final(self).store() == without_id(old(self).store(), id),
                None => r is Err && r->Err_0 is NotFound && final(self).store() == old(
                    self,
                ).store(),
            },
    {
        let id = self.find_id_by_site_and_username(site, username)?;
        proof {
            lemma_key_index_from(self.store(), site@, username@, 0);
            let i = key_index(self.store(), site@, username@)->Some_0;
            assert(has_id(self.store(), id@)) by {
                assert(self.store()[i].id@ == id@);
            }
        }
        self.repository.delete_by_id(id.as_str())
    }

    /// The id of the first record with this site name and user name.
    fn find_id_by_site_and_username(&self, site: &str, username: &str) -> (r: RepositoryResult<String>)
        ensures
            match resolved_id(self.store(), site@, username@) {
                Some(id) => r is Ok && r->Ok_0@ == id,
                None => r is Err && r->Err_0 is NotFound,
            },
    {
        let passwords = self.repository.get_all()?;
        let site_key = site.to_owned();
        let user_key = username.to_owned();
        proof {
            lemma_key_index_from(passwords@, site@, username@, 0);
        }
        match position_of_key(&passwords, &site_key, &user_key) {
            Some(i) => Ok(passwords[i].id.clone()),
            None => Err(RepositoryError::NotFound),
        }
    }
}

} // verus!
