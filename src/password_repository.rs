//! The store bound to one backing file. It holds the collection that was
//! read from the file; every operation works on that collection, and the
//! caller writes the collection back after a change.
use vstd::prelude::*;
use crate::entity::PasswordEntity;
use crate::records::{
    lemma_id_index_from, lemma_without_absent_id, position_of_id, remove_id, upsert,
};
use crate::repository::{IPasswordRepository, RepositoryError, RepositoryResult};

verus! {

pub struct PasswordRepository {
    file_path: String,
    passwords: Vec<PasswordEntity>,
}

/// A field-by-field copy of every record, order kept.
pub fn copy_records(v: &Vec<PasswordEntity>) -> (r: Vec<PasswordEntity>)
    ensures
        r@ == v@,
{
    let mut out: Vec<PasswordEntity> = Vec::new();
    let mut i: usize = 0;
    while i < v.len()
        invariant
            0 <= i <= v.len(),
            out@ == v@.subrange(0, i as int),
        decreases v.len() - i,
    {
        out.push(v[i].duplicate());
        i = i + 1;
        assert(out@ =~= v@.subrange(0, i as int));
    }
    assert(v@.subrange(0, v.len() as int) =~= v@);
    out
}

impl PasswordRepository {
    /// A store for the file at `file_path` that holds no record yet.
    pub fn new(file_path: &str) -> (r: Self)
        ensures
            r.path() == file_path@,
            r.records() == Seq::<PasswordEntity>::empty(),
    {
        PasswordRepository { file_path: file_path.to_owned(), passwords: Vec::new() }
    }

    pub closed spec fn path(&self) -> Seq<char> {
        self.file_path@
    }

    /// A store for the file at `file_path` from what reading it gave: `None`
    /// where the file is absent or unreadable (a fresh store, empty),
    /// the decoded records, or the message of a failed decoding.
    pub fn load(file_path: &str, stored: Option<Result<Vec<PasswordEntity>, String>>) -> (r:
        RepositoryResult<PasswordRepository>)
        ensures
            match stored {
                None => r is Ok && r->Ok_0.path() == file_path@ && r->Ok_0.records()
                    == Seq::<PasswordEntity>::empty(),
                Some(Ok(v)) => r is Ok && r->Ok_0.path() == file_path@ && r->Ok_0.records() == v@,
                Some(Err(m)) => r == Err::<PasswordRepository, RepositoryError>(
                    RepositoryError::Serialization(m),
                ),
            },
    {
        match stored {
            None => Ok(PasswordRepository::new(file_path)),
            Some(Ok(v)) => Ok(PasswordRepository { file_path: file_path.to_owned(), passwords: v }),
            Some(Err(m)) => Err(RepositoryError::Serialization(m)),
        }
    }

    /// The path of the backing file.
    pub fn file_path(&self) -> (r: &str)
        ensures
            r@ == self.path(),
    {
        self.file_path.as_str()
    }
}

impl IPasswordRepository for PasswordRepository {
    closed spec fn records(&self) -> Seq<PasswordEntity> {
        self.passwords@
    }

    fn save(&mut self, password: &PasswordEntity) -> (r: RepositoryResult<PasswordEntity>) {
        upsert(&mut self.passwords, password);
        Ok(password.duplicate())
    }

    fn get_by_id(&self, id: &str) -> (r: RepositoryResult<Option<PasswordEntity>>) {
        let key = id.to_owned();
        proof {
            lemma_id_index_from(self.passwords@, id@, 0);
        }
        match position_of_id(&self.passwords, &key) {
            Some(i) => Ok(Some(self.passwords[i].duplicate())),
            None => Ok(None),
        }
    }

    fn get_all(&self) -> (r: RepositoryResult<Vec<PasswordEntity>>) {
        Ok(copy_records(&self.passwords))
    }

    fn delete_by_id(&mut self, id: &str) -> (r: RepositoryResult<()>) {
        let key = id.to_owned();
        let found = remove_id(&mut self.passwords, &key);
        if found {
            Ok(())
        } else {
            proof {
                lemma_without_absent_id(old(self).passwords@, id@);
            }
            Err(RepositoryError::NotFound)
        }
    }
}

} // verus!
