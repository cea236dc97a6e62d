use vstd::prelude::*;

verus! {

/// One stored credential. `id` is the primary key of the store; the pair
/// (`page_name`, `username`) is the key by which callers look a record up.
#[derive(Clone, Debug)]
pub struct PasswordEntity {
    pub id: String,
    pub page_url: String,
    pub page_name: String,
    pub username: String,
    pub email: String,
    pub password: String,
}

impl PasswordEntity {
    pub fn new(
        id: String,
        page_url: String,
        page_name: String,
        username: String,
        email: String,
        password: String,
    ) -> (r: Self)
        ensures
            r.id == id,
            r.page_url == page_url,
            r.page_name == page_name,
            r.username == username,
            r.email == email,
            r.password == password,
    {
        PasswordEntity { id, page_url, page_name, username, email, password }
    }

    /// A field-by-field copy of the record.
    pub fn duplicate(&self) -> (r: Self)
        ensures
            r == *self,
    {
        PasswordEntity {
            id: self.id.clone(),
            page_url: self.page_url.clone(),
            page_name: self.page_name.clone(),
            username: self.username.clone(),
            email: self.email.clone(),
            password: self.password.clone(),
        }
    }
}

} // verus!
