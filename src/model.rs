use vstd::prelude::*;

verus! {

/// A user record. `id` is `None` in a payload that a client sends, and the
/// identifier that storage assigned in a record that storage returns.
pub struct User {
    pub id: Option<i32>,
    pub name: String,
    pub email: String,
}

/// What a user record holds, as mathematical values.
pub struct UserView {
    pub id: Option<i32>,
    pub name: Seq<char>,
    pub email: Seq<char>,
}

impl View for User {
    type V = UserView;

    open spec fn view(&self) -> UserView {
        UserView { id: self.id, name: self.name@, email: self.email@ }
    }
}

impl User {
    pub fn new(id: Option<i32>, name: String, email: String) -> (r: User)
        ensures
            r.id == id,
            r.name@ == name@,
            r.email@ == email@,
    {
        User { id, name, email }
    }

    /// A field-by-field copy.
    pub fn duplicate(&self) -> (r: User)
        ensures
            r@ == self@,
    {
        User { id: self.id, name: self.name.clone(), email: self.email.clone() }
    }
}

} // verus!
