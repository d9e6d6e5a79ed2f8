use vstd::prelude::*;

verus! {

/// Abstract value of a profile record: the contents of its two fields.
pub struct UserView {
    pub name: Seq<char>,
    pub email: Seq<char>,
}

/// A profile record persisted beside the counter in the durable store.
#[derive(Debug)]
pub struct User {
    name: String,
    email: String,
}

impl View for User {
    type V = UserView;

    closed spec fn view(&self) -> UserView {
        UserView { name: self.name@, email: self.email@ }
    }
}

impl Clone for User {
    fn clone(&self) -> (r: Self)
        ensures
            r == *self,
    {
        User { name: self.name.clone(), email: self.email.clone() }
    }
}

impl User {
    pub fn new(name: String, email: String) -> (r: User)
        ensures
            r@.name == name@,
            r@.email == email@,
    {
        User { name, email }
    }

    pub fn name(&self) -> (r: &String)
        ensures
            r@ == self@.name,
    {
        &self.name
    }

    pub fn email(&self) -> (r: &String)
        ensures
            r@ == self@.email,
    {
        &self.email
    }
}

} // verus!
