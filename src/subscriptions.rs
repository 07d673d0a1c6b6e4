use vstd::prelude::*;

verus! {

/// What a visitor hands in to subscribe.
pub struct FormData {
    email: String,
    name: String,
}

impl FormData {
    pub fn new(email: String, name: String) -> (r: FormData)
        ensures
            r.email()@ == email@,
            r.name()@ == name@,
    {
        FormData { email, name }
    }

    pub closed spec fn email(&self) -> String {
        self.email
    }

    pub closed spec fn name(&self) -> String {
        self.name
    }

    pub fn email_address(&self) -> (r: &String)
        ensures
            r@ == self.email()@,
    {
        &self.email
    }

    pub fn subscriber_name(&self) -> (r: &String)
        ensures
            r@ == self.name()@,
    {
        &self.name
    }
}

} // verus!
