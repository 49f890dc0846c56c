//! The payload of a CONNECT: the client id, the will, and the login.
use vstd::prelude::*;

verus! {

#[derive(Debug, Clone, PartialEq)]
pub struct ConnectPayload {
    client_id: String,
    will_topic: Option<String>,
    will_message: Option<String>,
    username: Option<String>,
    password: Option<String>,
}

/// The text of an optional text, if any.
pub open spec fn opt_chars(o: Option<String>) -> Option<Seq<char>> {
    match o {
        Some(s) => Some(s@),
        None => None,
    }
}

/// The text an optional reference points to, if any.
pub open spec fn opt_ref_chars(o: Option<&String>) -> Option<Seq<char>> {
    match o {
        Some(s) => Some(s@),
        None => None,
    }
}

fn opt_as_ref(o: &Option<String>) -> (r: Option<&String>)
    ensures
        opt_ref_chars(r) == opt_chars(*o),
{
    match o {
        Some(s) => Some(s),
        None => None,
    }
}

impl ConnectPayload {
    pub closed spec fn spec_client_id(&self) -> Seq<char> {
        self.client_id@
    }

    pub closed spec fn spec_will_topic(&self) -> Option<Seq<char>> {
        opt_chars(self.will_topic)
    }

    pub closed spec fn spec_will_message(&self) -> Option<Seq<char>> {
        opt_chars(self.will_message)
    }

    pub closed spec fn spec_username(&self) -> Option<Seq<char>> {
        opt_chars(self.username)
    }

    pub closed spec fn spec_password(&self) -> Option<Seq<char>> {
        opt_chars(self.password)
    }

    pub fn new(
        client_id: String,
        will_topic: Option<String>,
        will_message: Option<String>,
        username: Option<String>,
        password: Option<String>,
    ) -> (r: Self)
        ensures
            r.spec_client_id() == client_id@,
            r.spec_will_topic() == opt_chars(will_topic),
            r.spec_will_message() == opt_chars(will_message),
            r.spec_username() == opt_chars(username),
            r.spec_password() == opt_chars(password),
    {
        ConnectPayload { client_id, will_topic, will_message, username, password }
    }

    pub fn client_id(&self) -> (r: &str)
        ensures
            r@ == self.spec_client_id(),
    {
        self.client_id.as_str()
    }

    pub fn will_topic(&self) -> (r: Option<&String>)
        ensures
            opt_ref_chars(r) == self.spec_will_topic(),
    {
        opt_as_ref(&self.will_topic)
    }

    pub fn will_message(&self) -> (r: Option<&String>)
        ensures
            opt_ref_chars(r) == self.spec_will_message(),
    {
        opt_as_ref(&self.will_message)
    }

    pub fn username(&self) -> (r: Option<&String>)
        ensures
            opt_ref_chars(r) == self.spec_username(),
    {
        opt_as_ref(&self.username)
    }

    pub fn password(&self) -> (r: Option<&String>)
        ensures
            opt_ref_chars(r) == self.spec_password(),
    {
        opt_as_ref(&self.password)
    }
}

} // verus!
