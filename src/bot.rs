//! The address book of the chat transport: where each method of its API is
//! called for a given bot.

use vstd::prelude::*;

verus! {

/// A bot of the chat transport, known by its token.
#[derive(Debug)]
pub struct Bot {
    token: String,
}

/// The base of every method address.
pub open spec fn api_base() -> Seq<char> {
    "https://api.telegram.org/bot"@
}

impl View for Bot {
    type V = Seq<char>;

    closed spec fn view(&self) -> Seq<char> {
        self.token@
    }
}

impl Bot {
    pub fn new(token: String) -> (r: Bot)
        ensures
            r@ == token@,
    {
        Bot { token }
    }

    /// The address at which this bot calls the API method `method`.
    pub fn method_url(&self, method: &str) -> (r: String)
        ensures
            r@ == api_base() + self@ + "/"@ + method@,
    {
        let mut r = String::new();
        r.append("https://api.telegram.org/bot");
        r.append(self.token.as_str());
        r.append("/");
        r.append(method);
        r
    }
}

} // verus!
