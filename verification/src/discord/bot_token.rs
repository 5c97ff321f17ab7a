//! Bot tokens, kept by the `secrecy` crate.

use secrecy::ExposeSecret;
use vstd::prelude::*;

verus! {

/// A bot token. Its memory is wiped when it is dropped.
#[verifier::external_body]
pub struct BotToken {
    secret: secrecy::Secret<String>,
}

/// The characters that a bot token holds.
pub uninterp spec fn exposed(token: BotToken) -> Seq<char>;

impl View for BotToken {
    type V = Seq<char>;

    open spec fn view(&self) -> Seq<char> {
        exposed(*self)
    }
}

/// `Secret::new`: the secret holds the given text.
#[verifier::external_body]
fn conceal(text: String) -> (token: BotToken)
    ensures
        exposed(token) == text@,
{
    BotToken { secret: secrecy::Secret::new(text) }
}

/// `ExposeSecret::expose_secret`: the text that the secret holds.
#[verifier::external_body]
fn expose(token: &BotToken) -> (text: &String)
    ensures
        text@ == exposed(*token),
{
    token.secret.expose_secret()
}

impl BotToken {
    /// A token with the given text.
    pub fn new(text: String) -> (token: BotToken)
        ensures
            token@ == text@,
    {
        conceal(text)
    }

    /// The text of the token.
    pub fn expose_secret(&self) -> (text: &String)
        ensures
            text@ == self@,
    {
        expose(self)
    }
}

} // verus!
