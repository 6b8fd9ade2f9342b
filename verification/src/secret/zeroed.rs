//! Secret material in memory, held in `zeroize::Zeroizing`.

use vstd::prelude::*;
use zeroize::Zeroizing;

verus! {

/// A text that is overwritten in memory when it is dropped.
#[verifier::external_body]
#[derive(Debug)]
pub struct SecretText {
    inner: Zeroizing<String>,
}

/// The characters that a secret text holds.
pub uninterp spec fn material(text: SecretText) -> Seq<char>;

impl SecretText {
    /// `Zeroizing::new` holds the text that it is given.
    #[verifier::external_body]
    fn hold(text: String) -> (value: SecretText)
        ensures
            material(value) == text@,
    {
        SecretText { inner: Zeroizing::new(text) }
    }

    /// `Zeroizing`'s `Deref` hands out the text that it holds.
    #[verifier::external_body]
    fn held(&self) -> (text: &String)
        ensures
            text@ == material(*self),
    {
        &self.inner
    }

    /// A secret text that holds `text`.
    pub fn new(text: String) -> (value: SecretText)
        ensures
            material(value) == text@,
    {
        SecretText::hold(text)
    }

    /// The text, in the clear.
    pub fn expose(&self) -> (text: &str)
        ensures
            text@ == material(*self),
    {
        self.held().as_str()
    }
}

impl Clone for SecretText {
    fn clone(&self) -> (copy: Self)
        ensures
            material(copy) == material(*self),
    {
        SecretText::new(self.expose().to_owned())
    }
}

} // verus!
