use vstd::prelude::*;
use zeroize::Zeroizing;

verus! {

/// A password held in a `zeroize::Zeroizing<String>`, which wipes the text
/// from memory when dropped. Verus cannot declare `Zeroizing` itself (its
/// `Zeroize` bound is an outside trait), so the wrapper is held here, opaque,
/// and its text is named by `secret_text`.
#[verifier::external_body]
#[derive(Debug, PartialEq, Eq)]
pub struct SecretString {
    inner: Zeroizing<String>,
}

/// The text a `SecretString` holds.
pub uninterp spec fn secret_text(s: SecretString) -> Seq<char>;

/// Calls `Zeroizing::new`, which moves the string inside the wrapper.
#[verifier::external_body]
pub fn protect(s: String) -> (z: SecretString)
    ensures
        secret_text(z) == s@,
{
    SecretString { inner: Zeroizing::new(s) }
}

impl SecretString {
    /// Copies the text out through `Zeroizing`'s `Deref` to the string.
    #[verifier::external_body]
    pub fn expose(&self) -> (s: String)
        ensures
            s@ == secret_text(*self),
    {
        let inner: &String = &self.inner;
        inner.clone()
    }
}

/// Calls `Zeroizing::clone`, which clones the inner string into a new wrapper.
#[verifier::external_body]
pub fn clone_secret(z: &SecretString) -> (c: SecretString)
    ensures
        secret_text(c) == secret_text(*z),
{
    SecretString { inner: z.inner.clone() }
}

} // verus!
