//! Values that carry secrets: a password container and the key material of a
//! freshly made wallet. Both wipe their secret text when released.
use vstd::prelude::*;
use std::collections::HashMap;
use zeroize::Zeroize;

verus! {

/// Relies on zeroize's `Zeroize for String`: it overwrites every byte of the
/// allocation with zero and then clears the string, so it is left empty.
#[verifier::external_body]
pub(crate) fn wipe(s: &mut String)
    ensures
        final(s)@ == Seq::<char>::empty(),
    opens_invariants none
    no_unwind
{
    s.zeroize();
}

/// What a secret container shows when rendered as text.
pub open spec fn redaction_marker() -> Seq<char> {
    "[REDACTED]"@
}

/// What a password container with text `content` shows when rendered.
pub open spec fn rendered(content: Seq<char>) -> Seq<char> {
    redaction_marker()
}

/// Any two passwords render the same, so a rendering tells nothing of the
/// text a password holds.
pub proof fn lemma_rendering_hides_content(a: Seq<char>, b: Seq<char>)
    ensures
        rendered(a) == rendered(b),
        rendered(a) == redaction_marker(),
{
}

/// Key material of a wallet. The address is public; the private key is
/// wiped when the value is released.
pub struct WalletInfo {
    pub address: String,
    pub private_key: String,
}

impl WalletInfo {
    /// Wipes the private key and keeps the address.
    pub fn zeroize(&mut self)
        ensures
            final(self).private_key@ == Seq::<char>::empty(),
            final(self).address@ == old(self).address@,
        opens_invariants none
        no_unwind
    {
        wipe(&mut self.private_key);
    }
}

impl Drop for WalletInfo {
    fn drop(&mut self)
        opens_invariants none
        no_unwind
    {
        self.zeroize();
    }
}

/// A password that is wiped when released and never rendered as text.
pub struct Password {
    inner: String,
}

impl View for Password {
    type V = Seq<char>;

    closed spec fn view(&self) -> Seq<char> {
        self.inner@
    }
}

impl Password {
    /// A password holding a copy of `password`; the caller should wipe its
    /// own copy.
    pub fn new(password: &str) -> (r: Password)
        ensures
            r@ == password@,
    {
        Password { inner: password.to_owned() }
    }

    /// A password that takes over `password`.
    pub fn from_string(password: String) -> (r: Password)
        ensures
            r@ == password@,
    {
        Password { inner: password }
    }

    /// The password text.
    pub fn as_str(&self) -> (r: &str)
        ensures
            r@ == self@,
    {
        self.inner.as_str()
    }

    /// Hands the text over to the caller, who then has to wipe it.
    pub fn into_string(self) -> (r: String)
        ensures
            r@ == self@,
    {
        let mut this = self;
        let mut result = String::new();
        std::mem::swap(&mut result, &mut this.inner);
        result
    }

    /// Calls `f` with an environment that maps `env_key` to the password.
    pub fn with_env<'a, F, T>(&'a self, env_key: &'a str, f: F) -> (r: T) where
        F: FnOnce(&HashMap<&'a str, &'a str>) -> T,

        requires
            forall|m: &HashMap<&'a str, &'a str>| f.requires((m,)),
        ensures
            exists|m: &HashMap<&'a str, &'a str>| f.ensures((m,), r),
    {
        let mut env_vars: HashMap<&'a str, &'a str> = HashMap::new();
        env_vars.insert(env_key, self.as_str());
        f(&env_vars)
    }

    /// Wipes the password; the container is empty afterwards.
    pub fn release(&mut self)
        ensures
            final(self)@ == Seq::<char>::empty(),
        opens_invariants none
        no_unwind
    {
        wipe(&mut self.inner);
    }

    /// The text shown for a password: a fixed marker, whatever it holds.
    pub fn to_string(&self) -> (r: String)
        ensures
            r@ == rendered(self@),
    {
        String::from_str("[REDACTED]")
    }
}

impl std::ops::Deref for Password {
    type Target = str;

    fn deref(&self) -> &str {
        self.inner.as_str()
    }
}

impl Drop for Password {
    fn drop(&mut self)
        opens_invariants none
        no_unwind
    {
        self.release();
    }
}

} // verus!
