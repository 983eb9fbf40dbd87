//! Credentials that do not show themselves.

use vstd::prelude::*;

verus! {

/// Opaque wrapper around a credential. The only way to the underlying string is
/// [`SecretString::expose_secret`]; what is shown for it never holds it.
pub struct SecretString(String);

impl View for SecretString {
    type V = Seq<char>;

    closed spec fn view(&self) -> Seq<char> {
        self.0@
    }
}

pub const REDACTED_DEBUG: &'static str = "SecretString(<redacted>)";

pub const REDACTED_DISPLAY: &'static str = "<redacted>";

impl SecretString {
    pub fn new(value: String) -> (secret: SecretString)
        ensures
            secret@ == value@,
    {
        SecretString(value)
    }

    /// Returns a reference to the wrapped secret. Callers are responsible for
    /// not logging or otherwise leaking the returned string.
    pub fn expose_secret(&self) -> (value: &str)
        ensures
            value@ == self@,
    {
        self.0.as_str()
    }

    /// What stands for the secret in debugging output.
    pub fn debug_text(&self) -> (text: String)
        ensures
            text@ == REDACTED_DEBUG@,
    {
        REDACTED_DEBUG.to_owned()
    }

    /// What stands for the secret in ordinary output.
    pub fn display_text(&self) -> (text: String)
        ensures
            text@ == REDACTED_DISPLAY@,
    {
        REDACTED_DISPLAY.to_owned()
    }
}

impl PartialEq for SecretString {
    fn eq(&self, other: &SecretString) -> (same: bool) {
        self.0 == other.0
    }
}

impl vstd::std_specs::cmp::PartialEqSpecImpl for SecretString {
    open spec fn obeys_eq_spec() -> bool {
        true
    }

    open spec fn eq_spec(&self, other: &SecretString) -> bool {
        self@ == other@
    }
}

impl From<String> for SecretString {
    fn from(value: String) -> (secret: SecretString)
        ensures
            secret@ == value@,
    {
        SecretString(value)
    }
}

impl vstd::std_specs::convert::FromSpecImpl<String> for SecretString {
    open spec fn obeys_from_spec() -> bool {
        false
    }

    open spec fn from_spec(value: String) -> SecretString {
        arbitrary()
    }
}

impl From<&str> for SecretString {
    fn from(value: &str) -> (secret: SecretString)
        ensures
            secret@ == value@,
    {
        SecretString(value.to_owned())
    }
}

impl vstd::std_specs::convert::FromSpecImpl<&str> for SecretString {
    open spec fn obeys_from_spec() -> bool {
        false
    }

    open spec fn from_spec(value: &str) -> SecretString {
        arbitrary()
    }
}

impl Clone for SecretString {
    fn clone(&self) -> (copy: SecretString)
        ensures
            copy@ == self@,
    {
        SecretString(self.0.clone())
    }
}

} // verus!
