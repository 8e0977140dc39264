use vstd::prelude::*;

verus! {

/// A string that is never shown in debug output.
#[derive(Clone)]
pub struct SecretString(String);

impl View for SecretString {
    type V = Seq<char>;

    closed spec fn view(&self) -> Seq<char> {
        self.0@
    }
}

impl SecretString {
    pub fn new(s: String) -> (r: Self)
        ensures
            r@ == s@,
    {
        SecretString(s)
    }

    pub fn expose(&self) -> (r: &str)
        ensures
            r@ == self@,
    {
        self.0.as_str()
    }

    /// The debug rendering: always the quoted mask, whatever the secret is.
    pub fn debug_masked(&self) -> (r: String)
        ensures
            r@ == masked_debug_text(),
    {
        String::from_str("\"***\"")
    }

    /// The display rendering: always the mask.
    pub fn display_masked(&self) -> (r: String)
        ensures
            r@ == masked_display_text(),
    {
        String::from_str("***")
    }
}

pub open spec fn masked_debug_text() -> Seq<char> {
    "\"***\""@
}

pub open spec fn masked_display_text() -> Seq<char> {
    "***"@
}

} // verus!
