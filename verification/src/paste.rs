//! The records that travel through the service.

use vstd::prelude::*;
use vstd::string::*;

verus! {

/// The longest display name, in characters.
pub const MAX_NAME_CHARS: usize = 128;

/// What a client submits to create a paste.
#[derive(Clone, Debug, PartialEq, Eq)]
pub struct PasteSubmission {
    /// Display label; optional.
    pub name: Option<String>,
    /// The text to keep.
    pub paste: String,
    /// A tag for the text's language; any text is accepted.
    pub language: String,
    /// The token by which the abuse gate tells a human from a machine.
    pub abuse_token: String,
}

/// A paste ready for the store, which adds the identifier and the time.
#[derive(Clone, Debug, PartialEq, Eq)]
pub struct NewPaste {
    pub name: String,
    /// The sealed text; the plain text is never stored.
    pub ciphertext: String,
    pub language: String,
}

/// A paste as the store returns it.
#[derive(Clone, Debug, PartialEq, Eq)]
pub struct StoredPaste {
    pub name: Option<String>,
    pub ciphertext: String,
    pub language: Option<String>,
    /// Time of creation, in microseconds since the Unix epoch.
    pub created_at: i64,
}

/// A paste as a client receives it.
#[derive(Clone, Debug, PartialEq, Eq)]
pub struct PasteContent {
    pub name: Option<String>,
    /// The plain text.
    pub paste: String,
    pub language: Option<String>,
    /// Time of creation, in microseconds since the Unix epoch.
    pub created_at: i64,
}

/// The name of a paste that was submitted without one.
pub open spec fn default_name() -> Seq<char> {
    seq!['U', 'n', 't', 'i', 't', 'l', 'e', 'd']
}

/// The name under which a paste is stored: the first 128 characters of the
/// submitted name, or the default name.
pub open spec fn stored_name(name: Option<Seq<char>>) -> Seq<char> {
    match name {
        Some(n) => if n.len() > MAX_NAME_CHARS {
            n.take(MAX_NAME_CHARS as int)
        } else {
            n
        },
        None => default_name(),
    }
}

/// The characters of an optional text.
pub open spec fn chars_of(text: Option<String>) -> Option<Seq<char>> {
    match text {
        Some(t) => Some(t@),
        None => None,
    }
}

/// The name under which a paste is stored.
pub fn display_name(name: &Option<String>) -> (stored: String)
    ensures
        stored@ == stored_name(chars_of(*name)),
        stored@.len() <= MAX_NAME_CHARS,
{
    match name {
        Some(n) => {
            let text = n.as_str();
            if text.unicode_len() > MAX_NAME_CHARS {
                text.substring_char(0, MAX_NAME_CHARS).to_owned()
            } else {
                text.to_owned()
            }
        },
        None => {
            proof {
                reveal_strlit("Untitled");
                assert("Untitled"@ =~= default_name());
            }
            "Untitled".to_owned()
        },
    }
}

} // verus!
