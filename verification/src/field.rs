//! The closed set of metadata fields a template may reference.

use vstd::prelude::*;
use vstd::string::StrSliceExecFns;

verus! {

/// One of the five recognized metadata fields.
///
/// Each field has a canonical lowercase key used inside templates
/// (`%album`, `%artist`, ...) and a canonical display name used in
/// error messages (`Album`, `Artist`, ...).
#[derive(Debug, Clone, Copy, PartialEq, Eq, Structural)]
pub enum Field {
    Album,
    Artist,
    Title,
    Track,
    Year,
}

/// The field, if any, whose canonical lowercase key is `key`.
pub open spec fn spec_key_field(key: Seq<char>) -> Option<Field> {
    if key == "album"@ {
        Some(Field::Album)
    } else if key == "artist"@ {
        Some(Field::Artist)
    } else if key == "title"@ {
        Some(Field::Title)
    } else if key == "track"@ {
        Some(Field::Track)
    } else if key == "year"@ {
        Some(Field::Year)
    } else {
        None
    }
}

/// The canonical display name of `f`, as used in error messages.
pub open spec fn spec_display_name(f: Field) -> Seq<char> {
    match f {
        Field::Album => "Album"@,
        Field::Artist => "Artist"@,
        Field::Title => "Title"@,
        Field::Track => "Track"@,
        Field::Year => "Year"@,
    }
}

/// Character-by-character equality of two string slices.
fn str_eq(a: &str, b: &str) -> (r: bool)
    ensures
        r == (a@ == b@),
{
    let n = a.unicode_len();
    let m = b.unicode_len();
    if n != m {
        return false;
    }
    let mut i: usize = 0;
    while i < n
        invariant
            n == a@.len(),
            n == b@.len(),
            i <= n,
            forall|j: int| 0 <= j < i ==> a@[j] == b@[j],
        decreases n - i,
    {
        if a.get_char(i) != b.get_char(i) {
            return false;
        }
        i = i + 1;
    }
    proof {
        assert(a@ =~= b@);
    }
    true
}

impl Field {
    /// Parses a canonical lowercase key (without the leading `%`) into a
    /// field; keys outside the closed set yield `None`.
    pub fn from_key(key: &str) -> (r: Option<Field>)
        ensures
            r == spec_key_field(key@),
    {
        if str_eq(key, "album") {
            Some(Field::Album)
        } else if str_eq(key, "artist") {
            Some(Field::Artist)
        } else if str_eq(key, "title") {
            Some(Field::Title)
        } else if str_eq(key, "track") {
            Some(Field::Track)
        } else if str_eq(key, "year") {
            Some(Field::Year)
        } else {
            None
        }
    }

    /// The canonical display name of this field.
    pub fn display_name(self) -> (r: &'static str)
        ensures
            r@ == spec_display_name(self),
    {
        match self {
            Field::Album => "Album",
            Field::Artist => "Artist",
            Field::Title => "Title",
            Field::Track => "Track",
            Field::Year => "Year",
        }
    }
}

} // verus!
