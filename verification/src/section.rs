//! The rendered form of one source's sample: an icon, a label and a value,
//! laid out as one short piece of the status line.

use vstd::prelude::*;
use vstd::string::StringExecFns;

verus! {

/// One rendered status-line section.
pub struct Component<'a> {
    pub icon: &'a str,
    pub name: &'a str,
    pub value: String,
}

/// The mathematical image of a section: its icon, label and value.
pub ghost struct SectionSpec {
    pub icon: Seq<char>,
    pub name: Seq<char>,
    pub value: Seq<char>,
}

/// The rendered section carries exactly the fields of its image.
pub open spec fn section_matches<'a>(c: Component<'a>, s: SectionSpec) -> bool {
    c.icon@ == s.icon && c.name@ == s.name && c.value@ == s.value
}

/// A piece followed by one space, or nothing when the piece is empty.
pub open spec fn padded(s: Seq<char>) -> Seq<char> {
    if s.len() == 0 {
        s
    } else {
        s + seq![' ']
    }
}

/// The text of a section: a leading space, the padded icon and name, and,
/// when the value is not empty, the value and a trailing space.
pub open spec fn section_text(icon: Seq<char>, name: Seq<char>, value: Seq<char>) -> Seq<char> {
    if value.len() == 0 {
        seq![' '] + padded(icon) + padded(name)
    } else {
        seq![' '] + padded(icon) + padded(name) + value + seq![' ']
    }
}

/// Appends one space to a non-empty piece; an empty piece stays empty.
pub fn get_final_string(string: &str) -> (r: String)
    ensures
        r@ == padded(string@),
{
    proof {
        reveal_strlit(" ");
    }
    if string.is_empty() {
        String::new()
    } else {
        let mut with_trailing_space = string.to_owned();
        with_trailing_space.append(" ");
        assert(with_trailing_space@ =~= padded(string@));
        with_trailing_space
    }
}

impl<'a> Component<'a> {
    /// The section's place in the status line, as text.
    pub fn to_text(&self) -> (r: String)
        ensures
            r@ == section_text(self.icon@, self.name@, self.value@),
    {
        proof {
            reveal_strlit(" ");
        }
        let icon_str = get_final_string(self.icon);
        let name_str = get_final_string(self.name);
        let mut r = String::new();
        r.append(" ");
        r.append(icon_str.as_str());
        r.append(name_str.as_str());
        if !self.value.as_str().is_empty() {
            r.append(self.value.as_str());
            r.append(" ");
        }
        assert(r@ =~= section_text(self.icon@, self.name@, self.value@));
        r
    }
}

} // verus!
