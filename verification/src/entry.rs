//! The vendor entry that a query returns.

use vstd::prelude::*;

verus! {

/// OUI entry
#[derive(Debug, PartialEq, Eq)]
pub struct OuiEntry {
    /// Wireshark's short name identifier for the organization [REQUIRED]
    pub name_short: String,
    /// Organization full name (usually present) [OPTIONAL]
    pub name_long: Option<String>,
    /// Wireshark comment field [OPTIONAL]
    pub comment: Option<String>,
}

/// What an [`OuiEntry`] holds, as sequences of characters.
pub ghost struct OuiEntryView {
    pub name_short: Seq<char>,
    pub name_long: Option<Seq<char>>,
    pub comment: Option<Seq<char>>,
}

/// The characters of an optional string.
pub open spec fn opt_view(s: Option<String>) -> Option<Seq<char>> {
    match s {
        Some(text) => Some(text@),
        None => None,
    }
}

impl View for OuiEntry {
    type V = OuiEntryView;

    open spec fn view(&self) -> OuiEntryView {
        OuiEntryView {
            name_short: self.name_short@,
            name_long: opt_view(self.name_long),
            comment: opt_view(self.comment),
        }
    }
}

impl OuiEntryView {
    /// The entry without any text: what [`OuiEntry::default`] gives.
    pub open spec fn empty() -> OuiEntryView {
        OuiEntryView { name_short: Seq::empty(), name_long: None, comment: None }
    }
}

/// Copies an optional string.
fn clone_opt(s: &Option<String>) -> (r: Option<String>)
    ensures
        r == *s,
{
    match s {
        Some(text) => Some(text.clone()),
        None => None,
    }
}

impl Clone for OuiEntry {
    fn clone(&self) -> (r: OuiEntry)
        ensures
            r == *self,
    {
        OuiEntry {
            name_short: self.name_short.clone(),
            name_long: clone_opt(&self.name_long),
            comment: clone_opt(&self.comment),
        }
    }
}

impl Default for OuiEntry {
    fn default() -> (r: OuiEntry)
        ensures
            r@ == OuiEntryView::empty(),
    {
        OuiEntry { name_short: String::new(), name_long: None, comment: None }
    }
}

} // verus!
