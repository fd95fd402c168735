//! The icons the components use.

use vstd::prelude::*;
use vstd::string::*;
use crate::strings::same_text;

verus! {

/// The image file of a named icon, if there is such an icon.
pub open spec fn icon_file(name: Seq<char>) -> Option<Seq<char>> {
    if name == "search"@ {
        Some("/assets/images/icons/search.svg"@)
    } else if name == "eye"@ {
        Some("/assets/images/icons/eye.svg"@)
    } else if name == "eye-off"@ {
        Some("/assets/images/icons/eye-off.svg"@)
    } else if name == "chevron-down"@ {
        Some("/assets/images/icons/chevron-down.svg"@)
    } else if name == "checked"@ {
        Some("/assets/images/icons/checked.svg"@)
    } else if name == "not-checked"@ {
        Some("/assets/images/icons/not-checked.svg"@)
    } else {
        None
    }
}

/// The image file of a named icon; `None` for an unknown name.
pub fn get_icon(name: &str) -> (r: Option<&'static str>)
    ensures
        match icon_file(name@) {
            Some(f) => r matches Some(s) && s@ == f,
            None => r is None,
        },
{
    if same_text(name, "search") {
        Some("/assets/images/icons/search.svg")
    } else if same_text(name, "eye") {
        Some("/assets/images/icons/eye.svg")
    } else if same_text(name, "eye-off") {
        Some("/assets/images/icons/eye-off.svg")
    } else if same_text(name, "chevron-down") {
        Some("/assets/images/icons/chevron-down.svg")
    } else if same_text(name, "checked") {
        Some("/assets/images/icons/checked.svg")
    } else if same_text(name, "not-checked") {
        Some("/assets/images/icons/not-checked.svg")
    } else {
        None
    }
}

} // verus!
