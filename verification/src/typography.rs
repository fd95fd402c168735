//! The size classes of the header and normal text components.

use vstd::prelude::*;
use vstd::string::*;
use crate::strings::same_text;

verus! {

/// The size classes of a header of the given size; nothing for an unknown
/// size.
pub open spec fn header_size_classes(size: Seq<char>) -> Seq<char> {
    if size == "lg"@ {
        "lg:text-lg mdlg:text-lg text-lg"@
    } else if size == "xl"@ {
        "lg:text-lg mdlg:text-lg text-base"@
    } else if size == "base"@ {
        "lg:text-md mdlg:text-base text-sm"@
    } else if size == "xs"@ {
        "mdlg:text-[12px]! text-xs"@
    } else {
        ""@
    }
}

/// The size classes of a header of the given size.
pub fn header_text_size(size: &str) -> (r: &'static str)
    ensures
        r@ == header_size_classes(size@),
{
    if same_text(size, "lg") {
        "lg:text-lg mdlg:text-lg text-lg"
    } else if same_text(size, "xl") {
        "lg:text-lg mdlg:text-lg text-base"
    } else if same_text(size, "base") {
        "lg:text-md mdlg:text-base text-sm"
    } else if same_text(size, "xs") {
        "mdlg:text-[12px]! text-xs"
    } else {
        ""
    }
}

/// The size classes of normal text of the given size; nothing for an
/// unknown size.
pub open spec fn normal_size_classes(size: Seq<char>) -> Seq<char> {
    if size == "base"@ {
        "lg:text-sm mdlg:text-[12px] text-xs "@
    } else if size == "small"@ {
        "text-xs "@
    } else {
        ""@
    }
}

/// The size classes of normal text of the given size.
pub fn normal_text_size(size: &str) -> (r: &'static str)
    ensures
        r@ == normal_size_classes(size@),
{
    if same_text(size, "base") {
        "lg:text-sm mdlg:text-[12px] text-xs "
    } else if same_text(size, "small") {
        "text-xs "
    } else {
        ""
    }
}

/// Whether normal text shows its HTML content rather than its children:
/// only when asked to.
pub fn shows_html(is_html: Option<bool>) -> (r: bool)
    ensures
        r == (is_html == Some(true)),
{
    match is_html {
        Some(b) => b,
        None => false,
    }
}

} // verus!
