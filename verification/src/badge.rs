//! Badge colours and the classes of the badge component.

use vstd::prelude::*;
use vstd::string::*;
use crate::strings::{concat3, same_text};

verus! {

/// The colour of a badge.
#[derive(Clone, Copy, Debug, PartialEq, Eq, Structural)]
pub enum BadgeColor {
    Green,
    Red,
    Yellow,
    Blue,
    Purple,
    OutlineGreen,
    OutlineRed,
    OutlineYellow,
    OutlineBlue,
    OutlinePurple,
    OutlineWhite,
    OutlineBlack,
}

/// The name of a badge colour.
pub open spec fn color_name(c: BadgeColor) -> Seq<char> {
    match c {
        BadgeColor::Green => "green"@,
        BadgeColor::Red => "red"@,
        BadgeColor::Yellow => "yellow"@,
        BadgeColor::Blue => "blue"@,
        BadgeColor::Purple => "purple"@,
        BadgeColor::OutlineGreen => "outline-green"@,
        BadgeColor::OutlineRed => "outline-red"@,
        BadgeColor::OutlineYellow => "outline-yellow"@,
        BadgeColor::OutlineBlue => "outline-blue"@,
        BadgeColor::OutlinePurple => "outline-purple"@,
        BadgeColor::OutlineWhite => "outline-white"@,
        BadgeColor::OutlineBlack => "outline-black"@,
    }
}

/// The style classes of a badge colour.
pub open spec fn color_classes(c: BadgeColor) -> Seq<char> {
    match c {
        BadgeColor::Green => "bg-success-50 dark:!bg-success-main dark:!text-success-50  border-success-50 text-success-500"@,
        BadgeColor::Red => "bg-error-50   border-error-50 text-error-500 dark:!bg-error-main dark:!text-error-50"@,
        BadgeColor::Purple => "bg-primary-50   border-primary-50 text-primary-500 dark:!bg-primary-main dark:!text-primary-50"@,
        BadgeColor::Blue => "!bg-blue-50   border-blue-50 !text-blue-500 dark:!bg-blue-main dark:!text-blue-50"@,
        BadgeColor::Yellow => "bg-secondary-50   border-secondary-50 text-secondary-500 dark:!bg-secondary-main dark:!text-secondary-50"@,
        BadgeColor::OutlineGreen => "bg-transparent border-success-500 text-success-500"@,
        BadgeColor::OutlineRed => "bg-transparent border-error-500 text-error-500"@,
        BadgeColor::OutlineYellow => "bg-transparent border-secondary-500 text-secondary-500"@,
        BadgeColor::OutlineBlue => "bg-transparent border-blue-500 text-blue-500"@,
        BadgeColor::OutlinePurple => "bg-transparent border-primary-500 text-primary-500"@,
        BadgeColor::OutlineWhite => "bg-transparent   border-white text-white"@,
        BadgeColor::OutlineBlack => "bg-transparent   border-grey-700 text-grey-700"@,
    }
}

impl BadgeColor {
    /// The name of the colour.
    pub fn name(&self) -> (r: &'static str)
        ensures
            r@ == color_name(*self),
    {
        match self {
            BadgeColor::Green => "green",
            BadgeColor::Red => "red",
            BadgeColor::Yellow => "yellow",
            BadgeColor::Blue => "blue",
            BadgeColor::Purple => "purple",
            BadgeColor::OutlineGreen => "outline-green",
            BadgeColor::OutlineRed => "outline-red",
            BadgeColor::OutlineYellow => "outline-yellow",
            BadgeColor::OutlineBlue => "outline-blue",
            BadgeColor::OutlinePurple => "outline-purple",
            BadgeColor::OutlineWhite => "outline-white",
            BadgeColor::OutlineBlack => "outline-black",
        }
    }

    /// The style classes of the colour.
    pub fn classes(&self) -> (r: &'static str)
        ensures
            r@ == color_classes(*self),
    {
        match self {
            BadgeColor::Green => "bg-success-50 dark:!bg-success-main dark:!text-success-50  border-success-50 text-success-500",
            BadgeColor::Red => "bg-error-50   border-error-50 text-error-500 dark:!bg-error-main dark:!text-error-50",
            BadgeColor::Purple => "bg-primary-50   border-primary-50 text-primary-500 dark:!bg-primary-main dark:!text-primary-50",
            BadgeColor::Blue => "!bg-blue-50   border-blue-50 !text-blue-500 dark:!bg-blue-main dark:!text-blue-50",
            BadgeColor::Yellow => "bg-secondary-50   border-secondary-50 text-secondary-500 dark:!bg-secondary-main dark:!text-secondary-50",
            BadgeColor::OutlineGreen => "bg-transparent border-success-500 text-success-500",
            BadgeColor::OutlineRed => "bg-transparent border-error-500 text-error-500",
            BadgeColor::OutlineYellow => "bg-transparent border-secondary-500 text-secondary-500",
            BadgeColor::OutlineBlue => "bg-transparent border-blue-500 text-blue-500",
            BadgeColor::OutlinePurple => "bg-transparent border-primary-500 text-primary-500",
            BadgeColor::OutlineWhite => "bg-transparent   border-white text-white",
            BadgeColor::OutlineBlack => "bg-transparent   border-grey-700 text-grey-700",
        }
    }
}

/// The classes every badge has.
pub open spec fn badge_base_class() -> Seq<char> {
    "px-3 py-[2px] border-[1px] text-[11px] xs:text-[8px] !pt-[4px] whitespace-nowrap rounded-[28px] "@
}

/// The class attribute of a badge: the common classes, the colour's classes
/// and the custom classes.
pub fn badge_class(color: &BadgeColor, custom_class: &str) -> (r: String)
    ensures
        r@ == badge_base_class() + color_classes(*color) + " "@ + custom_class@,
{
    let mut s = concat3(
        "px-3 py-[2px] border-[1px] text-[11px] xs:text-[8px] !pt-[4px] whitespace-nowrap rounded-[28px] ",
        color.classes(),
        " ",
    );
    s.append(custom_class);
    s
}

/// The colour of an option chip: filled for the chosen key, outlined
/// otherwise (no chosen key counts as the empty key).
pub fn chip_color(selected_key: &Option<String>, key: &str) -> (r: BadgeColor)
    ensures
        r == (if (match selected_key {
            Some(k) => k@,
            None => Seq::<char>::empty(),
        }) == key@ {
            BadgeColor::Purple
        } else {
            BadgeColor::OutlinePurple
        }),
{
    let same = match selected_key {
        Some(k) => same_text(k.as_str(), key),
        None => {
            proof {
                reveal_strlit("");
                assert(""@ =~= Seq::<char>::empty());
            }
            same_text("", key)
        },
    };
    if same {
        BadgeColor::Purple
    } else {
        BadgeColor::OutlinePurple
    }
}

} // verus!
