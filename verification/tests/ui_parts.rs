use venya::avatar::{initials, shape_class, text_size};
use venya::badge::{badge_class, chip_color, BadgeColor};
use venya::icons::get_icon;
use venya::image_loader::{container_class, container_style, data_url, image_type};
use venya::typography::{header_text_size, normal_text_size, shows_html};

#[test]
fn avatar_sizes_and_shapes() {
    assert_eq!(text_size(20), "xs");
    assert_eq!(text_size(32), "sm");
    assert_eq!(text_size(48), "base");
    assert_eq!(text_size(64), "lg");
    assert_eq!(shape_class("square"), "rounded-lg");
    assert_eq!(shape_class("circle"), "rounded-full");
    assert_eq!(shape_class("blob"), "rounded-full");
}

#[test]
fn avatar_initials() {
    assert_eq!(initials(""), "");
    assert_eq!(initials("john doe"), "JD");
    assert_eq!(initials("ada"), "A");
    assert_eq!(initials("anne marie curie"), "AM");
    assert_eq!(initials(" bob"), " B");
    assert_eq!(initials("straße"), "S");
    assert_eq!(initials("ßa b"), "SS");
}

#[test]
fn badge_classes() {
    assert_eq!(BadgeColor::OutlineBlue.name(), "outline-blue");
    assert_eq!(
        badge_class(&BadgeColor::OutlineRed, "mx-1"),
        "px-3 py-[2px] border-[1px] text-[11px] xs:text-[8px] !pt-[4px] whitespace-nowrap rounded-[28px] bg-transparent border-error-500 text-error-500 mx-1"
    );
    assert!(chip_color(&Some("a".to_string()), "a") == BadgeColor::Purple);
    assert!(chip_color(&Some("a".to_string()), "b") == BadgeColor::OutlinePurple);
    assert!(chip_color(&None, "") == BadgeColor::Purple);
    assert!(chip_color(&None, "b") == BadgeColor::OutlinePurple);
}

#[test]
fn icons() {
    assert_eq!(get_icon("eye"), Some("/assets/images/icons/eye.svg"));
    assert_eq!(get_icon("chevron-down"), Some("/assets/images/icons/chevron-down.svg"));
    assert_eq!(get_icon("unknown"), None);
}

#[test]
fn image_loading() {
    assert_eq!(image_type("https://x.org/a.png"), "image/png");
    assert_eq!(image_type("a.b.jpeg"), "image/jpeg");
    assert_eq!(image_type("cat.gif"), "image/gif");
    assert_eq!(image_type("noext"), "image/jpeg");
    assert_eq!(data_url("a.png", b"hi!"), "data:image/png;base64,aGkh");
    assert_eq!(data_url("a.gif", b"ab"), "data:image/gif;base64,YWI=");
    assert_eq!(container_style(Some("u"), "x"), "background-image: url(\"u\"); x");
    assert_eq!(container_style(None, "x"), " x");
    assert_eq!(container_class(Some(true), "c"), "c");
    assert_eq!(container_class(Some(false), "c"), "animate-pulse bg-gray-300");
    assert_eq!(container_class(None, "c"), "c animate-pulse bg-gray-300");
}

#[test]
fn text_sizes() {
    assert_eq!(header_text_size("lg"), "lg:text-lg mdlg:text-lg text-lg");
    assert_eq!(header_text_size("xs"), "mdlg:text-[12px]! text-xs");
    assert_eq!(header_text_size("huge"), "");
    assert_eq!(normal_text_size("small"), "text-xs ");
    assert_eq!(normal_text_size("base"), "lg:text-sm mdlg:text-[12px] text-xs ");
    assert_eq!(normal_text_size("other"), "");
    assert!(shows_html(Some(true)));
    assert!(!shows_html(Some(false)));
    assert!(!shows_html(None));
}
