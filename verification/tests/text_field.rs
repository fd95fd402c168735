use venya::text_field::{
    character_counter, click_opens_calendar, limit_content, focus_class, format_money, input_type,
    is_number_key, password_icon, toggle_password, validate, FieldType, ValidationRule,
};

#[test]
fn required_fields() {
    let rules = vec![ValidationRule::IsRequired];
    let v = validate("", &rules, "Name").unwrap();
    assert!(!v.valid);
    assert_eq!(v.message, "Name is required");
    let v = validate("Ann", &rules, "Name").unwrap();
    assert!(v.valid);
    assert_eq!(v.message, "");
}

#[test]
fn length_rules_and_first_message() {
    let rules = vec![
        ValidationRule::IsGreaterThan(3),
        ValidationRule::IsLessThan(2),
    ];
    let v = validate("ab", &rules, "Code").unwrap();
    assert!(!v.valid);
    assert_eq!(v.message, "Code must be more than 3 characters");
    let v = validate("abcd", &rules, "Code").unwrap();
    assert_eq!(v.message, "Code must be less than 2 characters");
    let rules = vec![ValidationRule::IsEqualsTo(4)];
    assert_eq!(validate("abc", &rules, "Pin").unwrap().message, "Pin must be 4 characters");
    assert!(validate("abcd", &rules, "Pin").unwrap().valid);
    let rules = vec![ValidationRule::IsGreaterThanOrEqualsTo(3)];
    assert_eq!(validate("ab", &rules, "Pin").unwrap().message, "Pin must be more than 2 characters");
    let rules = vec![ValidationRule::IsLessThanOrEqualsTo(3)];
    assert_eq!(validate("abcd", &rules, "Pin").unwrap().message, "Pin must be less than 4 characters");
    assert!(validate("é", &vec![ValidationRule::IsEqualsTo(2)], "X").unwrap().valid);
}

#[test]
fn regex_and_condition_rules() {
    let rules = vec![ValidationRule::IsRegex("^[0-9]+$".to_string(), "digits only".to_string())];
    assert!(validate("123", &rules, "N").unwrap().valid);
    assert_eq!(validate("12a", &rules, "N").unwrap().message, "digits only");
    let broken = vec![ValidationRule::IsRegex("(".to_string(), "bad".to_string())];
    assert!(validate("x", &broken, "N").is_none());
    let rules = vec![ValidationRule::IsCondition(false, "no".to_string())];
    assert_eq!(validate("x", &rules, "N").unwrap().message, "no");
    assert!(validate("x", &vec![], "N").unwrap().valid);
}

#[test]
fn field_kinds() {
    assert_eq!(input_type(&FieldType::Date), "text");
    assert_eq!(input_type(&FieldType::Password), "password");
    assert_eq!(input_type(&FieldType::Tel), "tel");
    assert!(toggle_password(&FieldType::Password) == FieldType::Text);
    assert!(toggle_password(&FieldType::Text) == FieldType::Password);
    assert!(toggle_password(&toggle_password(&FieldType::Password)) == FieldType::Password);
    assert_eq!(password_icon(&toggle_password(&FieldType::Password)), "eye-off");
    assert_eq!(password_icon(&toggle_password(&toggle_password(&FieldType::Password))), "eye");
    assert!(toggle_password(&FieldType::Email) == FieldType::Email);
    assert_eq!(password_icon(&FieldType::Password), "eye");
    assert_eq!(password_icon(&FieldType::Text), "eye-off");
    assert!(click_opens_calendar(false, &FieldType::Date));
    assert!(!click_opens_calendar(true, &FieldType::Date));
    assert!(!click_opens_calendar(false, &FieldType::Text));
}

#[test]
fn decorations() {
    assert_eq!(focus_class(true, "border-blue-500"), "border-blue-500 border-[1px]");
    assert_eq!(focus_class(false, "border-blue-500"), "");
    assert_eq!(character_counter("héllo", 20), "6/20");
    assert_eq!(format_money("1200.50"), "1200.50");
    assert!(is_number_key(48));
    assert!(is_number_key(57));
    assert!(is_number_key(46));
    assert!(is_number_key(8));
    assert!(is_number_key(37));
    assert!(is_number_key(39));
    assert!(!is_number_key(65));
    assert!(!is_number_key(38));
}

#[test]
fn content_is_kept_within_the_maximum() {
    assert_eq!(limit_content("hello world", 5), "hello");
    assert_eq!(limit_content("héllo", 2), "hé");
    assert_eq!(limit_content("abc", 3), "abc");
    assert_eq!(limit_content("abc", 0), "abc");
    assert_eq!(limit_content("", 4), "");
}
