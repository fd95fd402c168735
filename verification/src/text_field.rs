//! The decisions of the text field component: validation of its content,
//! the kind of input, the password toggle and the character counter.

use vstd::prelude::*;
use vstd::string::*;
use crate::strings::{owned, concat2, decimal, decimal_string};

verus! {

/// The kind of input field.
#[derive(Clone, Copy, Debug, PartialEq, Eq, Structural)]
pub enum FieldType {
    /// A standard text input field.
    Text,
    /// A password input field.
    Password,
    /// An email input field.
    Email,
    /// A telephone number input field.
    Tel,
    /// A number input field.
    Number,
    /// A date input field.
    Date,
}

/// A validation rule that can be applied to a field. Lengths are counted in
/// bytes of the UTF-8 encoding.
#[derive(Clone, PartialEq, Debug)]
pub enum ValidationRule {
    /// Field is required and cannot be empty.
    IsRequired,
    /// Field value must be longer than the specified number.
    IsGreaterThan(usize),
    /// Field value must be shorter than the specified number.
    IsLessThan(usize),
    /// Field value must be as long as the specified number.
    IsEqualsTo(usize),
    /// Field value must be at least as long as the specified number.
    IsGreaterThanOrEqualsTo(usize),
    /// Field value must be at most as long as the specified number.
    IsLessThanOrEqualsTo(usize),
    /// Field value must match the regex pattern: (pattern, error message).
    IsRegex(String, String),
    /// Field value is valid when the condition holds: (condition, error message).
    IsCondition(bool, String),
}

/// A rule for formatting content within the input field.
#[derive(Clone, PartialEq, Debug)]
pub struct FormContentRule {
    /// The maximum length of the input.
    pub max: usize,
    /// Add a character after this number of characters.
    pub add_after_count: usize,
    /// The character to add.
    pub character_to_add: String,
}

/// Whether `pattern` compiles and matches somewhere in `text`
/// (`regex::Regex::new` then `Regex::is_match`); `None` when the pattern is
/// not a valid regex.
pub uninterp spec fn regex_accepts(pattern: Seq<char>, text: Seq<char>) -> Option<bool>;

/// Compiles `pattern` with `regex::Regex::new` and asks `Regex::is_match` of
/// `text`; the answer is the name `regex_accepts`, `None` for a pattern that
/// does not compile.
#[verifier::external_body]
fn is_match(pattern: &str, text: &str) -> (r: Option<bool>)
    ensures
        r == regex_accepts(pattern@, text@),
{
    match regex::Regex::new(pattern) {
        Ok(re) => Some(re.is_match(text)),
        Err(_) => None,
    }
}

/// The length of a text in bytes (`str::len`).
pub open spec fn byte_len(s: Seq<char>) -> int {
    (vstd::utf8::encode_utf8(s).len() as usize) as int
}

/// The outcome of one rule for the content of the field named `name`:
/// whether it holds, and the message when it does not; `None` when the rule's
/// pattern is not a valid regex.
pub open spec fn rule_outcome(rule: ValidationRule, content: Seq<char>, name: Seq<char>) -> Option<(bool, Seq<char>)> {
    let len = byte_len(content);
    match rule {
        ValidationRule::IsRequired => if content.len() == 0 {
            Some((false, name + " is required"@))
        } else {
            Some((true, seq![]))
        },
        ValidationRule::IsGreaterThan(c) => if len > c {
            Some((true, seq![]))
        } else {
            Some((false, name + " must be more than "@ + decimal(c as nat) + " characters"@))
        },
        ValidationRule::IsLessThan(c) => if len < c {
            Some((true, seq![]))
        } else {
            Some((false, name + " must be less than "@ + decimal(c as nat) + " characters"@))
        },
        ValidationRule::IsEqualsTo(c) => if len == c {
            Some((true, seq![]))
        } else {
            Some((false, name + " must be "@ + decimal(c as nat) + " characters"@))
        },
        ValidationRule::IsGreaterThanOrEqualsTo(c) => if len >= c {
            Some((true, seq![]))
        } else {
            Some(
                (false, name + " must be more than "@ + decimal((c - 1) as nat) + " characters"@),
            )
        },
        ValidationRule::IsLessThanOrEqualsTo(c) => if len <= c {
            Some((true, seq![]))
        } else {
            Some(
                (false, name + " must be less than "@ + decimal((c + 1) as nat) + " characters"@),
            )
        },
        ValidationRule::IsRegex(pattern, message) => match regex_accepts(pattern@, content) {
            Some(true) => Some((true, seq![])),
            Some(false) => Some((false, message@)),
            None => None,
        },
        ValidationRule::IsCondition(condition, message) => if condition {
            Some((true, seq![]))
        } else {
            Some((false, message@))
        },
    }
}

/// The outcome of a list of rules: valid when every rule holds, otherwise
/// invalid with the message of the first rule that fails; `None` when a rule
/// has a pattern that is not a valid regex.
pub open spec fn validation_outcome(rules: Seq<ValidationRule>, content: Seq<char>, name: Seq<char>) -> Option<(bool, Seq<char>)>
    decreases rules.len(),
{
    if rules.len() == 0 {
        Some((true, seq![]))
    } else {
        match (validation_outcome(rules.drop_last(), content, name), rule_outcome(rules.last(), content, name)) {
            (Some((valid, message)), Some((holds, error))) => if !holds && valid {
                Some((false, error))
            } else {
                Some((valid, message))
            },
            _ => None,
        }
    }
}

/// The result of validating a field: whether it is valid, and the message
/// shown when it is not.
pub struct Validation {
    pub valid: bool,
    pub message: String,
}

fn check_rule(rule: &ValidationRule, content: &str, name: &str) -> (r: Option<(bool, String)>)
    ensures
        match rule_outcome(*rule, content@, name@) {
            Some((h, m)) => r matches Some((h2, m2)) && h2 == h && m2@ == m,
            None => r is None,
        },
{
    let len = content.len();
    proof {
        assert(len == byte_len(content@));
    }
    match rule {
        ValidationRule::IsRequired => if content.is_empty() {
            Some((false, concat2(name, " is required")))
        } else {
            Some((true, String::new()))
        },
        ValidationRule::IsGreaterThan(c) => if len > *c {
            Some((true, String::new()))
        } else {
            Some((false, count_message(name, " must be more than ", *c as u64)))
        },
        ValidationRule::IsLessThan(c) => if len < *c {
            Some((true, String::new()))
        } else {
            Some((false, count_message(name, " must be less than ", *c as u64)))
        },
        ValidationRule::IsEqualsTo(c) => if len == *c {
            Some((true, String::new()))
        } else {
            Some((false, count_message(name, " must be ", *c as u64)))
        },
        ValidationRule::IsGreaterThanOrEqualsTo(c) => if len >= *c {
            Some((true, String::new()))
        } else {
            Some((false, count_message(name, " must be more than ", (*c - 1) as u64)))
        },
        ValidationRule::IsLessThanOrEqualsTo(c) => if len <= *c {
            Some((true, String::new()))
        } else {
            Some((false, count_message(name, " must be less than ", (*c + 1) as u64)))
        },
        ValidationRule::IsRegex(pattern, message) => match is_match(pattern.as_str(), content) {
            Some(true) => Some((true, String::new())),
            Some(false) => Some((false, owned(message.as_str()))),
            None => None,
        },
        ValidationRule::IsCondition(condition, message) => if *condition {
            Some((true, String::new()))
        } else {
            Some((false, owned(message.as_str())))
        },
    }
}

fn count_message(name: &str, middle: &str, count: u64) -> (r: String)
    ensures
        r@ == name@ + middle@ + decimal(count as nat) + " characters"@,
{
    let mut s = concat2(name, middle);
    let digits = decimal_string(count);
    s.append(digits.as_str());
    s.append(" characters");
    s
}

/// Validates the content of the field named `name` against the rules:
/// valid with an empty message when every rule holds, otherwise invalid with
/// the message of the first rule that fails. `None` when a rule's pattern is
/// not a valid regex.
pub fn validate(content: &str, rules: &Vec<ValidationRule>, name: &str) -> (r: Option<Validation>)
    ensures
        match validation_outcome(rules@, content@, name@) {
            Some((valid, message)) => r matches Some(v) && v.valid == valid && v.message@ == message,
            None => r is None,
        },
{
    let mut all_valid = true;
    let mut first_error = String::new();
    let mut broken = false;
    let n = rules.len();
    for i in 0..n
        invariant
            n == rules@.len(),
            match validation_outcome(rules@.take(i as int), content@, name@) {
                Some((valid, message)) => !broken && all_valid == valid && first_error@ == message,
                None => broken,
            },
    {
        proof {
            let next = rules@.take(i + 1);
            assert(next.drop_last() =~= rules@.take(i as int));
            assert(next.last() == rules@[i as int]);
        }
        match check_rule(&rules[i], content, name) {
            Some((holds, error)) => {
                if !holds && all_valid {
                    all_valid = false;
                    first_error = error;
                }
            },
            None => {
                broken = true;
            },
        }
    }
    proof {
        assert(rules@.take(n as int) =~= rules@);
    }
    if broken {
        None
    } else {
        Some(Validation { valid: all_valid, message: first_error })
    }
}

/// The HTML input type of a field kind; a date is entered as text.
pub fn input_type(field_type: &FieldType) -> (r: &'static str)
    ensures
        r@ == match field_type {
            FieldType::Text => "text"@,
            FieldType::Password => "password"@,
            FieldType::Email => "email"@,
            FieldType::Tel => "tel"@,
            FieldType::Number => "number"@,
            FieldType::Date => "text"@,
        },
{
    match field_type {
        FieldType::Text => "text",
        FieldType::Password => "password",
        FieldType::Email => "email",
        FieldType::Tel => "tel",
        FieldType::Number => "number",
        FieldType::Date => "text",
    }
}

/// The field kind after the password icon is clicked: a hidden password is
/// shown as text, shown text is hidden again; any other kind stays as it is.
pub open spec fn toggled_type(current: FieldType) -> FieldType {
    match current {
        FieldType::Password => FieldType::Text,
        FieldType::Text => FieldType::Password,
        other => other,
    }
}

/// The field kind after the password icon is clicked.
pub fn toggle_password(current: &FieldType) -> (r: FieldType)
    ensures
        r == toggled_type(*current),
{
    match current {
        FieldType::Password => FieldType::Text,
        FieldType::Text => FieldType::Password,
        FieldType::Email => FieldType::Email,
        FieldType::Tel => FieldType::Tel,
        FieldType::Number => FieldType::Number,
        FieldType::Date => FieldType::Date,
    }
}

/// The icon of the password toggle: an open eye while the password is hidden.
pub fn password_icon(current: &FieldType) -> (r: &'static str)
    ensures
        r@ == if *current == FieldType::Password {
            "eye"@
        } else {
            "eye-off"@
        },
{
    match current {
        FieldType::Password => "eye",
        _ => "eye-off",
    }
}

/// Whether a click opens the date picker: only for a date field without a
/// custom action.
pub fn click_opens_calendar(has_action: bool, field_type: &FieldType) -> (r: bool)
    ensures
        r == (!has_action && *field_type == FieldType::Date),
{
    !has_action && match field_type {
        FieldType::Date => true,
        _ => false,
    }
}

/// The border class of a focused field; nothing when it is not focused.
pub fn focus_class(is_focused: bool, focus_border: &str) -> (r: String)
    ensures
        r@ == if is_focused {
            focus_border@ + " border-[1px]"@
        } else {
            seq![]
        },
{
    if is_focused {
        concat2(focus_border, " border-[1px]")
    } else {
        String::new()
    }
}

/// The counter shown under the field: the length of the content in bytes,
/// a slash, and the maximum.
pub fn character_counter(content: &str, max_character: usize) -> (r: String)
    ensures
        r@ == decimal(byte_len(content@) as nat) + "/"@ + decimal(max_character as nat),
{
    let mut s = decimal_string(content.len() as u64);
    s.append("/");
    let m = decimal_string(max_character as u64);
    s.append(m.as_str());
    s
}

/// Formats a string as money: the text is kept as it is.
pub fn format_money(value: &str) -> (r: String)
    ensures
        r@ == value@,
{
    owned(value)
}

/// Whether a key code is a digit, the decimal point, backspace or a left or
/// right arrow.
pub fn is_number_key(key_code: u32) -> (r: bool)
    ensures
        r == ((48 <= key_code && key_code <= 57) || key_code == 46 || key_code == 8 || key_code
            == 37 || key_code == 39),
{
    (key_code >= 48 && key_code <= 57) || key_code == 46 || key_code == 8 || key_code == 37
        || key_code == 39
}

} // verus!

verus! {

/// Clicking the password icon twice gives back the kind the field had: the
/// toggle is its own inverse.
pub proof fn lemma_toggle_password_twice(current: FieldType)
    ensures
        toggled_type(toggled_type(current)) == current,
{
}

} // verus!

verus! {

/// The content a field keeps of an entered value: all of it when there is no
/// maximum (0) or the value is short enough, otherwise its first
/// `max_character` characters.
pub open spec fn limited_text(value: Seq<char>, max_character: nat) -> Seq<char> {
    if max_character == 0 || value.len() <= max_character {
        value
    } else {
        value.take(max_character as int)
    }
}

/// The content a field keeps of an entered value, and hands on: at most
/// `max_character` characters when a maximum is set.
pub fn limit_content(value: &str, max_character: usize) -> (r: String)
    ensures
        r@ == limited_text(value@, max_character as nat),
        max_character > 0 ==> r@.len() <= max_character,
{
    let cs = crate::strings::chars_of(value);
    if max_character == 0 || cs.len() <= max_character {
        return owned(value);
    }
    let mut out = String::new();
    let mut i: usize = 0;
    while i < max_character
        invariant
            cs@ == value@,
            max_character < cs@.len(),
            i <= max_character,
            out@ == value@.take(i as int),
        decreases max_character - i,
    {
        crate::strings::push_char(&mut out, cs[i]);
        i = i + 1;
        assert(out@ =~= value@.take(i as int));
    }
    out
}

} // verus!

verus! {

/// A single rule decides alone: valid with an empty message when it holds,
/// invalid with its message when it does not.
proof fn lemma_single_rule(rule: ValidationRule, content: Seq<char>, name: Seq<char>)
    ensures
        validation_outcome(seq![rule], content, name) == match rule_outcome(rule, content, name) {
            Some((holds, error)) => if holds {
                Some((true, Seq::<char>::empty()))
            } else {
                Some((false, error))
            },
            None => None,
        },
{
    let rules = seq![rule];
    assert(rules.drop_last() =~= Seq::<ValidationRule>::empty());
    assert(rules.last() == rule);
    assert(validation_outcome(rules.drop_last(), content, name) == Some((true, Seq::<char>::empty())));
}

/// A content is valid against one length rule exactly when its length in
/// bytes compares with the rule's count as the rule says, and then the
/// message is empty: more than, less than, equal to, at least (a content of
/// exactly the minimum length passes), at most.
pub proof fn lemma_length_rules(content: Seq<char>, c: usize, name: Seq<char>)
    requires
        vstd::utf8::encode_utf8(content).len() <= usize::MAX,
    ensures
        ({
            let n = vstd::utf8::encode_utf8(content).len();
            &&& validation_outcome(seq![ValidationRule::IsGreaterThan(c)], content, name) matches Some(
                (v, m),
            ) && v == (n > c) && (v ==> m.len() == 0)
            &&& validation_outcome(seq![ValidationRule::IsLessThan(c)], content, name) matches Some(
                (v, m),
            ) && v == (n < c) && (v ==> m.len() == 0)
            &&& validation_outcome(seq![ValidationRule::IsEqualsTo(c)], content, name) matches Some(
                (v, m),
            ) && v == (n == c) && (v ==> m.len() == 0)
            &&& validation_outcome(seq![ValidationRule::IsGreaterThanOrEqualsTo(c)], content, name) matches Some(
                (v, m),
            ) && v == (n >= c) && (v ==> m.len() == 0)
            &&& validation_outcome(seq![ValidationRule::IsLessThanOrEqualsTo(c)], content, name) matches Some(
                (v, m),
            ) && v == (n <= c) && (v ==> m.len() == 0)
        }),
{
    let n = vstd::utf8::encode_utf8(content).len();
    assert(byte_len(content) == n);
    lemma_single_rule(ValidationRule::IsGreaterThan(c), content, name);
    lemma_single_rule(ValidationRule::IsLessThan(c), content, name);
    lemma_single_rule(ValidationRule::IsEqualsTo(c), content, name);
    lemma_single_rule(ValidationRule::IsGreaterThanOrEqualsTo(c), content, name);
    lemma_single_rule(ValidationRule::IsLessThanOrEqualsTo(c), content, name);
}

} // verus!
