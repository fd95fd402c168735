//! The decisions of the select component: searching the options, the chosen
//! option and what is shown for it, and the list of chosen keys when several
//! options may be chosen.

use vstd::prelude::*;
use vstd::string::*;
use crate::strings::{owned, to_lowercase, contains, unicode_lowercase, contains_text, same_text, copy_strings,
    occurs_at};

verus! {

/// An option within the select component.
#[derive(Clone, PartialEq, Debug)]
pub struct SelectOption {
    /// A unique key to identify the option.
    pub key: String,
    /// The primary value displayed for the option.
    pub value: String,
    /// An alternative value to display, if different from the primary value.
    pub alt_value: Option<String>,
    /// URL of an image to display with the option.
    pub image_url: Option<String>,
    /// Additional information about the option.
    pub extra_info: Option<String>,
    /// Whether the option is disabled.
    pub disabled: bool,
}

fn copy_text(s: &Option<String>) -> (r: Option<String>)
    ensures
        r == *s,
{
    match s {
        Some(t) => Some(t.clone()),
        None => None,
    }
}

impl SelectOption {
    /// A copy of the option.
    pub fn duplicate(&self) -> (r: Self)
        ensures
            r == *self,
    {
        SelectOption {
            key: self.key.clone(),
            value: self.value.clone(),
            alt_value: copy_text(&self.alt_value),
            image_url: copy_text(&self.image_url),
            extra_info: copy_text(&self.extra_info),
            disabled: self.disabled,
        }
    }

    /// The text an option is listed with: its alternative value when it has
    /// one, its value otherwise.
    pub fn label(&self) -> (r: String)
        ensures
            r@ == option_label(*self),
    {
        match &self.alt_value {
            Some(a) => owned(a.as_str()),
            None => owned(self.value.as_str()),
        }
    }
}

/// The text an option is listed with.
pub open spec fn option_label(o: SelectOption) -> Seq<char> {
    match o.alt_value {
        Some(a) => a@,
        None => o.value@,
    }
}

/// The visual theme of the select component.
#[derive(Clone, Copy, PartialEq, Eq, Debug)]
pub enum SelectTheme {
    Light,
    Dark,
}

impl SelectTheme {
    /// The name of the theme.
    pub fn name(&self) -> (r: &'static str)
        ensures
            r@ == (match self {
                SelectTheme::Light => "light"@,
                SelectTheme::Dark => "dark"@,
            }),
    {
        match self {
            SelectTheme::Light => "light",
            SelectTheme::Dark => "dark",
        }
    }
}

impl Default for SelectTheme {
    /// The light theme.
    fn default() -> (r: Self)
        ensures
            r is Light,
    {
        SelectTheme::Light
    }
}

/// Whether an optional text, lower-cased, contains `needle`.
pub open spec fn optional_contains(t: Option<String>, needle: Seq<char>) -> bool {
    match t {
        Some(v) => contains_text(unicode_lowercase(v@), needle),
        None => false,
    }
}

/// Whether an option is found by a lower-cased search text: its key, value,
/// alternative value or extra information contains it, compared in lower case.
pub open spec fn option_found(o: SelectOption, needle: Seq<char>) -> bool {
    ||| contains_text(unicode_lowercase(o.key@), needle)
    ||| contains_text(unicode_lowercase(o.value@), needle)
    ||| optional_contains(o.alt_value, needle)
    ||| optional_contains(o.extra_info, needle)
}

/// The options found by a lower-cased search text, in their order.
pub open spec fn options_found(options: Seq<SelectOption>, needle: Seq<char>) -> Seq<SelectOption>
    decreases options.len(),
{
    if options.len() == 0 {
        seq![]
    } else if option_found(options.last(), needle) {
        options_found(options.drop_last(), needle).push(options.last())
    } else {
        options_found(options.drop_last(), needle)
    }
}

/// Every option is found by the empty search text.
proof fn lemma_empty_search_finds_all(options: Seq<SelectOption>, needle: Seq<char>)
    requires
        needle.len() == 0,
    ensures
        options_found(options, needle) == options,
    decreases options.len(),
{
    if options.len() > 0 {
        lemma_empty_search_finds_all(options.drop_last(), needle);
        let key = unicode_lowercase(options.last().key@);
        assert(key.subrange(0, 0) =~= needle);
        assert(occurs_at(key, needle, 0));
        assert(options.drop_last().push(options.last()) =~= options);
    }
}

fn optional_text_contains(t: &Option<String>, needle: &str) -> (r: bool)
    ensures
        r == optional_contains(*t, needle@),
{
    match t {
        Some(v) => contains(to_lowercase(v.as_str()).as_str(), needle),
        None => false,
    }
}

/// The options whose key, value, alternative value or extra information
/// contains the search text, ignoring case.
pub fn search_options(options: &[SelectOption], search_key: &str) -> (r: Vec<SelectOption>)
    ensures
        r@ == options_found(options@, unicode_lowercase(search_key@)),
        search_key@.len() == 0 ==> r@ == options@,
{
    let needle = to_lowercase(search_key);
    proof {
        if search_key@.len() == 0 {
            lemma_empty_search_finds_all(options@, needle@);
        }
    }
    let mut found: Vec<SelectOption> = Vec::new();
    let n = options.len();
    for i in 0..n
        invariant
            n == options@.len(),
            found@ == options_found(options@.take(i as int), needle@),
    {
        let o = &options[i];
        let hit = contains(to_lowercase(o.key.as_str()).as_str(), needle.as_str()) || contains(
            to_lowercase(o.value.as_str()).as_str(),
            needle.as_str(),
        ) || optional_text_contains(&o.alt_value, needle.as_str()) || optional_text_contains(
            &o.extra_info,
            needle.as_str(),
        );
        proof {
            let next = options@.take(i + 1);
            assert(next.drop_last() =~= options@.take(i as int));
            assert(next.last() == options@[i as int]);
        }
        if hit {
            found.push(o.duplicate());
        }
    }
    proof {
        assert(options@.take(n as int) =~= options@);
    }
    found
}

/// The options whose value, lower-cased, contains `needle`, in their order.
pub open spec fn options_with_value(options: Seq<SelectOption>, needle: Seq<char>) -> Seq<SelectOption>
    decreases options.len(),
{
    if options.len() == 0 {
        seq![]
    } else if contains_text(unicode_lowercase(options.last().value@), needle) {
        options_with_value(options.drop_last(), needle).push(options.last())
    } else {
        options_with_value(options.drop_last(), needle)
    }
}

/// The options listed while searching: all of them for an empty search text,
/// otherwise those whose value contains the search text, ignoring case.
pub fn filtered_options(options: &Vec<SelectOption>, search_value: &str) -> (r: Vec<SelectOption>)
    ensures
        search_value@.len() == 0 ==> r@ == options@,
        search_value@.len() > 0 ==> r@ == options_with_value(
            options@,
            unicode_lowercase(search_value@),
        ),
{
    let mut found: Vec<SelectOption> = Vec::new();
    let n = options.len();
    if search_value.is_empty() {
        for i in 0..n
            invariant
                n == options@.len(),
                found@ == options@.take(i as int),
        {
            found.push(options[i].duplicate());
            assert(found@ =~= options@.take(i + 1));
        }
        assert(options@.take(n as int) =~= options@);
        return found;
    }
    let needle = to_lowercase(search_value);
    for i in 0..n
        invariant
            n == options@.len(),
            found@ == options_with_value(options@.take(i as int), needle@),
    {
        let hit = contains(to_lowercase(options[i].value.as_str()).as_str(), needle.as_str());
        proof {
            let next = options@.take(i + 1);
            assert(next.drop_last() =~= options@.take(i as int));
            assert(next.last() == options@[i as int]);
        }
        if hit {
            found.push(options[i].duplicate());
        }
    }
    proof {
        assert(options@.take(n as int) =~= options@);
    }
    found
}

/// The position of the first option with the given key.
pub open spec fn first_with_key_from(options: Seq<SelectOption>, key: Seq<char>, i: int) -> Option<int>
    decreases options.len() - i,
{
    if i < 0 || i >= options.len() {
        None
    } else if options[i].key@ == key {
        Some(i)
    } else {
        first_with_key_from(options, key, i + 1)
    }
}

/// The first option with the given key.
pub open spec fn option_with_key(options: Seq<SelectOption>, key: Seq<char>) -> Option<SelectOption> {
    match first_with_key_from(options, key, 0) {
        Some(i) => Some(options[i]),
        None => None,
    }
}

fn find_key(options: &Vec<SelectOption>, key: &str) -> (r: Option<usize>)
    ensures
        r matches Some(i) ==> i < options@.len() && first_with_key_from(options@, key@, 0) == Some(
            i as int,
        ),
        r is None ==> first_with_key_from(options@, key@, 0) is None,
{
    let mut i: usize = 0;
    while i < options.len()
        invariant
            i <= options@.len(),
            first_with_key_from(options@, key@, 0) == first_with_key_from(options@, key@, i as int),
        decreases options@.len() - i,
    {
        if same_text(options[i].key.as_str(), key) {
            return Some(i);
        }
        i = i + 1;
    }
    None
}

/// The value of the first option with the given key.
pub fn get_selected_option(options: &Vec<SelectOption>, key: &str) -> (r: Option<String>)
    ensures
        match option_with_key(options@, key@) {
            Some(o) => r matches Some(v) && v@ == o.value@,
            None => r is None,
        },
{
    match find_key(options, key) {
        Some(i) => Some(owned(options[i].value.as_str())),
        None => None,
    }
}

/// The image of the first option with the given key.
pub fn get_selected_item_image(options: &Vec<SelectOption>, key: &str) -> (r: Option<String>)
    ensures
        match option_with_key(options@, key@) {
            Some(o) => r == o.image_url,
            None => r is None,
        },
{
    match find_key(options, key) {
        Some(i) => copy_text(&options[i].image_url),
        None => None,
    }
}

/// `items` without the entries equal to `key`.
pub open spec fn without_key(items: Seq<Seq<char>>, key: Seq<char>) -> Seq<Seq<char>>
    decreases items.len(),
{
    if items.len() == 0 {
        seq![]
    } else if items.last() == key {
        without_key(items.drop_last(), key)
    } else {
        without_key(items.drop_last(), key).push(items.last())
    }
}

/// Whether a key is among the chosen ones.
pub fn item_is_selected(items: &Vec<String>, key: &str) -> (r: bool)
    ensures
        r == items.deep_view().contains(key@),
{
    let n = items.len();
    for i in 0..n
        invariant
            n == items@.len(),
            forall|k: int| 0 <= k < i ==> items.deep_view()[k] != key@,
    {
        if same_text(items[i].as_str(), key) {
            assert(items.deep_view()[i as int] == key@);
            return true;
        }
    }
    false
}

/// The chosen keys after `key` is picked in a select that allows several:
/// a chosen key is dropped (every copy of it), any other key is added at the
/// end. The flag tells whether the new list is announced, which happens only
/// when a key was added.
pub fn toggle_selected(items: &Vec<String>, key: &str) -> (r: (Vec<String>, bool))
    ensures
        items.deep_view().contains(key@) ==> r.0.deep_view() == without_key(items.deep_view(), key@)
            && !r.1,
        !items.deep_view().contains(key@) ==> r.0.deep_view() == items.deep_view().push(key@)
            && r.1,
{
    let present = item_is_selected(items, key);
    let n = items.len();
    if present {
        let mut out: Vec<String> = Vec::new();
        for i in 0..n
            invariant
                n == items@.len(),
                out.deep_view() == without_key(items.deep_view().take(i as int), key@),
        {
            proof {
                let next = items.deep_view().take(i + 1);
                assert(next.drop_last() =~= items.deep_view().take(i as int));
                assert(next.last() == items.deep_view()[i as int]);
            }
            if !same_text(items[i].as_str(), key) {
                let ghost before = out@;
                let s = owned(items[i].as_str());
                out.push(s);
                assert(out@ == before.push(s));
                assert(out.deep_view() =~= without_key(items.deep_view().take(i as int), key@).push(items.deep_view()[i as int]));
            }
        }
        assert(items.deep_view().take(n as int) =~= items.deep_view());
        (out, false)
    } else {
        let mut out = copy_strings(items);
        let ghost before = out@;
        let s = owned(key);
        out.push(s);
        assert(out@ == before.push(s));
        assert(out.deep_view() =~= items.deep_view().push(key@));
        (out, true)
    }
}

/// Without a key that is not there, a list stays as it is.
proof fn lemma_without_absent_key(items: Seq<Seq<char>>, key: Seq<char>)
    requires
        !items.contains(key),
    ensures
        without_key(items, key) == items,
    decreases items.len(),
{
    if items.len() > 0 {
        assert(items.drop_last().len() < items.len());
        assert(!items.drop_last().contains(key)) by {
            if items.drop_last().contains(key) {
                let k = choose|k: int| 0 <= k < items.drop_last().len() && items.drop_last()[k] == key;
                assert(items[k] == key);
            }
        }
        lemma_without_absent_key(items.drop_last(), key);
        assert(items.last() != key) by {
            assert(items[items.len() - 1] == items.last());
        }
        assert(items.drop_last().push(items.last()) =~= items);
    }
}

/// Picking a key that was not chosen, and picking it again, gives back the
/// chosen keys as they were.
pub proof fn lemma_toggle_twice_restores(items: Seq<Seq<char>>, key: Seq<char>)
    requires
        !items.contains(key),
    ensures
        items.push(key).contains(key),
        without_key(items.push(key), key) == items,
{
    assert(items.push(key)[items.len() as int] == key);
    assert(items.push(key).drop_last() =~= items);
    lemma_without_absent_key(items, key);
}

/// What the select component announces when an option is picked.
pub enum SelectEvent {
    /// The key of the picked option (single choice).
    Change(String),
    /// The picked option.
    OptionSelected(SelectOption),
    /// The new list of chosen keys (several choices).
    MultipleItemsChange(Vec<String>),
}

/// The state of the select component that picking an option changes.
pub struct SelectState {
    pub selected_key: Option<String>,
    pub value_data: String,
    pub text_value: String,
    pub is_focused: bool,
    pub show_option: bool,
    pub selected_items: Vec<String>,
}

/// How the select component is configured.
#[derive(Clone, Copy, Debug)]
pub struct SelectMode {
    pub auto_complete: bool,
    pub with_key: bool,
    pub is_multiple: bool,
}

/// The state after the shown value is set from an option: the key when the
/// key is shown, otherwise the value, with the label as the text.
pub open spec fn shows_option(before: SelectState, after: SelectState, o: SelectOption, with_key: bool) -> bool {
    if with_key {
        after.value_data@ == o.key@ && after.text_value@ == before.text_value@
    } else {
        after.value_data@ == o.value@ && after.text_value@ == option_label(o)
    }
}

fn show_option_value(state: &mut SelectState, option: &SelectOption, with_key: bool)
    ensures
        shows_option(*old(state), *final(state), *option, with_key),
        final(state).selected_key == old(state).selected_key,
        final(state).is_focused == old(state).is_focused,
        final(state).show_option == old(state).show_option,
        final(state).selected_items@ == old(state).selected_items@,
{
    if with_key {
        state.value_data = owned(option.key.as_str());
    } else {
        state.value_data = owned(option.value.as_str());
        state.text_value = option.label();
    }
}

/// Picks an option. The key becomes the selected key. With auto-complete the
/// list closes and the option's value is shown. With several choices the
/// option is announced first when auto-complete is on, and the key is
/// toggled in the chosen keys (see `toggle_selected`); with a single choice
/// the key and then the option are announced, once each, and the option's
/// value is shown (the list closes unless the key is shown).
pub fn select_value(state: &mut SelectState, option: &SelectOption, mode: &SelectMode) -> (r: Vec<SelectEvent>)
    ensures
        final(state).selected_key matches Some(k) && k@ == option.key@,
        mode.auto_complete ==> !final(state).is_focused && !final(state).show_option,
        mode.auto_complete && mode.is_multiple ==> {
            &&& r@.len() > 0
            &&& r@[0] matches SelectEvent::OptionSelected(o) && o == *option
        },
        !mode.auto_complete && !mode.is_multiple && !mode.with_key ==> !final(state).is_focused
            && !final(state).show_option,
        !mode.auto_complete && !mode.is_multiple && mode.with_key ==> final(state).is_focused
            == old(state).is_focused && final(state).show_option == old(state).show_option,
        !mode.auto_complete && mode.is_multiple ==> final(state).is_focused
            == old(state).is_focused && final(state).show_option == old(state).show_option,
        (mode.auto_complete || !mode.is_multiple) ==> shows_option(
            *old(state),
            *final(state),
            *option,
            mode.with_key,
        ),
        !mode.auto_complete && mode.is_multiple ==> final(state).value_data@
            == old(state).value_data@ && final(state).text_value@ == old(state).text_value@,
        mode.is_multiple && old(state).selected_items.deep_view().contains(option.key@) ==> {
            &&& final(state).selected_items.deep_view() == without_key(
                old(state).selected_items.deep_view(),
                option.key@,
            )
            &&& r@.len() == (if mode.auto_complete { 1int } else { 0int })
        },
        mode.is_multiple && !old(state).selected_items.deep_view().contains(option.key@) ==> {
            &&& final(state).selected_items.deep_view() == old(
                state,
            ).selected_items.deep_view().push(option.key@)
            &&& r@.len() == (if mode.auto_complete { 2int } else { 1int })
            &&& r@.last() matches SelectEvent::MultipleItemsChange(v) && v.deep_view()
                == final(state).selected_items.deep_view()
        },
        !mode.is_multiple ==> {
            &&& final(state).selected_items.deep_view() == old(state).selected_items.deep_view()
            &&& r@.len() == 2
            &&& r@[0] matches SelectEvent::Change(k) && k@ == option.key@
            &&& r@[1] matches SelectEvent::OptionSelected(o) && o == *option
        },
{
    let mut events: Vec<SelectEvent> = Vec::new();
    state.selected_key = Some(owned(option.key.as_str()));
    if mode.auto_complete {
        if mode.is_multiple {
            events.push(SelectEvent::OptionSelected(option.duplicate()));
        }
        state.is_focused = false;
        state.show_option = false;
        show_option_value(state, option, mode.with_key);
    }
    if mode.is_multiple {
        let (items, announce) = toggle_selected(&state.selected_items, option.key.as_str());
        state.selected_items = items;
        if announce {
            let copy = copy_strings(&state.selected_items);
            events.push(SelectEvent::MultipleItemsChange(copy));
        }
    } else {
        events.push(SelectEvent::Change(owned(option.key.as_str())));
        events.push(SelectEvent::OptionSelected(option.duplicate()));
        show_option_value(state, option, mode.with_key);
        if !mode.with_key {
            state.is_focused = false;
            state.show_option = false;
        }
    }
    events
}

/// The text shown for the picked option: the key when keys are shown,
/// otherwise the option's text.
pub fn displayed_value(state: &SelectState, with_key: bool) -> (r: String)
    ensures
        r@ == if with_key {
            state.value_data@
        } else {
            state.text_value@
        },
{
    if with_key {
        owned(state.value_data.as_str())
    } else {
        owned(state.text_value.as_str())
    }
}

/// Whether the radio list shows an option as chosen: its key is the chosen key.
pub fn radio_is_selected(current: &Option<String>, option: &SelectOption) -> (r: bool)
    ensures
        r == (current matches Some(k) && k@ == option.key@),
{
    match current {
        Some(k) => same_text(k.as_str(), option.key.as_str()),
        None => false,
    }
}

} // verus!

verus! {

/// Every option that the search text is found in is kept.
proof fn lemma_found_option_kept(options: Seq<SelectOption>, needle: Seq<char>, o: SelectOption)
    requires
        options.contains(o),
        option_found(o, needle),
    ensures
        options_found(options, needle).contains(o),
    decreases options.len(),
{
    let rest = options.drop_last();
    if options.last() == o {
        assert(options_found(options, needle).last() == o);
    } else {
        let k = choose|k: int| 0 <= k < options.len() && options[k] == o;
        assert(k < options.len() - 1);
        assert(rest[k] == o);
        lemma_found_option_kept(rest, needle, o);
        let found = options_found(rest, needle);
        let j = choose|j: int| 0 <= j < found.len() && found[j] == o;
        if option_found(options.last(), needle) {
            assert(found.push(options.last())[j] == o);
        }
    }
}

/// Searching keeps every option whose key, value, alternative value or
/// extra information contains the search text, ignoring case.
pub proof fn lemma_search_keeps_matching_options(options: Seq<SelectOption>, search: Seq<char>)
    ensures
        forall|o: SelectOption|
            #![trigger options.contains(o)]
            options.contains(o) && {
                let needle = unicode_lowercase(search);
                ||| contains_text(unicode_lowercase(o.key@), needle)
                ||| contains_text(unicode_lowercase(o.value@), needle)
                ||| (o.alt_value matches Some(a) && contains_text(unicode_lowercase(a@), needle))
                ||| (o.extra_info matches Some(x) && contains_text(unicode_lowercase(x@), needle))
            } ==> options_found(options, unicode_lowercase(search)).contains(o),
{
    let needle = unicode_lowercase(search);
    assert forall|o: SelectOption|
        #![trigger options.contains(o)]
        options.contains(o) && {
            ||| contains_text(unicode_lowercase(o.key@), needle)
            ||| contains_text(unicode_lowercase(o.value@), needle)
            ||| (o.alt_value matches Some(a) && contains_text(unicode_lowercase(a@), needle))
            ||| (o.extra_info matches Some(x) && contains_text(unicode_lowercase(x@), needle))
        } implies options_found(options, needle).contains(o) by {
        lemma_found_option_kept(options, needle, o);
    }
}

} // verus!
