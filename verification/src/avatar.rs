//! The decisions of the avatar component: text size, shape and initials.

use vstd::prelude::*;
use vstd::string::*;
use crate::strings::{push_char, to_uppercase, unicode_uppercase, chars_of, same_text};

verus! {

/// The text size class of an avatar of `size` pixels.
pub open spec fn avatar_text_size(size: i32) -> Seq<char> {
    if size < 32 {
        "xs"@
    } else if size < 48 {
        "sm"@
    } else if size < 64 {
        "base"@
    } else {
        "lg"@
    }
}

/// The text size class of an avatar of `size` pixels.
pub fn text_size(size: i32) -> (r: &'static str)
    ensures
        r@ == avatar_text_size(size),
{
    if size < 32 {
        "xs"
    } else if size < 48 {
        "sm"
    } else if size < 64 {
        "base"
    } else {
        "lg"
    }
}

/// The rounding class of an avatar shape: a square is slightly rounded, a
/// circle and any unknown shape are round.
pub fn shape_class(shape: &str) -> (r: &'static str)
    ensures
        r@ == if shape@ == "square"@ {
            "rounded-lg"@
        } else {
            "rounded-full"@
        },
{
    if same_text(shape, "square") {
        "rounded-lg"
    } else {
        "rounded-full"
    }
}

/// The first character of every space-separated word of `s`, a space for an
/// empty word; `at_start` tells whether a word starts at the front of `s`.
pub open spec fn word_initials(s: Seq<char>, at_start: bool) -> Seq<char>
    decreases s.len(),
{
    if s.len() == 0 {
        if at_start {
            seq![' ']
        } else {
            seq![]
        }
    } else if s[0] == ' ' {
        (if at_start {
            seq![' ']
        } else {
            seq![]
        }) + word_initials(s.drop_first(), true)
    } else {
        (if at_start {
            seq![s[0]]
        } else {
            seq![]
        }) + word_initials(s.drop_first(), false)
    }
}

/// The initials shown for a name: the first two characters of the
/// upper-cased first letters of its words; nothing for an empty name.
pub open spec fn name_initials(name: Seq<char>) -> Seq<char> {
    if name.len() == 0 {
        seq![]
    } else {
        let up = unicode_uppercase(word_initials(name, true));
        if up.len() < 2 {
            up
        } else {
            up.take(2)
        }
    }
}

/// The initials of a name.
pub fn initials(name: &str) -> (r: String)
    ensures
        r@ == name_initials(name@),
{
    if name.is_empty() {
        return String::new();
    }
    let mut firsts = String::new();
    let mut at_start = true;
    proof {
        assert(name@.skip(0) =~= name@);
        assert(firsts@ + word_initials(name@, true) =~= word_initials(name@, true));
    }
    for c in it: name.chars()
        invariant
            it.seq() == name@,
            word_initials(name@, true) == firsts@ + word_initials(
                name@.skip(it.index() as int),
                at_start,
            ),
    {
        let ghost rest = name@.skip(it.index() as int);
        let ghost before = firsts@;
        proof {
            assert(rest[0] == c);
            assert(rest.drop_first() =~= name@.skip(it.index() + 1));
        }
        if c == ' ' {
            if at_start {
                push_char(&mut firsts, ' ');
            }
            at_start = true;
        } else {
            if at_start {
                push_char(&mut firsts, c);
            }
            at_start = false;
        }
        assert(word_initials(name@, true) =~= firsts@ + word_initials(
            name@.skip(it.index() + 1),
            at_start,
        ));
    }
    proof {
        assert(name@.skip(name@.len() as int) =~= Seq::<char>::empty());
    }
    if at_start {
        push_char(&mut firsts, ' ');
    }
    assert(firsts@ =~= word_initials(name@, true));
    let up = to_uppercase(firsts.as_str());
    let cs = chars_of(up.as_str());
    let mut out = String::new();
    let mut i: usize = 0;
    while i < cs.len() && i < 2
        invariant
            cs@ == up@,
            i <= 2,
            i <= cs@.len(),
            out@ == cs@.take(i as int),
        decreases 2 - i,
    {
        push_char(&mut out, cs[i]);
        assert(out@ =~= cs@.take(i + 1));
        i = i + 1;
    }
    proof {
        if cs@.len() < 2 {
            assert(cs@.take(i as int) =~= cs@);
        }
    }
    out
}

} // verus!
