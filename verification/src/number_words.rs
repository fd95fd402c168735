//! English words for small whole numbers and for runs of decimal digits.

use vstd::prelude::*;
use vstd::string::*;
use crate::strings::{owned, concat2, concat3, contains_text, occurs_at};

verus! {

/// The words for `1..=19`; the empty word for `0`.
pub open spec fn unit_word(n: int) -> Seq<char> {
    if n == 1 {
        "one"@
    } else if n == 2 {
        "two"@
    } else if n == 3 {
        "three"@
    } else if n == 4 {
        "four"@
    } else if n == 5 {
        "five"@
    } else if n == 6 {
        "six"@
    } else if n == 7 {
        "seven"@
    } else if n == 8 {
        "eight"@
    } else if n == 9 {
        "nine"@
    } else if n == 10 {
        "ten"@
    } else if n == 11 {
        "eleven"@
    } else if n == 12 {
        "twelve"@
    } else if n == 13 {
        "thirteen"@
    } else if n == 14 {
        "fourteen"@
    } else if n == 15 {
        "fifteen"@
    } else if n == 16 {
        "sixteen"@
    } else if n == 17 {
        "seventeen"@
    } else if n == 18 {
        "eighteen"@
    } else if n == 19 {
        "nineteen"@
    } else {
        ""@
    }
}

/// The words for the multiples of ten from twenty to ninety (`2..=9` tens).
pub open spec fn tens_word(n: int) -> Seq<char> {
    if n == 2 {
        "twenty"@
    } else if n == 3 {
        "thirty"@
    } else if n == 4 {
        "forty"@
    } else if n == 5 {
        "fifty"@
    } else if n == 6 {
        "sixty"@
    } else if n == 7 {
        "seventy"@
    } else if n == 8 {
        "eighty"@
    } else if n == 9 {
        "ninety"@
    } else {
        ""@
    }
}

/// The English words of `n`: "zero", "seven", "forty-two", "three hundred",
/// "one hundred twenty-three". Hundreds are named by the word of `n / 100`,
/// so `1500` reads "fifteen hundred".
pub open spec fn number_words(n: nat) -> Seq<char>
    decreases n,
{
    if n == 0 {
        "zero"@
    } else if n < 20 {
        unit_word(n as int)
    } else if n < 100 {
        if n % 10 == 0 {
            tens_word(n as int / 10)
        } else {
            tens_word(n as int / 10) + "-"@ + unit_word(n as int % 10)
        }
    } else if n % 100 == 0 {
        unit_word(n as int / 100) + " hundred"@
    } else {
        unit_word(n as int / 100) + " hundred "@ + number_words(n % 100)
    }
}

fn unit_word_str(n: u64) -> (r: &'static str)
    requires
        n < 20,
    ensures
        r@ == unit_word(n as int),
{
    if n == 1 {
        "one"
    } else if n == 2 {
        "two"
    } else if n == 3 {
        "three"
    } else if n == 4 {
        "four"
    } else if n == 5 {
        "five"
    } else if n == 6 {
        "six"
    } else if n == 7 {
        "seven"
    } else if n == 8 {
        "eight"
    } else if n == 9 {
        "nine"
    } else if n == 10 {
        "ten"
    } else if n == 11 {
        "eleven"
    } else if n == 12 {
        "twelve"
    } else if n == 13 {
        "thirteen"
    } else if n == 14 {
        "fourteen"
    } else if n == 15 {
        "fifteen"
    } else if n == 16 {
        "sixteen"
    } else if n == 17 {
        "seventeen"
    } else if n == 18 {
        "eighteen"
    } else if n == 19 {
        "nineteen"
    } else {
        ""
    }
}

fn tens_word_str(n: u64) -> (r: &'static str)
    requires
        2 <= n < 10,
    ensures
        r@ == tens_word(n as int),
{
    if n == 2 {
        "twenty"
    } else if n == 3 {
        "thirty"
    } else if n == 4 {
        "forty"
    } else if n == 5 {
        "fifty"
    } else if n == 6 {
        "sixty"
    } else if n == 7 {
        "seventy"
    } else if n == 8 {
        "eighty"
    } else {
        "ninety"
    }
}

/// Writes `number` in English words. The hundreds digit is looked up among
/// the words below twenty, so numbers from 2000 on have no words here.
pub fn words_for_number(number: u64) -> (r: String)
    requires
        number < 2000,
    ensures
        r@ == number_words(number as nat),
    decreases number,
{
    if number == 0 {
        return owned("zero");
    }
    if number < 20 {
        owned(unit_word_str(number))
    } else if number < 100 {
        let ten = tens_word_str(number / 10);
        let unit = unit_word_str(number % 10);
        if unit.is_empty() {
            assert(number % 10 == 0) by {
                reveal_strlit("");
                reveal_strlit("one");
                reveal_strlit("two");
                reveal_strlit("three");
                reveal_strlit("four");
                reveal_strlit("five");
                reveal_strlit("six");
                reveal_strlit("seven");
                reveal_strlit("eight");
                reveal_strlit("nine");
            }
            owned(ten)
        } else {
            assert(number % 10 != 0) by {
                reveal_strlit("");
            }
            concat3(ten, "-", unit)
        }
    } else {
        let hundred = unit_word_str(number / 100);
        let remainder = number % 100;
        if remainder == 0 {
            concat2(hundred, " hundred")
        } else {
            let rest = words_for_number(remainder);
            concat3(hundred, " hundred ", rest.as_str())
        }
    }
}

/// Every character is one of the ASCII digits `0`..`9`.
pub open spec fn all_ascii_digits(s: Seq<char>) -> bool {
    forall|i: int| 0 <= i < s.len() ==> '0' <= #[trigger] s[i] <= '9'
}

/// The value of a run of ASCII decimal digits.
pub open spec fn digits_value(s: Seq<char>) -> nat
    decreases s.len(),
{
    if s.len() == 0 {
        0
    } else {
        digits_value(s.drop_last()) * 10 + ((s.last() as int) - ('0' as int)) as nat
    }
}

/// What a number found in a text is read as: a non-empty run of ASCII digits
/// worth at most 999 becomes its words; anything else is kept as it is.
pub open spec fn number_fill(word: Seq<char>) -> Seq<char> {
    if word.len() > 0 && all_ascii_digits(word) && digits_value(word) <= 999 {
        number_words(digits_value(word))
    } else {
        word
    }
}

/// Reads a matched number: its words when it is at most 999, itself otherwise.
pub fn read_number(word: &str) -> (r: String)
    ensures
        r@ == number_fill(word@),
{
    let mut capped: u64 = 0;
    let mut digits = true;
    for c in it: word.chars()
        invariant
            it.seq() == word@,
            digits == all_ascii_digits(word@.take(it.index() as int)),
            digits ==> capped == if digits_value(word@.take(it.index() as int)) < 1000 {
                digits_value(word@.take(it.index() as int))
            } else {
                1000
            },
            capped <= 1000,
    {
        let ghost prefix = word@.take(it.index() as int);
        let ghost next = word@.take(it.index() + 1);
        proof {
            assert(next.drop_last() =~= prefix);
            assert(next.last() == c);
        }
        if digits && '0' <= c && c <= '9' {
            let d: u64 = (c as u32 - '0' as u32) as u64;
            let v = capped * 10 + d;
            capped = if v < 1000 { v } else { 1000 };
            assert(all_ascii_digits(next)) by {
                assert forall|i: int| 0 <= i < next.len() implies '0' <= #[trigger] next[i] <= '9' by {
                    if i < prefix.len() {
                        assert(next[i] == prefix[i]);
                    }
                }
            }
        } else {
            if digits {
                assert(next[next.len() - 1] == c);
            } else {
                assert(!all_ascii_digits(next)) by {
                    let k = choose|k: int| 0 <= k < prefix.len() && !('0' <= #[trigger] prefix[k] <= '9');
                    assert(next[k] == prefix[k]);
                }
            }
            digits = false;
        }
    }
    proof {
        assert(word@.take(word@.len() as int) =~= word@);
    }
    if digits && !word.is_empty() && capped <= 999 {
        words_for_number(capped)
    } else {
        owned(word)
    }
}

} // verus!

verus! {

/// Whether `s` is a non-empty run of ASCII lower-case letters.
pub open spec fn lower_letters(s: Seq<char>) -> bool {
    s.len() > 0 && forall|i: int| 0 <= i < s.len() ==> 'a' <= #[trigger] s[i] <= 'z'
}

/// The word of a number that is written as one word: zero, the numbers
/// below twenty and the multiples of ten below a hundred.
spec fn single_word(n: int) -> Seq<char> {
    if n == 0 {
        "zero"@
    } else if n < 20 {
        unit_word(n)
    } else {
        tens_word(n / 10)
    }
}

/// The number of a single number word, told apart from the others by its
/// length and its first, second and fourth letters.
spec fn single_word_value(w: Seq<char>) -> int {
    if w.len() == 3 {
        if w[0] == 'o' { 1 } else if w[0] == 's' { 6 } else if w[1] == 'w' { 2 } else { 10 }
    } else if w.len() == 4 {
        if w[0] == 'n' { 9 } else if w[0] == 'z' { 0 } else if w[1] == 'o' { 4 } else { 5 }
    } else if w.len() == 5 {
        if w[0] == 't' { 3 } else if w[0] == 'e' { 8 } else if w[0] == 's' {
            if w[1] == 'e' { 7 } else { 60 }
        } else if w[1] == 'o' { 40 } else { 50 }
    } else if w.len() == 6 {
        if w[0] == 'n' { 90 } else if w[0] == 'e' {
            if w[1] == 'l' { 11 } else { 80 }
        } else if w[1] == 'h' { 30 } else if w[3] == 'l' { 12 } else { 20 }
    } else if w.len() == 7 {
        if w[0] == 'f' { 15 } else if w[1] == 'i' { 16 } else { 70 }
    } else if w.len() == 8 {
        if w[0] == 't' { 13 } else if w[0] == 'f' { 14 } else if w[0] == 'e' { 18 } else { 19 }
    } else {
        17
    }
}

/// Whether `n` is written as a single word.
spec fn is_single(n: int) -> bool {
    0 <= n < 20 || (20 <= n < 100 && n % 10 == 0)
}

/// A single number word is lower-case letters, has a `z` only for zero, and
/// tells its number.
proof fn lemma_single_word(n: int)
    requires
        is_single(n),
    ensures
        lower_letters(single_word(n)),
        single_word_value(single_word(n)) == n,
        n != 0 ==> forall|i: int| 0 <= i < single_word(n).len() ==> #[trigger] single_word(n)[i] != 'z',
{
    reveal_strlit("zero");
    reveal_strlit("one");
    reveal_strlit("two");
    reveal_strlit("three");
    reveal_strlit("four");
    reveal_strlit("five");
    reveal_strlit("six");
    reveal_strlit("seven");
    reveal_strlit("eight");
    reveal_strlit("nine");
    reveal_strlit("ten");
    reveal_strlit("eleven");
    reveal_strlit("twelve");
    reveal_strlit("thirteen");
    reveal_strlit("fourteen");
    reveal_strlit("fifteen");
    reveal_strlit("sixteen");
    reveal_strlit("seventeen");
    reveal_strlit("eighteen");
    reveal_strlit("nineteen");
    reveal_strlit("twenty");
    reveal_strlit("thirty");
    reveal_strlit("forty");
    reveal_strlit("fifty");
    reveal_strlit("sixty");
    reveal_strlit("seventy");
    reveal_strlit("eighty");
    reveal_strlit("ninety");
    let w = single_word(n);
    assert(lower_letters(w));
    if n == 0 {
        assert(single_word_value(single_word(0)) == 0);
    } else if n == 1 {
        assert(single_word_value(single_word(1)) == 1);
    } else if n == 2 {
        assert(single_word_value(single_word(2)) == 2);
    } else if n == 3 {
        assert(single_word_value(single_word(3)) == 3);
    } else if n == 4 {
        assert(single_word_value(single_word(4)) == 4);
    } else if n == 5 {
        assert(single_word_value(single_word(5)) == 5);
    } else if n == 6 {
        assert(single_word_value(single_word(6)) == 6);
    } else if n == 7 {
        assert(single_word_value(single_word(7)) == 7);
    } else if n == 8 {
        assert(single_word_value(single_word(8)) == 8);
    } else if n == 9 {
        assert(single_word_value(single_word(9)) == 9);
    } else if n == 10 {
        assert(single_word_value(single_word(10)) == 10);
    } else if n == 11 {
        assert(single_word_value(single_word(11)) == 11);
    } else if n == 12 {
        assert(single_word_value(single_word(12)) == 12);
    } else if n == 13 {
        assert(single_word_value(single_word(13)) == 13);
    } else if n == 14 {
        assert(single_word_value(single_word(14)) == 14);
    } else if n == 15 {
        assert(single_word_value(single_word(15)) == 15);
    } else if n == 16 {
        assert(single_word_value(single_word(16)) == 16);
    } else if n == 17 {
        assert(single_word_value(single_word(17)) == 17);
    } else if n == 18 {
        assert(single_word_value(single_word(18)) == 18);
    } else if n == 19 {
        assert(single_word_value(single_word(19)) == 19);
    } else if n == 20 {
        assert(single_word_value(single_word(20)) == 20);
    } else if n == 30 {
        assert(single_word_value(single_word(30)) == 30);
    } else if n == 40 {
        assert(single_word_value(single_word(40)) == 40);
    } else if n == 50 {
        assert(single_word_value(single_word(50)) == 50);
    } else if n == 60 {
        assert(single_word_value(single_word(60)) == 60);
    } else if n == 70 {
        assert(single_word_value(single_word(70)) == 70);
    } else if n == 80 {
        assert(single_word_value(single_word(80)) == 80);
    } else if n == 90 {
        assert(single_word_value(single_word(90)) == 90);
    }
}

} // verus!

verus! {

/// Whether `s` is non-empty and made of ASCII lower-case letters and
/// hyphens only.
spec fn hyphenated_letters(s: Seq<char>) -> bool {
    s.len() > 0 && forall|i: int| 0 <= i < s.len() ==> ('a' <= #[trigger] s[i] <= 'z' || s[i] == '-')
}

/// Whether `s` has no letter `z`.
spec fn without_z(s: Seq<char>) -> bool {
    forall|i: int| 0 <= i < s.len() ==> #[trigger] s[i] != 'z'
}

/// Whether `s` has no hyphen.
spec fn without_hyphen(s: Seq<char>) -> bool {
    forall|i: int| 0 <= i < s.len() ==> #[trigger] s[i] != '-'
}

/// Two texts that each hold `c` after a part without `c` are equal only
/// when those parts, and what follows the `c`, are equal.
proof fn lemma_split_at_first(x: Seq<char>, y: Seq<char>, x2: Seq<char>, y2: Seq<char>, c: char)
    requires
        x + seq![c] + y == x2 + seq![c] + y2,
        forall|i: int| 0 <= i < x.len() ==> #[trigger] x[i] != c,
        forall|i: int| 0 <= i < x2.len() ==> #[trigger] x2[i] != c,
    ensures
        x == x2,
        y == y2,
{
    let s = x + seq![c] + y;
    let s2 = x2 + seq![c] + y2;
    if x.len() < x2.len() {
        assert(s[x.len() as int] == c);
        assert(s2[x.len() as int] == x2[x.len() as int]);
    } else if x2.len() < x.len() {
        assert(s2[x2.len() as int] == c);
        assert(s[x2.len() as int] == x[x2.len() as int]);
    }
    assert(x =~= s.take(x.len() as int));
    assert(x2 =~= s2.take(x2.len() as int));
    assert(y =~= s.skip(x.len() as int + 1));
    assert(y2 =~= s2.skip(x2.len() as int + 1));
}

/// The words of a number below a hundred: letters and at most one hyphen,
/// no space; a hyphen exactly when the number is not one word, and a `z`
/// only for zero.
proof fn lemma_small_number(n: nat)
    requires
        n < 100,
    ensures
        hyphenated_letters(number_words(n)),
        is_single(n as int) ==> number_words(n) == single_word(n as int),
        is_single(n as int) ==> without_hyphen(number_words(n)),
        !is_single(n as int) ==> number_words(n) == tens_word(n as int / 10) + seq!['-'] + unit_word(
            n as int % 10,
        ),
        n != 0 ==> without_z(number_words(n)),
{
    reveal_strlit("-");
    if is_single(n as int) {
        lemma_single_word(n as int);
    } else {
        let t = n as int / 10;
        let u = n as int % 10;
        lemma_single_word(t * 10);
        lemma_single_word(u);
        assert(single_word(t * 10) == tens_word(t));
        assert(single_word(u) == unit_word(u));
        let s = number_words(n);
        assert(s =~= tens_word(t) + seq!['-'] + unit_word(u));
        assert forall|i: int| 0 <= i < s.len() implies ('a' <= #[trigger] s[i] <= 'z' || s[i] == '-') by {
            if i < tens_word(t).len() {
                assert(s[i] == tens_word(t)[i]);
            } else if i > tens_word(t).len() {
                assert(s[i] == unit_word(u)[i - tens_word(t).len() - 1]);
            }
        }
        assert forall|i: int| 0 <= i < s.len() implies #[trigger] s[i] != 'z' by {
            if i < tens_word(t).len() {
                assert(s[i] == tens_word(t)[i]);
            } else if i > tens_word(t).len() {
                assert(s[i] == unit_word(u)[i - tens_word(t).len() - 1]);
            }
        }
    }
}

/// Two numbers below a hundred with the same words are the same number.
proof fn lemma_small_injective(a: nat, b: nat)
    requires
        a < 100,
        b < 100,
        number_words(a) == number_words(b),
    ensures
        a == b,
{
    lemma_small_number(a);
    lemma_small_number(b);
    let s = number_words(a);
    if is_single(a as int) && is_single(b as int) {
        lemma_single_word(a as int);
        lemma_single_word(b as int);
    } else if is_single(a as int) {
        let t = tens_word(b as int / 10);
        assert(s[t.len() as int] == '-');
    } else if is_single(b as int) {
        let t = tens_word(a as int / 10);
        assert(s[t.len() as int] == '-');
    } else {
        let ta = a as int / 10;
        let tb = b as int / 10;
        lemma_single_word(ta * 10);
        lemma_single_word(tb * 10);
        lemma_single_word(a as int % 10);
        lemma_single_word(b as int % 10);
        assert(single_word(ta * 10) == tens_word(ta));
        assert(single_word(tb * 10) == tens_word(tb));
        lemma_split_at_first(
            tens_word(ta),
            unit_word(a as int % 10),
            tens_word(tb),
            unit_word(b as int % 10),
            '-',
        );
        assert(single_word(a as int % 10) == unit_word(a as int % 10));
        assert(single_word(b as int % 10) == unit_word(b as int % 10));
    }
}

} // verus!

verus! {

/// What follows the hundreds word and its space: "hundred", then the words
/// of the rest after a space when there is a rest.
spec fn hundred_tail(rest: nat) -> Seq<char> {
    if rest == 0 {
        "hundred"@
    } else {
        "hundred"@ + seq![' '] + number_words(rest)
    }
}

/// The words of a number from a hundred on: the word of its hundreds, a
/// space and the hundred tail.
proof fn lemma_big_number(n: nat)
    requires
        100 <= n <= 999,
    ensures
        number_words(n) == unit_word(n as int / 100) + seq![' '] + hundred_tail(n % 100),
        1 <= n as int / 100 <= 9,
{
    reveal_strlit(" hundred");
    reveal_strlit(" hundred ");
    reveal_strlit("hundred");
    let h = unit_word(n as int / 100);
    if n % 100 == 0 {
        assert(number_words(n) =~= h + seq![' '] + hundred_tail(n % 100));
    } else {
        assert(number_words(n) =~= h + seq![' '] + hundred_tail(n % 100));
    }
}

/// The word "hundred" is seven lower-case letters without `z` or hyphen.
proof fn lemma_hundred_word()
    ensures
        lower_letters("hundred"@),
        "hundred"@.len() == 7,
        without_z("hundred"@),
{
    reveal_strlit("hundred");
}

/// Whether `s` reads as spoken number words: it is not empty, holds only
/// ASCII lower-case letters, spaces and hyphens, and has no space at its
/// start or end and no two spaces in a row.
pub open spec fn spoken_number_text(s: Seq<char>) -> bool {
    &&& s.len() > 0
    &&& forall|i: int| 0 <= i < s.len() ==> ('a' <= #[trigger] s[i] <= 'z' || s[i] == ' ' || s[i] == '-')
    &&& s[0] != ' '
    &&& s.last() != ' '
    &&& forall|i: int| 0 <= i < s.len() - 1 ==> !(#[trigger] s[i] == ' ' && s[i + 1] == ' ')
}

/// The numbers up to 999 have distinct words; only zero's words hold
/// "zero"; and every one of them reads as spoken number words.
pub proof fn lemma_number_words_law(a: nat, b: nat)
    requires
        a <= 999,
        b <= 999,
    ensures
        a != b ==> number_words(a) != number_words(b),
        contains_text(number_words(a), "zero"@) <==> a == 0,
        spoken_number_text(number_words(a)),
{
    lemma_number_words_distinct(a, b);
    lemma_number_words_shape(a);
    reveal_strlit("zero");
    let s = number_words(a);
    if a == 0 {
        assert(s.subrange(0, 4) =~= "zero"@);
        assert(occurs_at(s, "zero"@, 0));
    } else {
        assert forall|i: int| !#[trigger] occurs_at(s, "zero"@, i) by {
            if occurs_at(s, "zero"@, i) {
                assert(s.subrange(i, i + 4)[0] == 'z');
                assert(s[i] == 'z');
            }
        }
    }
}

/// Two numbers up to 999 with the same words are the same number.
proof fn lemma_number_words_distinct(a: nat, b: nat)
    requires
        a <= 999,
        b <= 999,
    ensures
        number_words(a) == number_words(b) ==> a == b,
{
    if number_words(a) == number_words(b) {
        let s = number_words(a);
        if a < 100 && b < 100 {
            lemma_small_injective(a, b);
        } else if a < 100 {
            lemma_small_number(a);
            lemma_big_number(b);
            let h = b as int / 100;
            lemma_single_word(h);
            assert(s[unit_word(h).len() as int] == ' ');
        } else if b < 100 {
            lemma_small_number(b);
            lemma_big_number(a);
            let h = a as int / 100;
            lemma_single_word(h);
            assert(s[unit_word(h).len() as int] == ' ');
        } else {
            lemma_big_number(a);
            lemma_big_number(b);
            let ha = a as int / 100;
            let hb = b as int / 100;
            lemma_single_word(ha);
            lemma_single_word(hb);
            assert(single_word(ha) == unit_word(ha));
            assert(single_word(hb) == unit_word(hb));
            lemma_split_at_first(unit_word(ha), hundred_tail(a % 100), unit_word(hb), hundred_tail(b % 100), ' ');
            lemma_hundred_word();
            let ra = a % 100;
            let rb = b % 100;
            if ra != 0 && rb != 0 {
                let tail_a = hundred_tail(ra);
                assert("hundred"@ + seq![' '] + number_words(ra) == "hundred"@ + seq![' '] + number_words(rb));
                assert(number_words(ra) =~= tail_a.skip(8));
                assert(number_words(rb) =~= hundred_tail(rb).skip(8));
                lemma_small_injective(ra, rb);
            } else if ra != 0 {
                lemma_small_number(ra);
                assert(hundred_tail(ra).len() > 8);
            } else if rb != 0 {
                lemma_small_number(rb);
                assert(hundred_tail(rb).len() > 8);
            }
            assert(a == ha * 100 + ra);
            assert(b == hb * 100 + rb);
        }
    }
}

/// The words of a number up to 999 read as spoken number words, and hold a
/// `z` only for zero.
proof fn lemma_number_words_shape(n: nat)
    requires
        n <= 999,
    ensures
        spoken_number_text(number_words(n)),
        n != 0 ==> without_z(number_words(n)),
{
    let s = number_words(n);
    if n < 100 {
        lemma_small_number(n);
    } else {
        lemma_big_number(n);
        lemma_hundred_word();
        let h = n as int / 100;
        lemma_single_word(h);
        assert(single_word(h) == unit_word(h));
        let u = unit_word(h);
        let r = n % 100;
        let k = u.len() as int;
        if r == 0 {
            assert forall|i: int| 0 <= i < s.len() implies ('a' <= #[trigger] s[i] <= 'z' || s[i] == ' ' || s[i] == '-') && (i != k ==> s[i] != ' ') && s[i] != 'z' by {
                if i < k {
                    assert(s[i] == u[i]);
                } else if i > k {
                    assert(s[i] == "hundred"@[i - k - 1]);
                }
            }
        } else {
            lemma_small_number(r);
            let w = number_words(r);
            assert forall|i: int| 0 <= i < s.len() implies ('a' <= #[trigger] s[i] <= 'z' || s[i] == ' ' || s[i] == '-') && (i != k && i != k + 8 ==> s[i] != ' ') && s[i] != 'z' by {
                if i < k {
                    assert(s[i] == u[i]);
                } else if k < i < k + 8 {
                    assert(s[i] == "hundred"@[i - k - 1]);
                } else if i > k + 8 {
                    assert(s[i] == w[i - k - 9]);
                }
            }
        }
    }
}

} // verus!
