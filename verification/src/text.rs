//! Text rules shared by the wallet, the registry and the server: matching that ignores the case
//! of ASCII letters, decimal numbers, and the base of a URL.

use vstd::prelude::*;

verus! {

/// The lower-case form of an ASCII letter; every other character as it is.
pub open spec fn lower(c: char) -> char {
    if 'A' <= c <= 'Z' {
        (c as u32 + 32) as char
    } else {
        c
    }
}

/// A text with its ASCII letters in lower case.
pub open spec fn ascii_lower(text: Seq<char>) -> Seq<char> {
    text.map_values(|c: char| lower(c))
}

/// Two texts are the same but for the case of ASCII letters.
pub open spec fn same_ignoring_case(a: Seq<char>, b: Seq<char>) -> bool {
    ascii_lower(a) == ascii_lower(b)
}

/// `str::eq_ignore_ascii_case` of the standard library compares two texts after mapping the
/// ASCII letters `A` to `Z` of both to `a` to `z`, and leaves every other character alone.
pub assume_specification[ str::eq_ignore_ascii_case ](s: &str, other: &str) -> (same: bool)
    ensures
        same == same_ignoring_case(s@, other@),
;

/// The character that stands for a digit, in base ten or sixteen.
pub open spec fn digit_char(d: int) -> char {
    if d < 10 {
        ('0' as int + d) as char
    } else {
        ('a' as int + (d - 10)) as char
    }
}

/// The one-character text of a digit.
pub fn digit(d: u8) -> (text: &'static str)
    requires
        d < 16,
    ensures
        text@ == seq![digit_char(d as int)],
{
    proof {
        reveal_strlit("0");
        reveal_strlit("1");
        reveal_strlit("2");
        reveal_strlit("3");
        reveal_strlit("4");
        reveal_strlit("5");
        reveal_strlit("6");
        reveal_strlit("7");
        reveal_strlit("8");
        reveal_strlit("9");
        reveal_strlit("a");
        reveal_strlit("b");
        reveal_strlit("c");
        reveal_strlit("d");
        reveal_strlit("e");
        reveal_strlit("f");
    }
    match d {
        0 => "0",
        1 => "1",
        2 => "2",
        3 => "3",
        4 => "4",
        5 => "5",
        6 => "6",
        7 => "7",
        8 => "8",
        9 => "9",
        10 => "a",
        11 => "b",
        12 => "c",
        13 => "d",
        14 => "e",
        _ => "f",
    }
}

/// A number in decimal, without leading zeros.
pub open spec fn decimal(n: nat) -> Seq<char>
    decreases n,
{
    if n < 10 {
        seq![digit_char(n as int)]
    } else {
        decimal(n / 10).push(digit_char((n % 10) as int))
    }
}

/// Writes a number in decimal.
pub fn decimal_text(n: u32) -> (text: String)
    ensures
        text@ == decimal(n as nat),
    decreases n,
{
    if n < 10 {
        digit(n as u8).to_owned()
    } else {
        let mut text = decimal_text(n / 10);
        text.append(digit((n % 10) as u8));
        text
    }
}

/// A text without the slashes at its end.
pub open spec fn without_end_slashes(text: Seq<char>) -> Seq<char>
    decreases text.len(),
{
    if text.len() > 0 && text.last() == '/' {
        without_end_slashes(text.drop_last())
    } else {
        text
    }
}

/// Drops the slashes at the end of a text.
pub fn trim_end_slashes(text: &str) -> (trimmed: &str)
    ensures
        trimmed@ == without_end_slashes(text@),
        trimmed@.len() <= text@.len(),
        trimmed@ == text@.take(trimmed@.len() as int),
        forall|i: int| trimmed@.len() <= i < text@.len() ==> (#[trigger] text@[i]) == '/',
        trimmed@.len() > 0 ==> trimmed@.last() != '/',
{
    proof {
        only_end_slashes_are_dropped(text@);
    }
    let mut n: usize = text.unicode_len();
    assert(text@.take(n as int) == text@);
    while n > 0 && text.get_char(n - 1) == '/'
        invariant
            n <= text@.len(),
            without_end_slashes(text@.take(n as int)) == without_end_slashes(text@),
        decreases n,
    {
        assert(text@.take(n as int).drop_last() == text@.take(n - 1));
        n = n - 1;
    }
    let trimmed = text.substring_char(0, n);
    assert(trimmed@ == text@.take(n as int));
    trimmed
}

/// Some texts by their characters.
pub open spec fn texts(strings: Seq<String>) -> Seq<Seq<char>> {
    strings.map_values(|s: String| s@)
}

/// A text after a heading.
pub fn headed(heading: &str, text: &str) -> (line: String)
    ensures
        line@ == heading@ + text@,
{
    heading.to_owned().concat(text)
}

/// Two texts are the same but for case exactly if they are of one length, and each character of one
/// is that of the other or the same ASCII letter in the other case, which lies 32 apart.
pub proof fn case_is_ignored_letter_by_letter(a: Seq<char>, b: Seq<char>)
    ensures
        same_ignoring_case(a, b) <==> a.len() == b.len() && forall|i: int|
            #![trigger a[i]]
            #![trigger b[i]]
            0 <= i < a.len() ==> {
                ||| a[i] == b[i]
                ||| 'A' <= a[i] <= 'Z' && b[i] as u32 == a[i] as u32 + 32
                ||| 'A' <= b[i] <= 'Z' && a[i] as u32 == b[i] as u32 + 32
            },
{
    if same_ignoring_case(a, b) {
        assert(ascii_lower(a).len() == a.len() && ascii_lower(b).len() == b.len());
        assert forall|i: int| 0 <= i < a.len() implies {
            ||| #[trigger] a[i] == b[i]
            ||| 'A' <= a[i] <= 'Z' && b[i] as u32 == a[i] as u32 + 32
            ||| 'A' <= b[i] <= 'Z' && a[i] as u32 == b[i] as u32 + 32
        } by {
            assert(ascii_lower(a)[i] == lower(a[i]));
            assert(ascii_lower(b)[i] == lower(b[i]));
        }
    }
    if a.len() == b.len() && forall|i: int|
        #![trigger a[i]]
        #![trigger b[i]]
        0 <= i < a.len() ==> {
            ||| a[i] == b[i]
            ||| 'A' <= a[i] <= 'Z' && b[i] as u32 == a[i] as u32 + 32
            ||| 'A' <= b[i] <= 'Z' && a[i] as u32 == b[i] as u32 + 32
        } {
        assert forall|i: int| 0 <= i < a.len() implies ascii_lower(a)[i] == ascii_lower(b)[i] by {
            assert(ascii_lower(a)[i] == lower(a[i]));
            assert(ascii_lower(b)[i] == lower(b[i]));
        }
        assert(ascii_lower(a) =~= ascii_lower(b));
    }
}

/// The digits, in their order.
pub proof fn digits_come_in_order(d: int)
    requires
        0 <= d < 16,
    ensures
        digit_char(d) == "0123456789abcdef"@[d],
{
    reveal_strlit("0123456789abcdef");
}

/// The number that decimal digits stand for.
pub open spec fn number_of(digits: Seq<char>) -> int
    decreases digits.len(),
{
    if digits.len() == 0 {
        0
    } else {
        10 * number_of(digits.drop_last()) + (digits.last() as int - '0' as int)
    }
}

/// What is written in decimal reads back as the number, is made of the digits 0 to 9, and starts
/// with 0 only if it is the number 0.
pub proof fn decimal_reads_back(n: nat)
    ensures
        number_of(decimal(n)) == n,
        decimal(n).len() > 0,
        forall|i: int| 0 <= i < decimal(n).len() ==> '0' <= #[trigger] decimal(n)[i] <= '9',
        decimal(n)[0] == '0' ==> n == 0,
    decreases n,
{
    if n < 10 {
        assert(decimal(n).drop_last() =~= Seq::empty());
        assert(number_of(decimal(n).drop_last()) == 0);
    } else {
        decimal_reads_back(n / 10);
        assert(decimal(n).drop_last() =~= decimal(n / 10));
        assert forall|i: int| 0 <= i < decimal(n).len() implies '0' <= #[trigger] decimal(n)[i]
            <= '9' by {
            if i < decimal(n / 10).len() {
                assert(decimal(n)[i] == decimal(n / 10)[i]);
            }
        }
        assert(decimal(n)[0] == decimal(n / 10)[0]);
    }
}

/// Dropping the slashes at the end of a text drops nothing else, and leaves none at the end: the
/// text is what is left, followed by slashes alone.
pub proof fn only_end_slashes_are_dropped(text: Seq<char>)
    ensures
        ({
            let base = without_end_slashes(text);
            &&& base.len() <= text.len()
            &&& base == text.take(base.len() as int)
            &&& forall|i: int| base.len() <= i < text.len() ==> (#[trigger] text[i]) == '/'
            &&& base.len() > 0 ==> base.last() != '/'
            &&& text.len() > 0 && text.last() != '/' ==> base == text
        }),
    decreases text.len(),
{
    if text.len() > 0 && text.last() == '/' {
        let shorter = text.drop_last();
        only_end_slashes_are_dropped(shorter);
        let base = without_end_slashes(text);
        assert(base =~= text.take(base.len() as int));
        assert forall|i: int| base.len() <= i < text.len() implies (#[trigger] text[i]) == '/' by {
            if i < shorter.len() {
                assert(shorter[i] == text[i]);
            }
        }
    } else {
        assert(text =~= text.take(text.len() as int));
    }
}

/// Some texts by their characters are as many, each by its own.
pub proof fn texts_hold_each_string(strings: Seq<String>)
    ensures
        texts(strings).len() == strings.len(),
        forall|i: int| 0 <= i < strings.len() ==> (#[trigger] texts(strings)[i]) == strings[i]@,
{
}

} // verus!
