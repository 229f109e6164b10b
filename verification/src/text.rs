//! Text: numbers in decimal, lines, upper case and colour codes.

use regex::Regex;
use substring::Substring;
use vstd::prelude::*;

verus! {

/// The digit `d`, written out.
pub open spec fn digit_text(d: nat) -> Seq<char> {
    if d == 0 {
        "0"@
    } else if d == 1 {
        "1"@
    } else if d == 2 {
        "2"@
    } else if d == 3 {
        "3"@
    } else if d == 4 {
        "4"@
    } else if d == 5 {
        "5"@
    } else if d == 6 {
        "6"@
    } else if d == 7 {
        "7"@
    } else if d == 8 {
        "8"@
    } else {
        "9"@
    }
}

/// `n` in decimal, without leading zeros.
pub open spec fn digits(n: nat) -> Seq<char>
    decreases n,
{
    if n < 10 {
        digit_text(n)
    } else {
        digits(n / 10) + digit_text(n % 10)
    }
}

/// `n` in decimal, with a minus sign where it is negative.
pub open spec fn decimal_text(n: int) -> Seq<char> {
    if n < 0 {
        "-"@ + digits((-n) as nat)
    } else {
        digits(n as nat)
    }
}

/// `true` or `false`.
pub open spec fn bool_text(b: bool) -> Seq<char> {
    if b {
        "true"@
    } else {
        "false"@
    }
}

fn digit(d: u64) -> (text: &'static str)
    requires
        d < 10,
    ensures
        text@ == digit_text(d as nat),
{
    if d == 0 {
        "0"
    } else if d == 1 {
        "1"
    } else if d == 2 {
        "2"
    } else if d == 3 {
        "3"
    } else if d == 4 {
        "4"
    } else if d == 5 {
        "5"
    } else if d == 6 {
        "6"
    } else if d == 7 {
        "7"
    } else if d == 8 {
        "8"
    } else {
        "9"
    }
}

fn append_digits(text: &mut String, n: u64)
    ensures
        final(text)@ == old(text)@ + digits(n as nat),
    decreases n,
{
    if n >= 10 {
        append_digits(text, n / 10);
    }
    text.append(digit(n % 10));
    assert(text@ =~= old(text)@ + digits(n as nat));
}

/// Appends `n` in decimal to `text`.
pub fn append_decimal(text: &mut String, n: i64)
    ensures
        final(text)@ == old(text)@ + decimal_text(n as int),
{
    if n < 0 {
        text.append("-");
        let magnitude: u64 = (-(n as i128)) as u64;
        append_digits(text, magnitude);
        assert(text@ =~= old(text)@ + decimal_text(n as int));
    } else {
        append_digits(text, n as u64);
    }
}

/// Appends `true` or `false` to `text`.
pub fn append_bool(text: &mut String, b: bool)
    ensures
        final(text)@ == old(text)@ + bool_text(b),
{
    if b {
        text.append("true");
    } else {
        text.append("false");
    }
}

proof fn lemma_digit(d: nat)
    requires
        d < 10,
    ensures
        digit_text(d).len() == 1,
        digit_text(d)[0] as int == '0' as int + d,
{
    reveal_strlit("0");
    reveal_strlit("1");
    reveal_strlit("2");
    reveal_strlit("3");
    reveal_strlit("4");
    reveal_strlit("5");
    reveal_strlit("6");
    reveal_strlit("7");
    reveal_strlit("8");
    reveal_strlit("9");
}

proof fn lemma_digits_start(n: nat)
    ensures
        digits(n).len() >= 1,
        n >= 10 ==> digits(n).len() >= 2,
        digits(n)[0] as int >= '0' as int,
    decreases n,
{
    if n < 10 {
        lemma_digit(n);
    } else {
        lemma_digits_start(n / 10);
        lemma_digit(n % 10);
    }
}

proof fn lemma_digits_differ(m: nat, n: nat)
    requires
        digits(m) == digits(n),
    ensures
        m == n,
    decreases m,
{
    lemma_digits_start(m);
    lemma_digits_start(n);
    lemma_digit(m % 10);
    lemma_digit(n % 10);
    if m >= 10 && n >= 10 {
        assert(digits(m).drop_last() =~= digits(m / 10));
        assert(digits(n).drop_last() =~= digits(n / 10));
        assert(digits(m).last() == digit_text(m % 10)[0]);
        assert(digits(n).last() == digit_text(n % 10)[0]);
        lemma_digits_differ(m / 10, n / 10);
    } else if m < 10 && n < 10 {
        lemma_digit(m);
        lemma_digit(n);
    } else if m < 10 {
        lemma_digit(m);
    } else {
        lemma_digit(n);
    }
}

/// Different numbers are written differently.
pub proof fn decimal_texts_differ(m: int, n: int)
    requires
        m != n,
    ensures
        decimal_text(m) != decimal_text(n),
{
    reveal_strlit("-");
    if decimal_text(m) == decimal_text(n) {
        if m < 0 {
            assert(decimal_text(m)[0] == '-');
            assert(decimal_text(m).skip(1) =~= digits((-m) as nat));
        } else {
            lemma_digits_start(m as nat);
        }
        if n < 0 {
            assert(decimal_text(n)[0] == '-');
            assert(decimal_text(n).skip(1) =~= digits((-n) as nat));
        } else {
            lemma_digits_start(n as nat);
        }
        if m < 0 && n < 0 {
            lemma_digits_differ((-m) as nat, (-n) as nat);
        } else if m >= 0 && n >= 0 {
            lemma_digits_differ(m as nat, n as nat);
        }
    }
}

/// The part of `text` before its first line feed, or all of it where it has none.
pub open spec fn first_line_of(text: Seq<char>) -> Seq<char>
    decreases text.len(),
{
    if text.len() == 0 || text[0] == '\n' {
        Seq::empty()
    } else {
        seq![text[0]] + first_line_of(text.drop_first())
    }
}

/// The first line is the longest prefix without a line feed: it holds none, it is a prefix, and
/// it ends where the text ends or a line feed stands.
pub proof fn first_line_is_longest_prefix(text: Seq<char>)
    ensures
        first_line_of(text).len() <= text.len(),
        first_line_of(text) == text.take(first_line_of(text).len() as int),
        !first_line_of(text).contains('\n'),
        first_line_of(text).len() == text.len() || text[first_line_of(text).len() as int] == '\n',
    decreases text.len(),
{
    if text.len() > 0 && text[0] != '\n' {
        let rest = first_line_of(text.drop_first());
        first_line_is_longest_prefix(text.drop_first());
        assert(first_line_of(text) =~= text.take(first_line_of(text).len() as int)) by {
            assert forall|i: int| 0 <= i < first_line_of(text).len() implies first_line_of(text)[i]
                == text[i] by {
                if i > 0 {
                    assert(rest[i - 1] == text.drop_first().take(rest.len() as int)[i - 1]);
                }
            }
        }
        assert forall|i: int| 0 <= i < first_line_of(text).len() implies first_line_of(text)[i]
            != '\n' by {
            if i > 0 {
                assert(rest.contains(rest[i - 1]));
            }
        }
    } else {
        assert(first_line_of(text) =~= text.take(0));
    }
}

/// The part of `text` before its first line feed, or all of it where it has none.
pub fn first_line(text: &str) -> (line: &str)
    ensures
        line@ == first_line_of(text@),
{
    let total: usize = text.unicode_len();
    let mut length: usize = 0;
    proof {
        assert(text@.skip(0) =~= text@);
        assert(text@.take(0) + first_line_of(text@) =~= first_line_of(text@));
    }
    for c in it: text.chars()
        invariant
            total == text@.len(),
            it.seq() == text@,
            length == it.index(),
            length <= text@.len(),
            first_line_of(text@) == text@.take(length as int) + first_line_of(
                text@.skip(length as int),
            ),
    {
        let ghost rest = text@.skip(length as int);
        assert(rest[0] == c);
        if c == '\n' {
            assert(first_line_of(text@) =~= text@.take(length as int));
            return text.substring_char(0, length);
        }
        proof {
            assert(rest.drop_first() =~= text@.skip(length + 1));
            assert(text@.take(length + 1) =~= text@.take(length as int) + seq![c]);
        }
        length = length + 1;
    }
    assert(text@.take(length as int) =~= text@);
    assert(text@.skip(length as int) =~= Seq::empty());
    assert(first_line_of(text@) =~= text@);
    text
}

/// The characters of `text` from `start` on and before `end`, as far as there are any.
pub open spec fn characters_between(text: Seq<char>, start: nat, end: nat) -> Seq<char> {
    if end <= start || text.len() <= start {
        Seq::empty()
    } else if text.len() < end {
        text.skip(start as int)
    } else {
        text.subrange(start as int, end as int)
    }
}

/// `Substring::substring` of `substring` on a `str`: the characters from `start` on and before
/// `end`, as far as there are any.
#[verifier::external_body]
pub(crate) fn substring(text: &str, start: usize, end: usize) -> (part: &str)
    ensures
        part@ == characters_between(text@, start as nat, end as nat),
{
    Substring::substring(text, start, end)
}

/// The upper case of a text that is not ASCII, as Unicode and the standard library define it.
pub uninterp spec fn unicode_uppercase(text: Seq<char>) -> Seq<char>;

/// Whether `text` is made of ASCII characters.
pub open spec fn is_ascii_text(text: Seq<char>) -> bool {
    forall|i: int| 0 <= i < text.len() ==> (#[trigger] text[i] as u32) < 128
}

/// The upper case of an ASCII character.
pub open spec fn ascii_uppercase(c: char) -> char {
    if 'a' <= c && c <= 'z' {
        ((c as u32) - 32) as char
    } else {
        c
    }
}

/// The upper case of a text: of an ASCII text, letter by letter.
pub open spec fn uppercase_text(text: Seq<char>) -> Seq<char> {
    if is_ascii_text(text) {
        text.map_values(|c: char| ascii_uppercase(c))
    } else {
        unicode_uppercase(text)
    }
}

/// `str::to_uppercase` of the standard library. An ASCII text has each of its letters replaced by
/// the capital one, and is otherwise kept; of any other text the result is a function of the text.
#[verifier::external_body]
pub(crate) fn to_uppercase(text: &str) -> (upper: String)
    ensures
        upper@ == (if is_ascii_text(text@) {
            text@.map_values(|c: char| ascii_uppercase(c))
        } else {
            unicode_uppercase(text@)
        }),
{
    text.to_uppercase()
}

/// The pattern of a colour code.
pub const MC_CODE_REGEX: &'static str = "(?i)\u{00A7}[0-9A-FK-OR]";

/// Whether `c`, behind a section sign, makes a colour code. The last character listed is the
/// Kelvin sign, whose lower case is `k`.
pub open spec fn is_code_char(c: char) -> bool {
    ||| '0' <= c && c <= '9'
    ||| 'A' <= c && c <= 'F'
    ||| 'a' <= c && c <= 'f'
    ||| 'K' <= c && c <= 'O'
    ||| 'k' <= c && c <= 'o'
    ||| c == 'R'
    ||| c == 'r'
    ||| c == '\u{212A}'
}

/// Whether `text` starts with a colour code.
pub open spec fn starts_with_code(text: Seq<char>) -> bool {
    text.len() >= 2 && text[0] == '\u{00A7}' && is_code_char(text[1])
}

/// `text` without its colour codes, found from left to right.
pub open spec fn without_codes(text: Seq<char>) -> Seq<char>
    decreases text.len(),
{
    if text.len() == 0 {
        Seq::empty()
    } else if starts_with_code(text) {
        without_codes(text.skip(2))
    } else {
        seq![text[0]] + without_codes(text.skip(1))
    }
}

/// `Regex::new` and `Regex::replace_all` of `regex`, on the pattern of a colour code and the empty
/// replacement: every non-overlapping match, from left to right, is taken out. A match is a section
/// sign and one character of the class, compared without regard to case as Unicode folds it.
#[verifier::external_body]
pub(crate) fn replace_all(pattern: &str, text: &str, replacement: &str) -> (replaced: String)
    requires
        pattern@ == MC_CODE_REGEX@,
        replacement@ == ""@,
    ensures
        replaced@ == without_codes(text@),
{
    Regex::new(pattern).unwrap().replace_all(text, replacement).to_string()
}

/// `text` without its colour codes.
pub fn strip_codes(text: &str) -> (stripped: String)
    ensures
        stripped@ == without_codes(text@),
{
    replace_all(MC_CODE_REGEX, text, "")
}

/// A text without a section sign has no colour code to lose.
pub proof fn plain_text_keeps_all(text: Seq<char>)
    requires
        !text.contains('\u{00A7}'),
    ensures
        without_codes(text) == text,
    decreases text.len(),
{
    if text.len() > 0 {
        assert(text.contains(text[0]));
        assert forall|i: int| 0 <= i < text.skip(1).len() implies text.skip(1)[i] != '\u{00A7}' by {
            assert(text.contains(text[i + 1]));
        }
        plain_text_keeps_all(text.skip(1));
        assert(seq![text[0]] + text.skip(1) =~= text);
    } else {
        assert(without_codes(text) =~= text);
    }
}

/// A colour code in front of a text changes nothing of what is left of it.
pub proof fn leading_code_vanishes(code: char, text: Seq<char>)
    requires
        is_code_char(code),
    ensures
        without_codes(seq!['\u{00A7}', code] + text) == without_codes(text),
{
    assert((seq!['\u{00A7}', code] + text).skip(2) =~= text);
}

/// Numbers are written by place: a digit is its own character, a longer number is what its tenth
/// is written as, with its last digit behind, and a negative one is what its opposite is written
/// as, with a minus sign in front.
pub proof fn numbers_are_written_by_place(n: int)
    ensures
        0 <= n < 10 ==> decimal_text(n).len() == 1 && decimal_text(n)[0] as int == '0' as int + n,
        n >= 10 ==> decimal_text(n) == decimal_text(n / 10) + decimal_text(n % 10),
        n < 0 ==> decimal_text(n) == seq!['-'] + decimal_text(-n),
{
    reveal_strlit("-");
    if 0 <= n < 10 {
        lemma_digit(n as nat);
    }
    if n < 0 {
        assert("-"@ =~= seq!['-']);
    }
}

/// Nothing but digits and minus signs is written for a number.
pub proof fn numbers_hold_digits_only(n: int)
    ensures
        decimal_text(n).len() > 0,
        forall|i: int|
            0 <= i < decimal_text(n).len() ==> (#[trigger] decimal_text(n)[i]) == '-' || '0'
                <= decimal_text(n)[i] <= '9',
    decreases
            if n < 0 {
                1 - n
            } else {
                n
            },
{
    numbers_are_written_by_place(n);
    if n >= 10 {
        numbers_hold_digits_only(n / 10);
        numbers_are_written_by_place(n % 10);
    } else if n < 0 {
        numbers_hold_digits_only(-n);
    }
}

/// The truth values are written as the two words, which differ.
pub proof fn truth_values_are_told_apart(b: bool)
    ensures
        b ==> bool_text(b) == seq!['t', 'r', 'u', 'e'],
        !b ==> bool_text(b) == seq!['f', 'a', 'l', 's', 'e'],
{
    reveal_strlit("true");
    reveal_strlit("false");
    assert("true"@ =~= seq!['t', 'r', 'u', 'e']);
    assert("false"@ =~= seq!['f', 'a', 'l', 's', 'e']);
}

/// A line is the first line of itself and of every text that goes on behind it with a line feed.
pub proof fn first_line_is_what_precedes_a_line_feed(line: Seq<char>, rest: Seq<char>)
    requires
        !line.contains('\n'),
    ensures
        first_line_of(line) == line,
        first_line_of(line + seq!['\n'] + rest) == line,
{
    let text = line + seq!['\n'] + rest;
    first_line_is_longest_prefix(line);
    first_line_is_longest_prefix(text);
    let short = first_line_of(line);
    if short.len() < line.len() {
        assert(line.contains(line[short.len() as int]));
    }
    assert(short =~= line);
    let found = first_line_of(text);
    if found.len() < line.len() {
        assert(text[found.len() as int] == line[found.len() as int]);
        assert(line.contains(line[found.len() as int]));
    }
    if found.len() > line.len() {
        assert(found[line.len() as int] == text[line.len() as int]);
        assert(found.contains(found[line.len() as int]));
    }
    assert(found =~= line);
}

/// A character that is not a section sign stays where it is.
pub proof fn other_characters_stay(c: char, text: Seq<char>)
    requires
        c != '\u{00A7}',
    ensures
        without_codes(seq![c] + text) == seq![c] + without_codes(text),
{
    assert((seq![c] + text).skip(1) =~= text);
}

/// The upper case of an ASCII text has a character for each of its own: a letter between `a` and
/// `z` is moved up to the capital one, any other character is kept.
pub proof fn ascii_letters_become_capital(text: Seq<char>, i: int)
    requires
        forall|k: int| 0 <= k < text.len() ==> (#[trigger] text[k] as u32) < 128,
        0 <= i < text.len(),
    ensures
        uppercase_text(text).len() == text.len(),
        'a' <= text[i] <= 'z' ==> uppercase_text(text)[i] as int - 'A' as int == text[i] as int
            - 'a' as int,
        !('a' <= text[i] <= 'z') ==> uppercase_text(text)[i] == text[i],
{
}

/// The characters from the start on are the whole of a text that is short enough, else as many as
/// were asked for.
pub proof fn beginning_of_a_text(text: Seq<char>, end: nat)
    ensures
        text.len() <= end ==> characters_between(text, 0, end) == text,
        text.len() > end ==> characters_between(text, 0, end) == text.take(end as int),
{
    assert(text.skip(0) =~= text);
    assert(text.take(0) =~= Seq::empty());
    assert(text.subrange(0, text.len() as int) =~= text);
}

/// The upper case of a text with any other character is that of Unicode.
pub proof fn other_texts_become_capital_by_unicode(text: Seq<char>, i: int)
    requires
        0 <= i < text.len(),
        text[i] as u32 >= 128,
    ensures
        uppercase_text(text) == unicode_uppercase(text),
{
}

/// A section sign goes, with the character behind it, if and only if that is a digit, one of the
/// letters `a` to `f`, `k` to `o` and `r` in either case, or the Kelvin sign. Before any other
/// character, and at the end, it stays.
pub proof fn section_sign_goes_with_its_code(c: char, text: Seq<char>)
    ensures
        ({
            let is_code = '0' <= c <= '9' || 'a' <= c <= 'f' || 'A' <= c <= 'F' || 'k' <= c <= 'o'
                || 'K' <= c <= 'O' || c == 'r' || c == 'R' || c == '\u{212A}';
            let sign = '\u{00A7}';
            &&& is_code ==> without_codes(seq![sign, c] + text) == without_codes(text)
            &&& !is_code ==> without_codes(seq![sign, c] + text) == seq![sign] + without_codes(
                seq![c] + text,
            )
            &&& without_codes(seq![sign]) == seq![sign]
        }),
{
    let sign = '\u{00A7}';
    assert((seq![sign, c] + text).skip(2) =~= text);
    assert((seq![sign, c] + text).skip(1) =~= seq![c] + text);
    assert(seq![sign].skip(1) =~= Seq::<char>::empty());
    assert(without_codes(seq![sign].skip(1)) =~= Seq::<char>::empty());
}

} // verus!
