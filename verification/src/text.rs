//! Text that messages and endpoints are made of.

use vstd::prelude::*;
use vstd::string::*;

verus! {

/// The character of a decimal digit.
pub open spec fn digit(value: nat) -> char {
    (('0' as u32) + value) as char
}

/// A number in decimal digits, without leading zeros.
pub open spec fn decimal(value: nat) -> Seq<char>
    decreases value,
{
    if value < 10 {
        seq![digit(value)]
    } else {
        decimal(value / 10).push(digit(value % 10))
    }
}

/// The character has the Unicode property `White_Space`.
pub open spec fn is_white_space(c: char) -> bool {
    let code = c as u32;
    ||| 0x9 <= code <= 0xd
    ||| code == 0x20
    ||| code == 0x85
    ||| code == 0xa0
    ||| code == 0x1680
    ||| 0x2000 <= code <= 0x200a
    ||| code == 0x2028
    ||| code == 0x2029
    ||| code == 0x202f
    ||| code == 0x205f
    ||| code == 0x3000
}

/// The text without white space at its start.
pub open spec fn trimmed_start(text: Seq<char>) -> Seq<char>
    decreases text.len(),
{
    if text.len() > 0 && is_white_space(text[0]) {
        trimmed_start(text.skip(1))
    } else {
        text
    }
}

/// The text without white space at its end.
pub open spec fn trimmed_end(text: Seq<char>) -> Seq<char>
    decreases text.len(),
{
    if text.len() > 0 && is_white_space(text.last()) {
        trimmed_end(text.drop_last())
    } else {
        text
    }
}

/// The text without white space at either end.
pub open spec fn trimmed(text: Seq<char>) -> Seq<char> {
    trimmed_end(trimmed_start(text))
}

/// The text starts with the hexadecimal prefix `0x`.
pub open spec fn has_hex_prefix(text: Seq<char>) -> bool {
    text.len() >= 2 && text[0] == '0' && text[1] == 'x'
}

/// The text without any of the `0x` prefixes it starts with.
pub open spec fn without_hex_prefixes(text: Seq<char>) -> Seq<char>
    decreases text.len(),
{
    if has_hex_prefix(text) {
        without_hex_prefixes(text.skip(2))
    } else {
        text
    }
}

/// Calls `str::trim`, which removes leading and trailing white space, that is,
/// characters with the Unicode property `White_Space`.
#[verifier::external_body]
pub(crate) fn trim(text: &str) -> (inner: &str)
    ensures
        inner@ == trimmed(text@),
{
    text.trim()
}

/// Calls `str::trim_start_matches` with `0x`, which removes that prefix as
/// often as the text starts with it.
#[verifier::external_body]
pub(crate) fn strip_hex_prefixes(text: &str) -> (rest: &str)
    ensures
        rest@ == without_hex_prefixes(text@),
{
    text.trim_start_matches("0x")
}

/// The text of one decimal digit.
fn digit_text(value: u64) -> (text: &'static str)
    requires
        value < 10,
    ensures
        text@ == seq![digit(value as nat)],
{
    proof {
        reveal_strlit("0");
        reveal_strlit("1");
        reveal_strlit("2");
        reveal_strlit("3");
        reveal_strlit("4");
        reveal_strlit("5");
        reveal_strlit("6");
        reveal_strlit("7");
        reveal_strlit("8");
        reveal_strlit("9");
    }
    let text: &'static str = match value {
        0 => "0",
        1 => "1",
        2 => "2",
        3 => "3",
        4 => "4",
        5 => "5",
        6 => "6",
        7 => "7",
        8 => "8",
        _ => "9",
    };
    assert(text@ =~= seq![digit(value as nat)]);
    text
}

/// A number in decimal digits.
pub fn decimal_text(value: u64) -> (text: String)
    ensures
        text@ == decimal(value as nat),
    decreases value,
{
    if value < 10 {
        digit_text(value).to_owned()
    } else {
        let text = decimal_text(value / 10).concat(digit_text(value % 10));
        assert(text@ =~= decimal(value as nat));
        text
    }
}

/// Trimming a text twice changes nothing more.
pub proof fn law_trim_is_idempotent(text: Seq<char>)
    ensures
        trimmed(trimmed(text)) == trimmed(text),
{
    let start = trimmed_start(text);
    lemma_start_is_bare(text);
    lemma_end_keeps_bare_start(start);
    lemma_end_is_bare(start);
    let inner = trimmed(text);
    assert(trimmed_start(inner) == inner);
    assert(trimmed_end(inner) == inner);
}

proof fn lemma_start_is_bare(text: Seq<char>)
    ensures
        trimmed_start(text).len() > 0 ==> !is_white_space(trimmed_start(text)[0]),
    decreases text.len(),
{
    if text.len() > 0 && is_white_space(text[0]) {
        lemma_start_is_bare(text.skip(1));
    }
}

proof fn lemma_end_is_bare(text: Seq<char>)
    ensures
        trimmed_end(text).len() > 0 ==> !is_white_space(trimmed_end(text).last()),
    decreases text.len(),
{
    if text.len() > 0 && is_white_space(text.last()) {
        lemma_end_is_bare(text.drop_last());
    }
}

proof fn lemma_end_keeps_bare_start(text: Seq<char>)
    requires
        text.len() > 0 ==> !is_white_space(text[0]),
    ensures
        trimmed_end(text).len() > 0 ==> !is_white_space(trimmed_end(text)[0]),
    decreases text.len(),
{
    if text.len() > 0 && is_white_space(text.last()) {
        lemma_end_keeps_bare_start(text.drop_last());
    }
}

/// A text that begins with `0x` has the same rest as the text after that prefix.
pub proof fn law_hex_prefix_is_irrelevant(text: Seq<char>)
    ensures
        without_hex_prefixes(seq!['0', 'x'] + text) == without_hex_prefixes(text),
{
    assert((seq!['0', 'x'] + text).skip(2) =~= text);
}

/// The number that decimal digits stand for.
pub open spec fn read_decimal(digits: Seq<char>) -> int
    decreases digits.len(),
{
    if digits.len() == 0 {
        0
    } else {
        10 * read_decimal(digits.drop_last()) + (digits.last() as u32 - '0' as u32)
    }
}

/// The decimal digits of a number stand for that number. They are digits only,
/// and the first one is a zero only for the number zero.
pub proof fn law_decimal_reads_back(value: nat)
    ensures
        read_decimal(decimal(value)) == value,
        decimal(value).len() > 0,
        forall|i: int| 0 <= i < decimal(value).len() ==> '0' <= #[trigger] decimal(value)[i] <= '9',
        decimal(value)[0] == '0' ==> value == 0,
    decreases value,
{
    let digits = decimal(value);
    if value < 10 {
        assert(digits.drop_last() =~= Seq::empty());
        assert(read_decimal(digits.drop_last()) == 0);
        assert(digits[0] == digit(value));
    } else {
        let front = decimal(value / 10);
        law_decimal_reads_back(value / 10);
        assert(digits.drop_last() =~= front);
        assert(digits.last() == digit(value % 10));
        assert(digits[0] == front[0]);
        assert forall|i: int| 0 <= i < digits.len() implies '0' <= #[trigger] digits[i] <= '9' by {
            if i < front.len() {
                assert(digits[i] == front[i]);
            }
        }
    }
}

proof fn lemma_start_is_cut(text: Seq<char>) -> (start: int)
    ensures
        0 <= start <= text.len(),
        trimmed_start(text) == text.skip(start),
        forall|i: int| 0 <= i < start ==> is_white_space(#[trigger] text[i]),
    decreases text.len(),
{
    if text.len() > 0 && is_white_space(text[0]) {
        let rest = text.skip(1);
        let start = lemma_start_is_cut(rest);
        assert(rest.skip(start) =~= text.skip(start + 1));
        assert forall|i: int| 0 <= i < start + 1 implies is_white_space(#[trigger] text[i]) by {
            if i > 0 {
                assert(rest[i - 1] == text[i]);
            }
        }
        start + 1
    } else {
        assert(text.skip(0) =~= text);
        0
    }
}

proof fn lemma_end_is_cut(text: Seq<char>) -> (end: int)
    ensures
        0 <= end <= text.len(),
        trimmed_end(text) == text.take(end),
        forall|i: int| end <= i < text.len() ==> is_white_space(#[trigger] text[i]),
    decreases text.len(),
{
    if text.len() > 0 && is_white_space(text.last()) {
        let front = text.drop_last();
        let end = lemma_end_is_cut(front);
        assert(front.take(end) =~= text.take(end));
        assert forall|i: int| end <= i < text.len() implies is_white_space(#[trigger] text[i]) by {
            if i < front.len() {
                assert(front[i] == text[i]);
            }
        }
        end
    } else {
        assert(text.take(text.len() as int) =~= text);
        text.len() as int
    }
}

/// A trimmed text is a stretch of the text with nothing but white space before
/// and behind it, and begins and ends with other characters.
pub proof fn law_trim_cuts_only_white_space(text: Seq<char>) -> (cut: (int, int))
    ensures
        0 <= cut.0 <= cut.1 <= text.len(),
        trimmed(text) == text.subrange(cut.0, cut.1),
        forall|i: int| 0 <= i < cut.0 ==> is_white_space(#[trigger] text[i]),
        forall|i: int| cut.1 <= i < text.len() ==> is_white_space(#[trigger] text[i]),
        trimmed(text).len() > 0 ==> !is_white_space(trimmed(text)[0]) && !is_white_space(
            trimmed(text).last(),
        ),
{
    let start = lemma_start_is_cut(text);
    let rest = trimmed_start(text);
    let end = lemma_end_is_cut(rest);
    lemma_start_is_bare(text);
    lemma_end_keeps_bare_start(rest);
    lemma_end_is_bare(rest);
    assert(rest.take(end) =~= text.subrange(start, start + end));
    assert forall|i: int| start + end <= i < text.len() implies is_white_space(
        #[trigger] text[i],
    ) by {
        assert(rest[i - start] == text[i]);
    }
    (start, start + end)
}

/// Among ASCII characters, white space is the space and the control characters
/// from the tabulator to the carriage return.
pub proof fn law_ascii_white_space(c: char)
    requires
        (c as u32) < 0x80,
    ensures
        is_white_space(c) <==> c == ' ' || 9 <= (c as u32) <= 13,
{
}

/// The text has `0x` after so many pairs of characters.
pub open spec fn prefix_at(text: Seq<char>, pairs: int) -> bool {
    text.len() >= 2 * pairs + 2 && text[2 * pairs] == '0' && text[2 * pairs + 1] == 'x'
}

/// What is left of a text without its prefixes is the end of the text. Before it
/// stands `0x` over and over, and it does not begin with `0x` itself.
#[verifier::spinoff_prover]
pub proof fn law_prefixes_are_cut_completely(text: Seq<char>) -> (count: int)
    ensures
        0 <= count,
        2 * count <= text.len(),
        without_hex_prefixes(text) == text.skip(2 * count),
        forall|k: int| 0 <= k < count ==> #[trigger] prefix_at(text, k),
        !prefix_at(text, count),
    decreases text.len(),
{
    if has_hex_prefix(text) {
        let rest = text.skip(2);
        let count = law_prefixes_are_cut_completely(rest);
        assert(rest.skip(2 * count) =~= text.skip(2 * (count + 1)));
        assert forall|k: int| 0 <= k < count + 1 implies #[trigger] prefix_at(text, k) by {
            if k > 0 {
                assert(prefix_at(rest, k - 1));
            }
        }
        assert(prefix_at(text, count + 1) == prefix_at(rest, count));
        count + 1
    } else {
        assert(text.skip(0) =~= text);
        0
    }
}

} // verus!
