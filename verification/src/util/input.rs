//! What is made of a line that the player typed: trimming, reading a number,
//! and choosing from a numbered list of options.

use crate::util::text::{decimal, decimal_text};
use vstd::prelude::*;

verus! {

/// Whether `c` has the Unicode property `White_Space`.
pub open spec fn is_whitespace(c: char) -> bool {
    let point = c as u32;
    ||| 0x09 <= point <= 0x0D
    ||| point == 0x20
    ||| point == 0x85
    ||| point == 0xA0
    ||| point == 0x1680
    ||| 0x2000 <= point <= 0x200A
    ||| point == 0x2028
    ||| point == 0x2029
    ||| point == 0x202F
    ||| point == 0x205F
    ||| point == 0x3000
}

/// `s` without the whitespace at its start.
pub open spec fn trim_start(s: Seq<char>) -> Seq<char>
    decreases s.len(),
{
    if s.len() > 0 && is_whitespace(s[0]) {
        trim_start(s.drop_first())
    } else {
        s
    }
}

/// `s` without the whitespace at its end.
pub open spec fn trim_end(s: Seq<char>) -> Seq<char>
    decreases s.len(),
{
    if s.len() > 0 && is_whitespace(s.last()) {
        trim_end(s.drop_last())
    } else {
        s
    }
}

/// `s` without the whitespace at either end.
pub open spec fn trimmed(s: Seq<char>) -> Seq<char> {
    trim_end(trim_start(s))
}

/// Whether `c` is one of the digits `0` to `9`.
pub open spec fn is_digit(c: char) -> bool {
    '0' <= c <= '9'
}

/// Whether `s` holds digits only.
pub open spec fn all_digits(s: Seq<char>) -> bool {
    forall|i: int| 0 <= i < s.len() ==> is_digit(#[trigger] s[i])
}

/// The number that the digits of `s` write in decimal.
pub open spec fn digits_value(s: Seq<char>) -> nat
    decreases s.len(),
{
    if s.len() == 0 {
        0
    } else {
        digits_value(s.drop_last()) * 10 + ((s.last() as u32 - '0' as u32) as nat)
    }
}

/// `s` without one leading plus sign.
pub open spec fn unsigned_part(s: Seq<char>) -> Seq<char> {
    if s.len() > 0 && s[0] == '+' {
        s.drop_first()
    } else {
        s
    }
}

/// The number that `s` writes: an optional plus sign, then one or more
/// digits, the value within `usize`. `None` for every other text.
pub open spec fn parsed_usize(s: Seq<char>) -> Option<usize> {
    let body = unsigned_part(s);
    if body.len() > 0 && all_digits(body) && digits_value(body) <= usize::MAX {
        Some(digits_value(body) as usize)
    } else {
        None
    }
}

/// Why a line could not be read as a value.
#[derive(Clone, Copy, Debug, PartialEq, Eq, Structural)]
pub enum InputError {
    /// The trimmed line does not write a number.
    Other,
}

/// Why no option was chosen.
#[derive(Clone, Copy, Debug, PartialEq, Eq, Structural)]
pub enum OptionsError {
    /// Fewer than two options were offered.
    NotEnoughOptions,
    /// The response names none of the options: it is to be asked for again.
    InvalidResponse,
}

/// What a trimmed `response` chooses among `option_count` options numbered
/// from one: the index, from zero, of the option it names.
pub open spec fn selection(option_count: nat, response: Seq<char>) -> Result<usize, OptionsError> {
    if option_count <= 1 {
        Err(OptionsError::NotEnoughOptions)
    } else {
        match parsed_usize(trimmed(response)) {
            Some(number) => if 1 <= number <= option_count {
                Ok((number - 1) as usize)
            } else {
                Err(OptionsError::InvalidResponse)
            },
            None => Err(OptionsError::InvalidResponse),
        }
    }
}

/// The lines that offer the first `upto` of `options`, each as its number
/// from one, `-) `, the option and a line break.
pub open spec fn option_lines(options: Seq<String>, upto: nat) -> Seq<char>
    decreases upto,
{
    if upto == 0 {
        Seq::empty()
    } else {
        option_lines(options, (upto - 1) as nat) + decimal_text(upto) + "-) "@ + options[upto
            - 1]@ + "\n"@
    }
}

/// The message that puts `text` and `options` before the player.
pub open spec fn options_text(text: Seq<char>, options: Seq<String>) -> Seq<char> {
    text + " (Respond with "@ + decimal_text(1) + "-"@ + decimal_text(options.len()) + ")\n"@
        + option_lines(options, options.len())
}

fn whitespace(c: char) -> (yes: bool)
    ensures
        yes == is_whitespace(c),
{
    let point: u32 = c as u32;
    (0x09 <= point && point <= 0x0D) || point == 0x20 || point == 0x85 || point == 0xA0 || point
        == 0x1680 || (0x2000 <= point && point <= 0x200A) || point == 0x2028 || point == 0x2029
        || point == 0x202F || point == 0x205F || point == 0x3000
}

proof fn lemma_trim_start_step(s: Seq<char>, start: int)
    requires
        0 <= start < s.len(),
        is_whitespace(s[start]),
    ensures
        trim_start(s.subrange(start, s.len() as int)) == trim_start(
            s.subrange(start + 1, s.len() as int),
        ),
{
    let tail = s.subrange(start, s.len() as int);
    assert(tail.drop_first() =~= s.subrange(start + 1, s.len() as int));
}

proof fn lemma_trim_end_step(s: Seq<char>, start: int, end: int)
    requires
        0 <= start < end <= s.len(),
        is_whitespace(s[end - 1]),
    ensures
        trim_end(s.subrange(start, end)) == trim_end(s.subrange(start, end - 1)),
{
    let part = s.subrange(start, end);
    assert(part.drop_last() =~= s.subrange(start, end - 1));
}

/// The part of `line` between its leading and its trailing whitespace.
pub fn trim(line: &str) -> (inner: &str)
    ensures
        inner@ == trimmed(line@),
{
    let len = line.unicode_len();
    let mut start: usize = 0;
    assert(line@.subrange(0, len as int) =~= line@);
    while start < len && whitespace(line.get_char(start))
        invariant
            start <= len == line@.len(),
            trim_start(line@) == trim_start(line@.subrange(start as int, len as int)),
        decreases len - start,
    {
        proof {
            lemma_trim_start_step(line@, start as int);
        }
        start += 1;
    }
    let ghost rest = line@.subrange(start as int, len as int);
    assert(trim_start(line@) == rest) by {
        if start < len {
            assert(rest[0] == line@[start as int]);
        }
    }
    let mut end: usize = len;
    while end > start && whitespace(line.get_char(end - 1))
        invariant
            start <= end <= len == line@.len(),
            trim_end(rest) == trim_end(line@.subrange(start as int, end as int)),
            rest == line@.subrange(start as int, len as int),
        decreases end,
    {
        proof {
            lemma_trim_end_step(line@, start as int, end as int);
        }
        end -= 1;
    }
    assert(trim_end(rest) == line@.subrange(start as int, end as int)) by {
        let part = line@.subrange(start as int, end as int);
        if end > start {
            assert(part.last() == line@[end - 1]);
        }
    }
    line.substring_char(start, end)
}

proof fn lemma_digits_value_prefix(s: Seq<char>, k: int)
    requires
        0 <= k <= s.len(),
    ensures
        digits_value(s.subrange(0, k)) <= digits_value(s),
    decreases s.len(),
{
    if k == s.len() {
        assert(s.subrange(0, k) =~= s);
    } else {
        lemma_digits_value_prefix(s.drop_last(), k);
        assert(s.drop_last().subrange(0, k) =~= s.subrange(0, k));
    }
}

/// Reads `text` as a number: an optional plus sign, then one or more digits.
pub fn parse_usize(text: &str) -> (value: Option<usize>)
    ensures
        value == parsed_usize(text@),
{
    let len = text.unicode_len();
    if len == 0 {
        return None;
    }
    let first: usize = if text.get_char(0) == '+' {
        1
    } else {
        0
    };
    let ghost body = unsigned_part(text@);
    assert(body =~= text@.subrange(first as int, len as int));
    if first == len {
        return None;
    }
    let mut at: usize = first;
    let mut value: usize = 0;
    assert(body.subrange(0, 0) =~= Seq::<char>::empty());
    while at < len
        invariant
            first <= at <= len == text@.len(),
            first <= 1,
            body == text@.subrange(first as int, len as int),
            body == unsigned_part(text@),
            all_digits(body.subrange(0, at - first)),
            value == digits_value(body.subrange(0, at - first)),
        decreases len - at,
    {
        let c = text.get_char(at);
        assert(c == body[at - first]);
        if !('0' <= c && c <= '9') {
            assert(!is_digit(body[at - first]));
            return None;
        }
        let digit: usize = (c as u32 - '0' as u32) as usize;
        let ghost next = body.subrange(0, at - first + 1);
        proof {
            assert(next.drop_last() =~= body.subrange(0, at - first));
            assert(next.last() == c);
            assert(all_digits(next)) by {
                assert forall|i: int| 0 <= i < next.len() implies is_digit(#[trigger] next[i]) by {
                    if i < next.len() - 1 {
                        assert(next[i] == body.subrange(0, at - first)[i]);
                    }
                }
            }
            lemma_digits_value_prefix(body, at - first + 1);
            assert(digits_value(next) == value * 10 + digit);
        }
        let scaled = match value.checked_mul(10) {
            Some(scaled) => scaled,
            None => {
                return None;
            },
        };
        value = match scaled.checked_add(digit) {
            Some(sum) => sum,
            None => {
                return None;
            },
        };
        at += 1;
    }
    assert(body.subrange(0, at - first) =~= body);
    Some(value)
}

/// The text of a typed line: the line without the whitespace at its ends.
pub fn collect_input_str(line: &str) -> (text: String)
    ensures
        text@ == trimmed(line@),
{
    String::from_str(trim(line))
}

/// The number that a typed line writes once it is trimmed.
pub fn collect_input(line: &str) -> (value: Result<usize, InputError>)
    ensures
        value == match parsed_usize(trimmed(line@)) {
            Some(number) => Ok::<usize, InputError>(number),
            None => Err(InputError::Other),
        },
{
    match parse_usize(trim(line)) {
        Some(number) => Ok(number),
        None => Err(InputError::Other),
    }
}

/// Builds the message that puts `text` and the numbered `options` before the
/// player. Fewer than two options are refused.
pub fn options_message(text: &str, options: &Vec<String>) -> (message: Result<
    String,
    OptionsError,
>)
    ensures
        options@.len() <= 1 ==> message == Err::<String, OptionsError>(
            OptionsError::NotEnoughOptions,
        ),
        options@.len() > 1 ==> message is Ok && message->Ok_0@ == options_text(text@, options@),
{
    if options.len() <= 1 {
        return Err(OptionsError::NotEnoughOptions);
    }
    let mut message = String::from_str(text);
    message.append(" (Respond with ");
    message.append(decimal(1).as_str());
    message.append("-");
    message.append(decimal(options.len() as u64).as_str());
    message.append(")\n");
    let ghost head = message@;
    let mut i: usize = 0;
    while i < options.len()
        invariant
            i <= options@.len(),
            message@ == head + option_lines(options@, i as nat),
        decreases options@.len() - i,
    {
        message.append(decimal((i + 1) as u64).as_str());
        message.append("-) ");
        message.append(options[i].as_str());
        message.append("\n");
        i += 1;
        assert(message@ =~= head + option_lines(options@, i as nat));
    }
    Ok(message)
}

/// Decides what `response`, a line typed in answer to a list of
/// `option_count` options, chooses: the index from zero of the option whose
/// number it writes. A response that writes no number from 1 to
/// `option_count` is invalid and is to be asked for again.
pub fn collect_with_options(option_count: usize, response: &str) -> (choice: Result<
    usize,
    OptionsError,
>)
    ensures
        choice == selection(option_count as nat, response@),
        choice matches Ok(index) ==> index < option_count,
{
    if option_count <= 1 {
        return Err(OptionsError::NotEnoughOptions);
    }
    match collect_input(response) {
        Ok(number) => {
            if 1 <= number && number <= option_count {
                Ok(number - 1)
            } else {
                Err(OptionsError::InvalidResponse)
            }
        },
        Err(_) => Err(OptionsError::InvalidResponse),
    }
}

} // verus!
