//! Text handling for log reasons, metadata fields and CSV lines.
//!
//! Texts are specified as sequences of characters. The functions here cover
//! what the crate needs: decimal numbers, trimming, splitting at commas,
//! splitting into lines and joining.

use crate::binary32::Binary32;
use vstd::prelude::*;

pub mod laws;

verus! {

/// Appends one character at the end.
///
/// `String::push` is documented to append the given character to the end of
/// the string; the contract says so of the character sequence.
pub assume_specification[ String::push ](string: &mut String, ch: char)
    ensures
        final(string)@ == old(string)@.push(ch),
;

/// What debug formatting prints for a text: the text in double quotes, with
/// characters escaped where needed.
pub uninterp spec fn quoted(s: Seq<char>) -> Seq<char>;

/// Debug formatting of a text (`{:?}` of `str`).
///
/// The output is a function of the text alone; the contract names it and says
/// nothing of the escapes.
#[verifier::external_body]
pub(crate) fn quote(s: &str) -> (out: String)
    ensures
        out@ == quoted(s@),
{
    format!("{:?}", s)
}

/// The character of a decimal digit.
pub open spec fn digit(d: int) -> char {
    (48 + d) as char
}

/// Decimal notation of `n`, without leading zeros.
pub open spec fn decimal(n: nat) -> Seq<char>
    decreases n,
{
    if n < 10 {
        seq![digit(n as int)]
    } else {
        decimal(n / 10).push(digit((n % 10) as int))
    }
}

/// Views of a list of texts.
pub open spec fn views(texts: Seq<String>) -> Seq<Seq<char>> {
    Seq::new(texts.len(), |i: int| texts[i]@)
}

fn digit_char(d: u8) -> (c: char)
    requires
        d < 10,
    ensures
        c == digit(d as int),
{
    (48u8 + d) as char
}

/// Appends the decimal notation of `n`.
pub(crate) fn push_decimal(out: &mut String, n: u128)
    ensures
        final(out)@ == old(out)@ + decimal(n as nat),
    decreases n,
{
    if n >= 10 {
        push_decimal(out, n / 10);
    }
    out.push(digit_char((n % 10) as u8));
    proof {
        assert(old(out)@ + decimal(n as nat) =~= out@);
    }
}

/// Decimal notation of `n`.
pub fn decimal_text(n: u128) -> (text: String)
    ensures
        text@ == decimal(n as nat),
{
    let mut out: String = String::new();
    push_decimal(&mut out, n);
    proof {
        assert(out@ =~= decimal(n as nat));
    }
    out
}

/// Appends a text.
pub(crate) fn push_text(out: &mut String, text: &str)
    ensures
        final(out)@ == old(out)@ + text@,
{
    out.append(text);
}

/// Distinct numbers have distinct decimal notations.
pub proof fn lemma_decimal_injective(a: nat, b: nat)
    requires
        decimal(a) == decimal(b),
    ensures
        a == b,
    decreases a,
{
    lemma_decimal_shape(a);
    lemma_decimal_shape(b);
    assert(decimal(a).last() == decimal(b).last());
    if a >= 10 {
        assert(decimal(a).drop_last() =~= decimal(a / 10));
        assert(decimal(b).drop_last() =~= decimal(b / 10));
        lemma_decimal_injective(a / 10, b / 10);
    }
}

/// A decimal notation is not empty, holds only digits, and ends in the last digit.
pub proof fn lemma_decimal_shape(n: nat)
    ensures
        decimal(n).len() >= 1,
        decimal(n).len() == 1 <==> n < 10,
        decimal(n).last() == digit((n % 10) as int),
        forall|i: int| 0 <= i < decimal(n).len() ==> '0' <= #[trigger] decimal(n)[i] <= '9',
    decreases n,
{
    if n >= 10 {
        lemma_decimal_shape(n / 10);
    }
}

/// The Unicode `White_Space` property.
pub open spec fn whitespace(c: char) -> bool {
    ||| '\u{9}' <= c <= '\u{d}'
    ||| c == ' '
    ||| c == '\u{85}'
    ||| c == '\u{a0}'
    ||| c == '\u{1680}'
    ||| '\u{2000}' <= c <= '\u{200a}'
    ||| c == '\u{2028}'
    ||| c == '\u{2029}'
    ||| c == '\u{202f}'
    ||| c == '\u{205f}'
    ||| c == '\u{3000}'
}

/// Text without leading whitespace.
pub open spec fn trim_start(s: Seq<char>) -> Seq<char>
    decreases s.len(),
{
    if s.len() > 0 && whitespace(s[0]) {
        trim_start(s.skip(1))
    } else {
        s
    }
}

/// Text without trailing whitespace.
pub open spec fn trim_end(s: Seq<char>) -> Seq<char>
    decreases s.len(),
{
    if s.len() > 0 && whitespace(s.last()) {
        trim_end(s.drop_last())
    } else {
        s
    }
}

/// Text without leading and trailing whitespace.
pub open spec fn trimmed(s: Seq<char>) -> Seq<char> {
    trim_end(trim_start(s))
}

/// Position of the first `c` at or after `from`, or the length.
pub open spec fn find_from(s: Seq<char>, c: char, from: int) -> int
    decreases s.len() - from,
{
    if from < s.len() && s[from] != c {
        find_from(s, c, from + 1)
    } else {
        from
    }
}

/// Parts of `s` between the commas; one part more than there are commas.
pub open spec fn split_commas(s: Seq<char>) -> Seq<Seq<char>>
    decreases s.len(),
{
    let i = find_from(s, ',', 0);
    if 0 <= i < s.len() {
        seq![s.take(i)] + split_commas(s.skip(i + 1))
    } else {
        seq![s]
    }
}

/// A line without the carriage return that belongs to its line ending.
pub open spec fn without_return(line: Seq<char>) -> Seq<char> {
    if line.len() > 0 && line.last() == '\r' {
        line.drop_last()
    } else {
        line
    }
}

/// Lines of `s`: ended by a line feed or by carriage return and line feed.
/// The ending of the last line is optional.
pub open spec fn lines(s: Seq<char>) -> Seq<Seq<char>>
    decreases s.len(),
{
    let i = find_from(s, '\n', 0);
    if s.len() == 0 {
        Seq::empty()
    } else if 0 <= i < s.len() {
        seq![without_return(s.take(i))] + lines(s.skip(i + 1))
    } else {
        seq![s]
    }
}

/// Parts put one after the other with a comma between.
pub open spec fn join_commas(parts: Seq<Seq<char>>) -> Seq<char>
    decreases parts.len(),
{
    if parts.len() == 0 {
        Seq::empty()
    } else if parts.len() == 1 {
        parts[0]
    } else {
        join_commas(parts.drop_last()).push(',') + parts.last()
    }
}

/// What [`find_from`] finds.
pub proof fn lemma_find_from(s: Seq<char>, c: char, from: int)
    requires
        0 <= from <= s.len(),
    ensures
        from <= find_from(s, c, from) <= s.len(),
        find_from(s, c, from) < s.len() ==> s[find_from(s, c, from)] == c,
        forall|j: int| from <= j < find_from(s, c, from) ==> s[j] != c,
    decreases s.len() - from,
{
    if from < s.len() && s[from] != c {
        lemma_find_from(s, c, from + 1);
    }
}

/// A position that is the first with `c` is the one [`find_from`] finds.
pub proof fn lemma_find_from_is(s: Seq<char>, c: char, from: int, at: int)
    requires
        0 <= from <= at <= s.len(),
        at < s.len() ==> s[at] == c,
        forall|j: int| from <= j < at ==> s[j] != c,
    ensures
        find_from(s, c, from) == at,
    decreases at - from,
{
    if from < at {
        lemma_find_from_is(s, c, from + 1, at);
    }
}

/// Whether `c` is whitespace.
pub(crate) fn is_whitespace(c: char) -> (answer: bool)
    ensures
        answer == whitespace(c),
{
    ('\u{9}' <= c && c <= '\u{d}') || c == ' ' || c == '\u{85}' || c == '\u{a0}' || c == '\u{1680}'
        || ('\u{2000}' <= c && c <= '\u{200a}') || c == '\u{2028}' || c == '\u{2029}' || c
        == '\u{202f}' || c == '\u{205f}' || c == '\u{3000}'
}

/// The characters of a text.
pub(crate) fn characters(text: &str) -> (chars: Vec<char>)
    ensures
        chars@ == text@,
{
    let mut chars: Vec<char> = Vec::new();
    for c in it: text.chars()
        invariant
            it.seq() == text@,
            chars@ == it.seq().take(it.index() as int),
    {
        chars.push(c);
    }
    chars
}

/// The text made of `chars[from..to]`.
pub(crate) fn text_between(chars: &Vec<char>, from: usize, to: usize) -> (text: String)
    requires
        from <= to <= chars.len(),
    ensures
        text@ == chars@.subrange(from as int, to as int),
{
    let mut text: String = String::new();
    let mut i: usize = from;
    while i < to
        invariant
            from <= i <= to <= chars.len(),
            text@ == chars@.subrange(from as int, i as int),
        decreases to - i,
    {
        text.push(chars[i]);
        i = i + 1;
        proof {
            assert(text@ =~= chars@.subrange(from as int, i as int));
        }
    }
    text
}

/// Text without leading and trailing whitespace.
pub fn trim(text: &str) -> (out: String)
    ensures
        out@ == trimmed(text@),
{
    let chars: Vec<char> = characters(text);
    let mut from: usize = 0;
    proof {
        assert(text@.skip(0) =~= text@);
    }
    while from < chars.len() && is_whitespace(chars[from])
        invariant
            chars@ == text@,
            from <= chars.len(),
            trim_start(text@) == trim_start(text@.skip(from as int)),
        decreases chars.len() - from,
    {
        proof {
            assert(text@.skip(from as int).skip(1) =~= text@.skip(from + 1));
        }
        from = from + 1;
    }
    let ghost front = text@.skip(from as int);
    let mut to: usize = chars.len();
    proof {
        assert(front.take(to - from) =~= front);
    }
    while to > from && is_whitespace(chars[to - 1])
        invariant
            chars@ == text@,
            from <= to <= chars.len(),
            front == text@.skip(from as int),
            trim_end(front) == trim_end(front.take(to - from)),
        decreases to,
    {
        proof {
            assert(front.take(to - from).drop_last() =~= front.take(to - from - 1));
        }
        to = to - 1;
    }
    proof {
        assert(front.take(to - from) =~= text@.subrange(from as int, to as int));
    }
    text_between(&chars, from, to)
}

/// First position of `c` at or after `from`, or the length.
fn position(chars: &Vec<char>, c: char, from: usize) -> (at: usize)
    requires
        from <= chars.len(),
    ensures
        at == find_from(chars@, c, from as int),
        from <= at <= chars.len(),
{
    let mut at: usize = from;
    while at < chars.len() && chars[at] != c
        invariant
            from <= at <= chars.len(),
            find_from(chars@, c, from as int) == find_from(chars@, c, at as int),
        decreases chars.len() - at,
    {
        at = at + 1;
    }
    at
}

/// Searching a tail is searching the whole from there.
proof fn lemma_find_in_tail(s: Seq<char>, c: char, from: int, at: int)
    requires
        0 <= from <= at <= s.len(),
    ensures
        find_from(s.skip(from), c, at - from) + from == find_from(s, c, at),
    decreases s.len() - at,
{
    if at < s.len() && s[at] != c {
        lemma_find_in_tail(s, c, from, at + 1);
    }
}

/// Parts between the commas.
pub fn comma_parts(text: &str) -> (parts: Vec<String>)
    ensures
        views(parts@) == split_commas(text@),
{
    let chars: Vec<char> = characters(text);
    let mut parts: Vec<String> = Vec::new();
    let mut from: usize = 0;
    let mut open: bool = true;
    proof {
        assert(text@.skip(0) =~= text@);
        assert(views(parts@) + split_commas(text@) =~= split_commas(text@));
    }
    while open
        invariant
            chars@ == text@,
            from <= chars.len(),
            open ==> views(parts@) + split_commas(text@.skip(from as int)) == split_commas(text@),
            !open ==> views(parts@) == split_commas(text@),
        decreases chars.len() - from, (if open { 1int } else { 0int }),
    {
        let at: usize = position(&chars, ',', from);
        let ghost rest = text@.skip(from as int);
        let ghost before = parts@;
        proof {
            lemma_find_in_tail(text@, ',', from as int, from as int);
            lemma_find_from(rest, ',', 0);
            assert(rest.take(at - from) =~= text@.subrange(from as int, at as int));
        }
        parts.push(text_between(&chars, from, at));
        proof {
            assert(views(parts@) =~= views(before).push(rest.take(at - from)));
        }
        if at < chars.len() {
            proof {
                assert(rest.skip(at - from + 1) =~= text@.skip(at + 1));
                assert(views(before) + (seq![rest.take(at - from)] + split_commas(
                    text@.skip(at + 1),
                )) =~= views(parts@) + split_commas(text@.skip(at + 1)));
            }
            from = at + 1;
        } else {
            proof {
                assert(rest.take(at - from) =~= rest);
                assert(views(before) + seq![rest] =~= views(parts@));
            }
            open = false;
        }
    }
    parts
}

/// Lines of a text, without their endings.
pub fn text_lines(text: &str) -> (parts: Vec<String>)
    ensures
        views(parts@) == lines(text@),
{
    let chars: Vec<char> = characters(text);
    let mut parts: Vec<String> = Vec::new();
    let mut from: usize = 0;
    proof {
        assert(text@.skip(0) =~= text@);
        assert(views(parts@) + lines(text@) =~= lines(text@));
    }
    while from < chars.len()
        invariant
            chars@ == text@,
            from <= chars.len(),
            views(parts@) + lines(text@.skip(from as int)) == lines(text@),
        decreases chars.len() - from,
    {
        let at: usize = position(&chars, '\n', from);
        let ghost rest = text@.skip(from as int);
        let ghost before = parts@;
        proof {
            lemma_find_in_tail(text@, '\n', from as int, from as int);
            lemma_find_from(rest, '\n', 0);
            assert(rest.take(at - from) =~= text@.subrange(from as int, at as int));
        }
        if at < chars.len() {
            let end: usize = if at > from && chars[at - 1] == '\r' {
                at - 1
            } else {
                at
            };
            parts.push(text_between(&chars, from, end));
            proof {
                assert(without_return(rest.take(at - from)) =~= text@.subrange(
                    from as int,
                    end as int,
                ));
                assert(views(parts@) =~= views(before).push(without_return(rest.take(at - from))));
                assert(rest.skip(at - from + 1) =~= text@.skip(at + 1));
                assert(views(before) + (seq![without_return(rest.take(at - from))] + lines(
                    text@.skip(at + 1),
                )) =~= views(parts@) + lines(text@.skip(at + 1)));
            }
            from = at + 1;
        } else {
            parts.push(text_between(&chars, from, at));
            proof {
                assert(rest.take(at - from) =~= rest);
                assert(views(parts@) =~= views(before).push(rest));
                assert(views(before) + seq![rest] =~= views(parts@));
                assert(text@.skip(at as int) =~= Seq::<char>::empty());
                assert(views(parts@) + lines(text@.skip(at as int)) =~= views(parts@));
            }
            from = at;
        }
    }
    proof {
        assert(text@.skip(from as int) =~= Seq::<char>::empty());
        assert(views(parts@) + Seq::<Seq<char>>::empty() =~= views(parts@));
    }
    parts
}

/// Parts put one after the other with a comma between.
pub fn comma_joined(parts: &Vec<String>) -> (text: String)
    ensures
        text@ == join_commas(views(parts@)),
{
    let mut text: String = String::new();
    let mut i: usize = 0;
    proof {
        assert(views(parts@).take(0) =~= Seq::<Seq<char>>::empty());
        assert(text@ =~= join_commas(views(parts@).take(0)));
    }
    while i < parts.len()
        invariant
            i <= parts.len(),
            text@ == join_commas(views(parts@).take(i as int)),
        decreases parts.len() - i,
    {
        if i > 0 {
            text.push(',');
        }
        push_text(&mut text, parts[i].as_str());
        i = i + 1;
        proof {
            let now = views(parts@).take(i as int);
            assert(now.drop_last() =~= views(parts@).take(i - 1));
            assert(text@ =~= join_commas(now));
        }
    }
    proof {
        assert(views(parts@).take(i as int) =~= views(parts@));
    }
    text
}

/// Why a text is not an unsigned decimal number.
#[derive(Debug, Clone, Copy, PartialEq, Eq, Structural)]
pub enum NumberError {
    /// The text is empty.
    Empty,
    /// A character is not a decimal digit.
    InvalidDigit,
    /// The number does not fit in 64 bits.
    TooLarge,
}

impl NumberError {
    /// Wording of the error.
    pub open spec fn wording(self) -> Seq<char> {
        match self {
            NumberError::Empty => "cannot parse integer from empty string"@,
            NumberError::InvalidDigit => "invalid digit found in string"@,
            NumberError::TooLarge => "number too large to fit in target type"@,
        }
    }

    /// Wording of the error.
    pub fn as_str(self) -> (text: &'static str)
        ensures
            text@ == self.wording(),
    {
        match self {
            NumberError::Empty => "cannot parse integer from empty string",
            NumberError::InvalidDigit => "invalid digit found in string",
            NumberError::TooLarge => "number too large to fit in target type",
        }
    }
}

/// Whether `c` is an ASCII decimal digit.
pub open spec fn is_digit(c: char) -> bool {
    '0' <= c <= '9'
}

/// Number written by the digits `s`.
pub open spec fn numeral(s: Seq<char>) -> nat
    decreases s.len(),
{
    if s.len() == 0 {
        0
    } else {
        (numeral(s.drop_last()) * 10 + (s.last() as int - 48)) as nat
    }
}

/// Reading digits from position `i` on: the first character that is no digit,
/// or that makes the number too large, decides the error.
pub open spec fn digits_outcome(s: Seq<char>, i: int) -> Result<u64, NumberError>
    decreases s.len() - i,
{
    if i >= s.len() {
        Ok(numeral(s) as u64)
    } else if !is_digit(s[i]) {
        Err(NumberError::InvalidDigit)
    } else if numeral(s.take(i + 1)) > u64::MAX {
        Err(NumberError::TooLarge)
    } else {
        digits_outcome(s, i + 1)
    }
}

/// Reading an unsigned 64-bit decimal number with an optional plus sign.
pub open spec fn number_outcome(s: Seq<char>) -> Result<u64, NumberError> {
    if s.len() == 0 {
        Err(NumberError::Empty)
    } else if s.len() == 1 && s[0] == '+' {
        Err(NumberError::InvalidDigit)
    } else if s[0] == '+' {
        digits_outcome(s.skip(1), 0)
    } else {
        digits_outcome(s, 0)
    }
}

/// Reads an unsigned 64-bit decimal number with an optional plus sign.
pub fn parse_number(text: &str) -> (outcome: Result<u64, NumberError>)
    ensures
        outcome == number_outcome(text@),
{
    let chars: Vec<char> = characters(text);
    if chars.len() == 0 {
        return Err(NumberError::Empty);
    }
    if chars.len() == 1 && chars[0] == '+' {
        return Err(NumberError::InvalidDigit);
    }
    let from: usize = if chars[0] == '+' {
        1
    } else {
        0
    };
    let ghost s = text@.skip(from as int);
    let mut i: usize = from;
    let mut n: u64 = 0;
    proof {
        assert(text@.skip(0) =~= text@);
        assert(s.take(0) =~= Seq::<char>::empty());
    }
    while i < chars.len()
        invariant
            chars@ == text@,
            from <= i <= chars.len(),
            s == text@.skip(from as int),
            n == numeral(s.take(i - from)),
            number_outcome(text@) == digits_outcome(s, i - from),
        decreases chars.len() - i,
    {
        let c: char = chars[i];
        proof {
            assert(s[i - from] == c);
            assert(s.take(i - from + 1).drop_last() =~= s.take(i - from));
        }
        if !('0' <= c && c <= '9') {
            return Err(NumberError::InvalidDigit);
        }
        let value: u64 = c as u64 - 48;
        if n > 0x1999_9999_9999_9999 {
            return Err(NumberError::TooLarge);
        }
        if n * 10 > u64::MAX - value {
            return Err(NumberError::TooLarge);
        }
        n = n * 10 + value;
        i = i + 1;
    }
    proof {
        assert(s.take(i - from) =~= s);
    }
    Ok(n)
}

/// A prefix of a decimal notation writes a number that is not larger.
proof fn lemma_decimal_prefix(n: nat, len: int)
    requires
        0 <= len <= decimal(n).len(),
    ensures
        numeral(decimal(n).take(len)) <= n,
        len == decimal(n).len() ==> numeral(decimal(n).take(len)) == n,
    decreases n,
{
    lemma_decimal_shape(n);
    let d = decimal(n);
    assert(d.last() as int == 48 + n % 10);
    assert(numeral(Seq::<char>::empty()) == 0);
    if len == d.len() {
        assert(d.take(len) =~= d);
        assert(numeral(d) == numeral(d.drop_last()) * 10 + n % 10);
        if n >= 10 {
            assert(d.drop_last() =~= decimal(n / 10));
            lemma_decimal_shape(n / 10);
            lemma_decimal_prefix(n / 10, decimal(n / 10).len() as int);
            assert(decimal(n / 10).take(decimal(n / 10).len() as int) =~= decimal(n / 10));
        } else {
            assert(d.drop_last() =~= Seq::<char>::empty());
        }
    } else if n >= 10 {
        assert(d.take(len) =~= decimal(n / 10).take(len));
        lemma_decimal_prefix(n / 10, len);
    } else {
        assert(d.take(0) =~= Seq::<char>::empty());
    }
}

/// Reading what [`decimal`] wrote gives the number back.
pub proof fn lemma_number_round_trip(n: u64)
    ensures
        number_outcome(decimal(n as nat)) == Ok::<u64, NumberError>(n),
{
    let s = decimal(n as nat);
    lemma_decimal_shape(n as nat);
    assert(is_digit(s[0]));
    lemma_digits_round_trip(n, 0);
}

proof fn lemma_digits_round_trip(n: u64, i: int)
    requires
        0 <= i <= decimal(n as nat).len(),
    ensures
        digits_outcome(decimal(n as nat), i) == Ok::<u64, NumberError>(n),
    decreases decimal(n as nat).len() - i,
{
    let s = decimal(n as nat);
    lemma_decimal_shape(n as nat);
    if i < s.len() {
        lemma_decimal_prefix(n as nat, i + 1);
        lemma_digits_round_trip(n, i + 1);
    } else {
        lemma_decimal_prefix(n as nat, i);
        assert(s.take(i) =~= s);
    }
}

/// Whether `reader` may read the text `s` as `value`, where none stands for a
/// text that is no number.
pub open spec fn reads<F: Fn(&str) -> Option<Binary32>>(
    reader: F,
    s: Seq<char>,
    value: Option<Binary32>,
) -> bool {
    exists|t: &str| t@ == s && #[trigger] call_ensures(reader, (t,), value)
}

/// Reads a text with the given reader.
pub(crate) fn read_value<F: Fn(&str) -> Option<Binary32>>(s: &str, reader: &F) -> (value: Option<
    Binary32,
>)
    requires
        forall|t: &str| call_requires(reader, (t,)),
    ensures
        reads(*reader, s@, value),
{
    reader(s)
}

/// Message about a cell: what it should have been, the cell in quotes, and what
/// is wrong with it.
pub open spec fn cell_message(what: Seq<char>, quoted_cell: Seq<char>, problem: Seq<char>) -> Seq<
    char,
> {
    "invalid "@ + what + " "@ + quoted_cell + ": "@ + problem
}

/// Message about a cell that is already in quotes.
pub fn describe_cell(what: &str, quoted_cell: &str, problem: &str) -> (message: String)
    ensures
        message@ == cell_message(what@, quoted_cell@, problem@),
{
    let mut message: String = String::new();
    push_text(&mut message, "invalid ");
    push_text(&mut message, what);
    push_text(&mut message, " ");
    push_text(&mut message, quoted_cell);
    push_text(&mut message, ": ");
    push_text(&mut message, problem);
    proof {
        assert(message@ =~= cell_message(what@, quoted_cell@, problem@));
    }
    message
}

} // verus!
