//! What splitting, trimming and reading numbers undo and leave.

use crate::text;
use crate::text::NumberError;
use vstd::prelude::*;

verus! {

/// Whether a text holds no comma.
pub open spec fn without_comma(s: Seq<char>) -> bool {
    forall|i: int| 0 <= i < s.len() ==> #[trigger] s[i] != ','
}

/// Whether a text is made of whitespace alone.
pub open spec fn blank(s: Seq<char>) -> bool {
    forall|i: int| 0 <= i < s.len() ==> text::whitespace(#[trigger] s[i])
}

/// Whether a text, unless it is empty, begins and ends with a visible character.
pub open spec fn visible_ends(s: Seq<char>) -> bool {
    s.len() > 0 ==> !text::whitespace(s[0]) && !text::whitespace(s.last())
}

/// Joined parts begin with the first part and a comma.
proof fn lemma_join_front(parts: Seq<Seq<char>>)
    requires
        parts.len() > 1,
    ensures
        text::join_commas(parts) == parts[0].push(',') + text::join_commas(parts.skip(1)),
    decreases parts.len(),
{
    let front = parts.drop_last();
    if parts.len() == 2 {
        assert(text::join_commas(front) == parts[0]);
        assert(text::join_commas(parts.skip(1)) == parts[1]);
    } else {
        lemma_join_front(front);
        assert(front.skip(1) =~= parts.skip(1).drop_last());
        assert(text::join_commas(parts) =~= parts[0].push(',') + text::join_commas(parts.skip(1)));
    }
}

/// Splitting at commas gives back parts that were joined by commas, if there is
/// at least one and none holds a comma; empty parts stay parts.
pub proof fn lemma_split_undoes_join(parts: Seq<Seq<char>>)
    requires
        parts.len() > 0,
        forall|i: int| 0 <= i < parts.len() ==> without_comma(#[trigger] parts[i]),
    ensures
        text::split_commas(text::join_commas(parts)) == parts,
    decreases parts.len(),
{
    let s = text::join_commas(parts);
    let first = parts[0];
    let n = first.len() as int;
    assert(without_comma(first));
    if parts.len() == 1 {
        text::lemma_find_from_is(first, ',', 0, n);
        assert(seq![first] =~= parts);
    } else {
        let rest = parts.skip(1);
        lemma_join_front(parts);
        assert forall|i: int| 0 <= i < rest.len() implies without_comma(#[trigger] rest[i]) by {
            assert(rest[i] == parts[i + 1]);
        }
        lemma_split_undoes_join(rest);
        assert(s[n] == ',');
        text::lemma_find_from_is(s, ',', 0, n);
        assert(s.take(n) =~= first);
        assert(s.skip(n + 1) =~= text::join_commas(rest));
        assert(seq![first] + rest =~= parts);
    }
}

/// Joining the parts of a split text by commas gives the text back, and no part
/// holds a comma.
pub proof fn lemma_join_undoes_split(s: Seq<char>)
    ensures
        text::split_commas(s).len() > 0,
        text::join_commas(text::split_commas(s)) == s,
        forall|i: int|
            0 <= i < text::split_commas(s).len() ==> without_comma(
                #[trigger] text::split_commas(s)[i],
            ),
    decreases s.len(),
{
    let at = text::find_from(s, ',', 0);
    text::lemma_find_from(s, ',', 0);
    let parts = text::split_commas(s);
    if at < s.len() {
        let rest = s.skip(at + 1);
        lemma_join_undoes_split(rest);
        assert(parts.skip(1) =~= text::split_commas(rest));
        lemma_join_front(parts);
        assert(s.take(at).push(',') + rest =~= s);
        assert forall|i: int| 0 <= i < parts.len() implies without_comma(#[trigger] parts[i]) by {
            if i > 0 {
                assert(parts[i] == text::split_commas(rest)[i - 1]);
            }
        }
    }
}

/// Whitespace in front is all that trimming the start takes.
proof fn lemma_trim_start(before: Seq<char>, s: Seq<char>)
    requires
        blank(before),
        s.len() > 0 ==> !text::whitespace(s[0]),
    ensures
        text::trim_start(before + s) == s,
    decreases before.len(),
{
    if before.len() > 0 {
        assert((before + s)[0] == before[0]);
        assert(before.skip(1) + s =~= (before + s).skip(1));
        assert forall|i: int| 0 <= i < before.skip(1).len() implies text::whitespace(
            #[trigger] before.skip(1)[i],
        ) by {
            assert(before.skip(1)[i] == before[i + 1]);
        }
        lemma_trim_start(before.skip(1), s);
    } else {
        assert(before + s =~= s);
    }
}

/// Whitespace behind is all that trimming the end takes.
proof fn lemma_trim_end(s: Seq<char>, after: Seq<char>)
    requires
        blank(after),
        s.len() > 0 ==> !text::whitespace(s.last()),
    ensures
        text::trim_end(s + after) == s,
    decreases after.len(),
{
    if after.len() > 0 {
        assert((s + after).last() == after.last());
        assert((s + after).drop_last() =~= s + after.drop_last());
        assert forall|i: int| 0 <= i < after.drop_last().len() implies text::whitespace(
            #[trigger] after.drop_last()[i],
        ) by {
            assert(after.drop_last()[i] == after[i]);
        }
        lemma_trim_end(s, after.drop_last());
    } else {
        assert(s + after =~= s);
    }
}

/// Trimming removes the whitespace round a text, and nothing else.
pub proof fn lemma_trimming(before: Seq<char>, s: Seq<char>, after: Seq<char>)
    requires
        blank(before),
        blank(after),
        visible_ends(s),
    ensures
        text::trimmed(before + s + after) == s,
{
    if s.len() > 0 {
        assert(before + s + after =~= before + (s + after));
        lemma_trim_start(before, s + after);
        lemma_trim_end(s, after);
    } else {
        let all = before + s + after;
        assert forall|i: int| 0 <= i < all.len() implies text::whitespace(#[trigger] all[i]) by {
            if i < before.len() {
                assert(all[i] == before[i]);
            } else {
                assert(all[i] == after[i - before.len()]);
            }
        }
        lemma_trim_start(all, s);
        assert(all + s =~= all);
        lemma_trim_end(s, Seq::empty());
        assert(s + Seq::<char>::empty() =~= s);
    }
}

/// Every text is its trimmed form between whitespace.
pub proof fn lemma_trimmed_is_inside(s: Seq<char>)
    ensures
        visible_ends(text::trimmed(s)),
        exists|before: Seq<char>, after: Seq<char>| #[trigger]
            blank(before) && #[trigger] blank(after) && s == before + text::trimmed(s) + after,
{
    lemma_start_is_inside(s);
    let inner = text::trim_start(s);
    let before = choose|before: Seq<char>| #[trigger] blank(before) && s == before + inner;
    lemma_end_is_inside(inner);
    let after = choose|after: Seq<char>| #[trigger]
        blank(after) && inner == text::trim_end(inner) + after;
    let t = text::trimmed(s);
    assert(before + (t + after) =~= before + t + after);
    assert(blank(before) && blank(after) && s == before + t + after);
    if t.len() > 0 {
        assert(inner[0] == t[0]);
    }
}

proof fn lemma_start_is_inside(s: Seq<char>)
    ensures
        text::trim_start(s).len() > 0 ==> !text::whitespace(text::trim_start(s)[0]),
        exists|before: Seq<char>| #[trigger] blank(before) && s == before + text::trim_start(s),
    decreases s.len(),
{
    if s.len() > 0 && text::whitespace(s[0]) {
        lemma_start_is_inside(s.skip(1));
        let inner = text::trim_start(s);
        let before = choose|before: Seq<char>| #[trigger]
            blank(before) && s.skip(1) == before + inner;
        let longer = seq![s[0]] + before;
        assert forall|i: int| 0 <= i < longer.len() implies text::whitespace(
            #[trigger] longer[i],
        ) by {
            if i > 0 {
                assert(longer[i] == before[i - 1]);
            }
        }
        assert(longer + inner =~= seq![s[0]] + (before + inner));
        assert(seq![s[0]] + s.skip(1) =~= s);
        assert(blank(longer) && s == longer + inner);
    } else {
        assert(Seq::<char>::empty() + s =~= s);
        assert(blank(Seq::<char>::empty()));
    }
}

proof fn lemma_end_is_inside(s: Seq<char>)
    ensures
        text::trim_end(s).len() > 0 ==> !text::whitespace(text::trim_end(s).last()),
        exists|after: Seq<char>| #[trigger] blank(after) && s == text::trim_end(s) + after,
    decreases s.len(),
{
    if s.len() > 0 && text::whitespace(s.last()) {
        lemma_end_is_inside(s.drop_last());
        let inner = text::trim_end(s);
        let after = choose|after: Seq<char>| #[trigger]
            blank(after) && s.drop_last() == inner + after;
        let longer = after.push(s.last());
        assert forall|i: int| 0 <= i < longer.len() implies text::whitespace(
            #[trigger] longer[i],
        ) by {
            if i < after.len() {
                assert(longer[i] == after[i]);
            }
        }
        assert(inner + longer =~= (inner + after).push(s.last()));
        assert(s.drop_last().push(s.last()) =~= s);
        assert(blank(longer) && s == inner + longer);
    } else {
        assert(s + Seq::<char>::empty() =~= s);
        assert(blank(Seq::<char>::empty()));
    }
}

/// A line and its ending, then the rest: the ending is a line feed, or a
/// carriage return and a line feed, and belongs to neither. The ending of the
/// last line can be left out.
pub proof fn lemma_lines_of_text(line: Seq<char>, rest: Seq<char>)
    requires
        forall|i: int| 0 <= i < line.len() ==> #[trigger] line[i] != '\n',
        line.len() > 0 ==> line.last() != '\r',
    ensures
        text::lines(line.push('\n') + rest) == seq![line] + text::lines(rest),
        text::lines(line.push('\r').push('\n') + rest) == seq![line] + text::lines(rest),
        line.len() > 0 ==> text::lines(line) == seq![line],
        text::lines(Seq::empty()) == Seq::<Seq<char>>::empty(),
{
    let n = line.len() as int;
    let s = line.push('\n') + rest;
    assert(s[n] == '\n');
    text::lemma_find_from_is(s, '\n', 0, n);
    assert(s.take(n) =~= line);
    assert(s.skip(n + 1) =~= rest);
    let r = line.push('\r').push('\n') + rest;
    assert(r[n + 1] == '\n');
    assert forall|i: int| 0 <= i < n + 1 implies r[i] != '\n' by {
        if i < n {
            assert(r[i] == line[i]);
        }
    }
    text::lemma_find_from_is(r, '\n', 0, n + 1);
    assert(r.take(n + 1) =~= line.push('\r'));
    assert(line.push('\r').drop_last() =~= line);
    assert(r.skip(n + 2) =~= rest);
    text::lemma_find_from_is(line, '\n', 0, n);
}

/// The digits of a number: the text without an optional plus sign in front.
pub open spec fn unsigned_part(s: Seq<char>) -> Seq<char> {
    if s.len() > 1 && s[0] == '+' {
        s.skip(1)
    } else {
        s
    }
}

/// Which texts are numbers: at least one digit and nothing but digits, with or
/// without a plus sign in front, that write a number of 64 bits; and that number
/// is what they are read as.
pub proof fn lemma_which_texts_are_numbers(s: Seq<char>)
    ensures
        ({
            let digits = unsigned_part(s);
            let all = digits.len() > 0 && forall|i: int|
                0 <= i < digits.len() ==> '0' <= #[trigger] digits[i] <= '9';
            &&& text::number_outcome(s) is Ok <==> all && text::numeral(digits) <= u64::MAX
            &&& text::number_outcome(s) matches Ok(n) ==> n == text::numeral(digits)
            &&& text::number_outcome(s) == Err::<u64, NumberError>(NumberError::Empty) <==> s.len()
                == 0
        }),
{
    let digits = unsigned_part(s);
    assert(digits.take(0) =~= Seq::<char>::empty());
    lemma_digits(digits, 0);
}

proof fn lemma_digits(s: Seq<char>, i: int)
    requires
        0 <= i <= s.len(),
        text::numeral(s.take(i)) <= u64::MAX,
    ensures
        ({
            let all = forall|j: int| i <= j < s.len() ==> '0' <= #[trigger] s[j] <= '9';
            &&& text::digits_outcome(s, i) is Ok <==> all && text::numeral(s) <= u64::MAX
            &&& text::digits_outcome(s, i) matches Ok(n) ==> n == text::numeral(s)
            &&& text::digits_outcome(s, i) != Err::<u64, NumberError>(NumberError::Empty)
        }),
    decreases s.len() - i,
{
    if i < s.len() {
        let c = s[i];
        if text::is_digit(c) {
            if text::numeral(s.take(i + 1)) <= u64::MAX {
                lemma_digits(s, i + 1);
            } else if forall|j: int| i <= j < s.len() ==> '0' <= #[trigger] s[j] <= '9' {
                lemma_longer_is_larger(s, i + 1);
            }
        }
    } else {
        assert(s.take(i) =~= s);
    }
}

/// More digits never write a smaller number.
proof fn lemma_longer_is_larger(s: Seq<char>, i: int)
    requires
        0 <= i <= s.len(),
        forall|j: int| i <= j < s.len() ==> '0' <= #[trigger] s[j] <= '9',
    ensures
        text::numeral(s.take(i)) <= text::numeral(s),
    decreases s.len() - i,
{
    if i < s.len() {
        lemma_longer_is_larger(s, i + 1);
        assert(s.take(i + 1).drop_last() =~= s.take(i));
        assert('0' <= s[i] <= '9');
        assert(s.take(i + 1).last() == s[i]);
    } else {
        assert(s.take(i) =~= s);
    }
}

/// What digits write: none write zero, and each one more multiplies by ten and
/// counts itself.
pub proof fn lemma_digits_write_a_number(s: Seq<char>, d: int)
    requires
        0 <= d < 10,
    ensures
        text::numeral(Seq::empty()) == 0,
        text::numeral(s.push(text::digit(d))) == 10 * text::numeral(s) + d,
{
    assert(s.push(text::digit(d)).drop_last() =~= s);
}

} // verus!
