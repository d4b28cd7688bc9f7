//! Reading a line of input: trimming, splitting at commas, and reading
//! numbers.

use vstd::prelude::*;

verus! {

/// White space: the characters that trimming removes.
pub open spec fn whitespace(c: char) -> bool {
    let code = c as u32;
    ||| 0x09 <= code <= 0x0D
    ||| code == 0x20
    ||| code == 0x85
    ||| code == 0xA0
    ||| code == 0x1680
    ||| 0x2000 <= code <= 0x200A
    ||| code == 0x2028
    ||| code == 0x2029
    ||| code == 0x202F
    ||| code == 0x205F
    ||| code == 0x3000
}

/// `s` without the white space that it starts with.
pub open spec fn trim_start(s: Seq<char>) -> Seq<char>
    decreases s.len(),
{
    if s.len() > 0 && whitespace(s.first()) {
        trim_start(s.drop_first())
    } else {
        s
    }
}

/// `s` without the white space that it ends with.
pub open spec fn trim_end(s: Seq<char>) -> Seq<char>
    decreases s.len(),
{
    if s.len() > 0 && whitespace(s.last()) {
        trim_end(s.drop_last())
    } else {
        s
    }
}

/// `s` without white space at either end.
pub open spec fn trimmed(s: Seq<char>) -> Seq<char> {
    trim_end(trim_start(s))
}

/// Whether `c` is white space.
fn is_whitespace(c: char) -> (yes: bool)
    ensures
        yes == whitespace(c),
{
    let code = c as u32;
    (0x09 <= code && code <= 0x0D) || code == 0x20 || code == 0x85 || code == 0xA0 || code
        == 0x1680 || (0x2000 <= code && code <= 0x200A) || code == 0x2028 || code == 0x2029 || code
        == 0x202F || code == 0x205F || code == 0x3000
}

/// The part of `s` between its leading and its trailing white space.
pub fn trim(s: &str) -> (inner: &str)
    ensures
        inner@ == trimmed(s@),
{
    let length = s.unicode_len();
    let mut start: usize = 0;
    assert(s@.skip(0) =~= s@);
    while start < length && is_whitespace(s.get_char(start))
        invariant
            start <= length == s@.len(),
            trim_start(s@) == trim_start(s@.skip(start as int)),
        decreases length - start,
    {
        assert(s@.skip(start as int).drop_first() =~= s@.skip(start as int + 1));
        start += 1;
    }
    let mut end: usize = length;
    while end > start && is_whitespace(s.get_char(end - 1))
        invariant
            start <= end <= length == s@.len(),
            trim_start(s@) == s@.skip(start as int),
            trimmed(s@) == trim_end(s@.subrange(start as int, end as int)),
        decreases end,
    {
        assert(s@.subrange(start as int, end as int).drop_last() =~= s@.subrange(
            start as int,
            end as int - 1,
        ));
        end -= 1;
    }
    s.substring_char(start, end)
}

/// A decimal digit.
pub open spec fn digit(c: char) -> bool {
    '0' <= c <= '9'
}

/// Every character of `s` is a decimal digit.
pub open spec fn all_digits(s: Seq<char>) -> bool {
    forall|i: int| 0 <= i < s.len() ==> digit(#[trigger] s[i])
}

/// The number that the decimal digits `s` write, the first digit counting
/// most; `0` for no digits.
pub open spec fn decimal_value(s: Seq<char>) -> nat
    decreases s.len(),
{
    if s.len() == 0 {
        0
    } else {
        (10 * decimal_value(s.drop_last()) + (s.last() as u32 - '0' as u32)) as nat
    }
}

/// `s` without the `+` that it may start with.
pub open spec fn without_sign(s: Seq<char>) -> Seq<char> {
    if s.len() > 0 && s.first() == '+' {
        s.drop_first()
    } else {
        s
    }
}

/// The number that `s` writes: one or more decimal digits, with at most a `+`
/// before them, whose value fits in a `usize`. Anything else writes none.
pub open spec fn number_of(s: Seq<char>) -> Option<usize> {
    let digits = without_sign(s);
    if digits.len() > 0 && all_digits(digits) && decimal_value(digits) <= usize::MAX {
        Some(decimal_value(digits) as usize)
    } else {
        None
    }
}

/// Digits that follow a number can only make it larger.
proof fn decimal_value_grows(s: Seq<char>, count: int)
    requires
        all_digits(s),
        0 <= count <= s.len(),
    ensures
        decimal_value(s.take(count)) <= decimal_value(s),
    decreases s.len(),
{
    if count < s.len() {
        decimal_value_grows(s.drop_last(), count);
        assert(s.drop_last().take(count) =~= s.take(count));
    } else {
        assert(s.take(count) =~= s);
    }
}

/// Reads `s` as a number.
pub fn parse_number(s: &str) -> (number: Option<usize>)
    ensures
        number == number_of(s@),
{
    let length = s.unicode_len();
    let first: usize = if length > 0 && s.get_char(0) == '+' {
        1
    } else {
        0
    };
    if first == length {
        return None;
    }
    let ghost digits = s@.skip(first as int);
    let mut value: usize = 0;
    let mut index: usize = first;
    while index < length
        invariant
            first <= index <= length == s@.len(),
            first < length,
            digits == s@.skip(first as int),
            digits == without_sign(s@),
            all_digits(digits.take(index - first)),
            value == decimal_value(digits.take(index - first)),
        decreases length - index,
    {
        let c = s.get_char(index);
        let ghost seen = digits.take(index - first + 1);
        assert(seen.drop_last() =~= digits.take(index - first));
        if !('0' <= c && c <= '9') {
            assert(!digit(digits[index - first]));
            return None;
        }
        let units = (c as u32 - '0' as u32) as usize;
        let next = match value.checked_mul(10) {
            Some(tens) => tens.checked_add(units),
            None => None,
        };
        match next {
            Some(sum) => {
                value = sum;
            },
            None => {
                proof {
                    if all_digits(digits) {
                        decimal_value_grows(digits, index - first + 1);
                    }
                }
                return None;
            },
        }
        index += 1;
    }
    assert(digits.take(index - first) =~= digits);
    Some(value)
}

/// Where the first comma of `s` stands, or the length of `s` if it holds none.
pub open spec fn first_comma(s: Seq<char>) -> int
    decreases s.len(),
{
    if s.len() == 0 || s.first() == ',' {
        0
    } else {
        1 + first_comma(s.drop_first())
    }
}

/// The fields of `s`: the stretches between its commas, in order. A text
/// without a comma is one field, and a comma at either end borders an empty
/// field.
pub open spec fn fields(s: Seq<char>) -> Seq<Seq<char>>
    decreases s.len(),
{
    let comma = first_comma(s);
    if 0 <= comma < s.len() {
        seq![s.take(comma)] + fields(s.skip(comma + 1))
    } else {
        seq![s]
    }
}

/// The position that a line writes: the line has exactly two fields, and
/// each of them, trimmed, writes a number; the first is the row and the second
/// the column. A line with one field, with more than two, or with a field
/// that writes no number writes no position.
pub open spec fn position_of(line: Seq<char>) -> Option<(usize, usize)> {
    let parts = fields(line);
    if parts.len() == 2 {
        match (number_of(trimmed(parts[0])), number_of(trimmed(parts[1]))) {
            (Some(row), Some(col)) => Some((row, col)),
            _ => None,
        }
    } else {
        None
    }
}

/// A stretch without a comma ends at the first comma, or at the end.
proof fn first_comma_found(s: Seq<char>, at: int)
    requires
        0 <= at <= s.len(),
        forall|i: int| 0 <= i < at ==> s[i] != ',',
        at < s.len() ==> s[at] == ',',
    ensures
        first_comma(s) == at,
    decreases s.len(),
{
    if at > 0 {
        first_comma_found(s.drop_first(), at - 1);
    }
}

/// Reads the position that `line` writes, as row and column.
pub fn position(line: &str) -> (found: Option<(usize, usize)>)
    ensures
        found == position_of(line@),
{
    let length = line.unicode_len();
    let mut comma: usize = 0;
    while comma < length && line.get_char(comma) != ','
        invariant
            comma <= length == line@.len(),
            forall|i: int| 0 <= i < comma ==> line@[i] != ',',
        decreases length - comma,
    {
        comma += 1;
    }
    proof {
        first_comma_found(line@, comma as int);
    }
    if comma == length {
        return None;
    }
    let ghost rest = line@.skip(comma + 1);
    proof {
        first_comma_is_first(rest);
        fields_cut_at_commas(rest.skip(first_comma(rest) + 1));
    }
    let mut index: usize = comma + 1;
    while index < length
        invariant
            comma < index <= length == line@.len(),
            rest == line@.skip(comma + 1),
            forall|i: int| 0 <= i < index - comma - 1 ==> rest[i] != ',',
            fields(line@) == seq![line@.take(comma as int)] + fields(rest),
            first_comma(rest) < rest.len() ==> fields(rest).len() >= 2,
        decreases length - index,
    {
        if line.get_char(index) == ',' {
            proof {
                first_comma_is_first(rest);
                assert(rest[index - comma - 1] == ',');
            }
            return None;
        }
        index += 1;
    }
    proof {
        first_comma_found(rest, rest.len() as int);
        assert(line@.take(comma as int) =~= line@.subrange(0, comma as int));
        assert(rest =~= line@.subrange(comma + 1, length as int));
    }
    let row = parse_number(trim(line.substring_char(0, comma)));
    let col = parse_number(trim(line.substring_char(comma + 1, length)));
    match (row, col) {
        (Some(row), Some(col)) => Some((row, col)),
        _ => None,
    }
}

/// What `trim_start` cuts off is white space, and it stops at the first
/// character that is none.
pub proof fn trim_start_cuts_white_space(s: Seq<char>)
    ensures
        trim_start(s).len() <= s.len(),
        trim_start(s) == s.skip(s.len() - trim_start(s).len()),
        forall|i: int| 0 <= i < s.len() - trim_start(s).len() ==> whitespace(#[trigger] s[i]),
        trim_start(s).len() > 0 ==> !whitespace(trim_start(s).first()),
    decreases s.len(),
{
    if s.len() > 0 && whitespace(s.first()) {
        let rest = s.drop_first();
        trim_start_cuts_white_space(rest);
        let cut = rest.len() - trim_start(rest).len();
        assert forall|i: int| 0 <= i < cut + 1 implies whitespace(#[trigger] s[i]) by {
            if i > 0 {
                assert(s[i] == rest[i - 1]);
            }
        }
    }
}

/// What `trim_end` cuts off is white space, and it stops at the last
/// character that is none.
pub proof fn trim_end_cuts_white_space(s: Seq<char>)
    ensures
        trim_end(s).len() <= s.len(),
        trim_end(s) == s.take(trim_end(s).len() as int),
        forall|i: int| trim_end(s).len() <= i < s.len() ==> whitespace(#[trigger] s[i]),
        trim_end(s).len() > 0 ==> !whitespace(trim_end(s).last()),
    decreases s.len(),
{
    if s.len() > 0 && whitespace(s.last()) {
        let rest = s.drop_last();
        trim_end_cuts_white_space(rest);
        let kept = trim_end(rest).len() as int;
        assert forall|i: int| kept <= i < s.len() implies whitespace(#[trigger] s[i]) by {
            if i < rest.len() {
                assert(s[i] == rest[i]);
            }
        }
    }
}

/// The trimmed text is a stretch of the text with nothing but white space
/// before and after it, and with no white space at either of its own ends.
pub proof fn trimmed_is_the_inner_part(s: Seq<char>)
    ensures
        ({
            let from = s.len() - trim_start(s).len();
            let to = from + trimmed(s).len();
            &&& 0 <= from <= to <= s.len()
            &&& trimmed(s) == s.subrange(from, to)
            &&& forall|i: int| 0 <= i < from || to <= i < s.len() ==> whitespace(#[trigger] s[i])
        }),
        trimmed(s).len() > 0 ==> !whitespace(trimmed(s).first()) && !whitespace(
            trimmed(s).last(),
        ),
{
    let inner = trim_start(s);
    trim_start_cuts_white_space(s);
    trim_end_cuts_white_space(inner);
    let from = s.len() - inner.len();
    let to = from + trimmed(s).len();
    assert forall|i: int| 0 <= i < from || to <= i < s.len() implies whitespace(
        #[trigger] s[i],
    ) by {
        if to <= i {
            assert(s[i] == inner[i - from]);
        }
    }
}

/// `fields` put together again, with a comma between neighbours.
pub open spec fn joined(fields: Seq<Seq<char>>) -> Seq<char>
    decreases fields.len(),
{
    if fields.len() == 0 {
        Seq::empty()
    } else if fields.len() == 1 {
        fields.first()
    } else {
        fields.first() + seq![','] + joined(fields.drop_first())
    }
}

/// The first comma stands where no comma stands before it.
pub proof fn first_comma_is_first(s: Seq<char>)
    ensures
        0 <= first_comma(s) <= s.len(),
        forall|i: int| 0 <= i < first_comma(s) ==> #[trigger] s[i] != ',',
        first_comma(s) < s.len() ==> s[first_comma(s)] == ',',
    decreases s.len(),
{
    if !(s.len() == 0 || s.first() == ',') {
        let rest = s.drop_first();
        first_comma_is_first(rest);
        assert forall|i: int| 0 <= i < first_comma(s) implies #[trigger] s[i] != ',' by {
            if i > 0 {
                assert(s[i] == rest[i - 1]);
            }
        }
    }
}

/// The fields of a text hold no comma, and joined with commas they give the
/// text back: they are the text cut at its commas, nothing lost.
pub proof fn fields_cut_at_commas(s: Seq<char>)
    ensures
        fields(s).len() >= 1,
        forall|i: int, j: int|
            0 <= i < fields(s).len() && 0 <= j < fields(s)[i].len() ==> #[trigger] fields(
                s,
            )[i][j] != ',',
        joined(fields(s)) == s,
    decreases s.len(),
{
    let comma = first_comma(s);
    first_comma_is_first(s);
    if comma < s.len() {
        let rest = s.skip(comma + 1);
        fields_cut_at_commas(rest);
        let all = fields(s);
        assert(all.drop_first() =~= fields(rest));
    }
}

/// A line writes a position only if it holds exactly one comma: a row
/// before it and a column after it, and nothing more.
pub proof fn position_needs_one_comma(line: Seq<char>)
    requires
        position_of(line) is Some,
    ensures
        0 <= first_comma(line) < line.len(),
        forall|i: int|
            0 <= i < line.len() && i != first_comma(line) ==> #[trigger] line[i] != ',',
        position_of(line) == Some(
            (
                number_of(trimmed(line.take(first_comma(line))))->Some_0,
                number_of(trimmed(line.skip(first_comma(line) + 1)))->Some_0,
            ),
        ),
{
    let comma = first_comma(line);
    let rest = line.skip(comma + 1);
    first_comma_is_first(line);
    first_comma_is_first(rest);
    assert(fields(line).len() == 2);
    assert(fields(line) == seq![line.take(comma)] + fields(rest));
    if first_comma(rest) < rest.len() {
        fields_cut_at_commas(rest.skip(first_comma(rest) + 1));
        assert(fields(rest).len() >= 2);
    }
    assert(fields(rest) == seq![rest]);
    assert forall|i: int| 0 <= i < line.len() && i != comma implies #[trigger] line[i]
        != ',' by {
        if i > comma {
            assert(line[i] == rest[i - comma - 1]);
        }
    }
}

} // verus!
