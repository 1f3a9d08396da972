//! Text as the terminal shows it and as prompts read it.
use vstd::prelude::*;
use vstd::string::StrSliceExecFns;
use vstd::string::StringExecFns;

verus! {

/// A control code: general category Cc.
pub open spec fn is_control_code(c: char) -> bool {
    (c as u32) < 0x20 || 0x7f <= (c as u32) <= 0x9f
}

/// A character with the Unicode property White_Space.
pub open spec fn is_white_space(c: char) -> bool {
    let u = c as u32;
    ||| 0x9 <= u <= 0xd
    ||| u == 0x20
    ||| u == 0x85
    ||| u == 0xa0
    ||| u == 0x1680
    ||| 0x2000 <= u <= 0x200a
    ||| u == 0x2028
    ||| u == 0x2029
    ||| u == 0x202f
    ||| u == 0x205f
    ||| u == 0x3000
}

/// `char::is_control`: true of the control codes (category Cc) and of nothing else.
pub assume_specification[ char::is_control ](c: char) -> (control: bool)
    ensures
        control == is_control_code(c),
;

/// `char::is_whitespace`: true of the characters with the property White_Space and of
/// nothing else.
pub assume_specification[ char::is_whitespace ](c: char) -> (white: bool)
    ensures
        white == is_white_space(c),
;

/// `String::push`: appends one character.
pub assume_specification[ String::push ](text: &mut String, c: char)
    ensures
        final(text)@ == old(text)@.push(c),
;

/// What stands in for a character on the screen: a space for a control code, else itself.
pub open spec fn safe_char(c: char) -> char {
    if is_control_code(c) {
        ' '
    } else {
        c
    }
}

/// `text` with every control code replaced by a space.
pub open spec fn safe(text: Seq<char>) -> Seq<char> {
    text.map_values(|c: char| safe_char(c))
}

/// Replaces every control code of `text` by a space.
pub fn safe_text(text: &str) -> (shown: String)
    ensures
        shown@ == safe(text@),
{
    let mut shown = String::new();
    for c in chars: text.chars()
        invariant
            chars.seq() == text@,
            shown@ == safe(text@.take(chars.index())),
    {
        if c.is_control() {
            shown.push(' ');
        } else {
            shown.push(c);
        }
        assert(text@.take(chars.index() + 1) == text@.take(chars.index()).push(c));
    }
    assert(text@.take(text@.len() as int) == text@);
    shown
}

/// A run of `count` copies of `c`.
pub open spec fn repeated(c: char, count: int) -> Seq<char> {
    Seq::new(if count < 0 { 0 } else { count as nat }, |i: int| c)
}

/// A row of the screen: `text` without control codes, cut or filled with spaces to `width`.
pub open spec fn fitted(text: Seq<char>, width: int) -> Seq<char> {
    if text.len() >= width {
        safe(text).take(width)
    } else {
        safe(text) + repeated(' ', width - text.len())
    }
}

/// Appends `count` copies of `c`.
pub fn push_repeated(text: &mut String, c: char, count: usize)
    ensures
        final(text)@ == old(text)@ + repeated(c, count as int),
{
    let ghost before = text@;
    for i in 0..count
        invariant
            text@ == before + repeated(c, i as int),
    {
        text.push(c);
        assert(repeated(c, i + 1) == repeated(c, i as int).push(c));
        assert(before + repeated(c, i + 1) == (before + repeated(c, i as int)).push(c));
    }
}

/// The row of `width` cells that shows `text`.
pub fn fit_line(text: &str, width: u16) -> (line: String)
    ensures
        line@ == fitted(text@, width as int),
{
    let width = width as usize;
    let shown = safe_text(text);
    let length: usize = shown.as_str().unicode_len();
    if length >= width {
        shown.as_str().substring_char(0, width).to_owned()
    } else {
        let mut line = shown;
        push_repeated(&mut line, ' ', width - length);
        line
    }
}

/// `text` from its first character that is not white space on.
pub open spec fn trimmed_start(text: Seq<char>) -> Seq<char>
    decreases text.len(),
{
    if text.len() > 0 && is_white_space(text[0]) {
        trimmed_start(text.drop_first())
    } else {
        text
    }
}

/// `text` up to its last character that is not white space.
pub open spec fn trimmed_end(text: Seq<char>) -> Seq<char>
    decreases text.len(),
{
    if text.len() > 0 && is_white_space(text.last()) {
        trimmed_end(text.drop_last())
    } else {
        text
    }
}

/// `text` without the white space at both ends.
pub open spec fn trimmed(text: Seq<char>) -> Seq<char> {
    trimmed_end(trimmed_start(text))
}

/// The characters of `text`, in order.
pub fn chars_of(text: &str) -> (chars: Vec<char>)
    ensures
        chars@ == text@,
{
    let mut chars: Vec<char> = Vec::new();
    for c in iter: text.chars()
        invariant
            iter.seq() == text@,
            chars@ == text@.take(iter.index()),
    {
        chars.push(c);
        assert(text@.take(iter.index() + 1) == text@.take(iter.index()).push(c));
    }
    assert(text@.take(text@.len() as int) == text@);
    chars
}

/// Removes the white space at both ends of `text`.
pub fn trim(text: &str) -> (inner: String)
    ensures
        inner@ == trimmed(text@),
{
    let chars = chars_of(text);
    let mut start: usize = 0;
    assert(text@.skip(0) == text@);
    while start < chars.len() && chars[start].is_whitespace()
        invariant
            start <= chars.len(),
            chars@ == text@,
            trimmed_start(text@) == trimmed_start(text@.skip(start as int)),
        decreases chars.len() - start,
    {
        assert(text@.skip(start as int).drop_first() == text@.skip(start + 1));
        start = start + 1;
    }
    let mut end: usize = chars.len();
    assert(text@.skip(start as int) == text@.subrange(start as int, end as int));
    assert(trimmed_start(text@) == text@.subrange(start as int, end as int));
    while start < end && chars[end - 1].is_whitespace()
        invariant
            start <= end <= chars.len(),
            chars@ == text@,
            trimmed(text@) == trimmed_end(text@.subrange(start as int, end as int)),
        decreases end - start,
    {
        assert(text@.subrange(start as int, end as int).drop_last() == text@.subrange(
            start as int,
            end - 1,
        ));
        end = end - 1;
    }
    text.substring_char(start, end).to_owned()
}

/// Whether `text` begins with `prefix`.
pub fn starts_with(text: &str, prefix: &str) -> (found: bool)
    ensures
        found == prefix@.is_prefix_of(text@),
{
    let mut rest = text.chars();
    for wanted in iter: prefix.chars()
        invariant
            iter.seq() == prefix@,
            vstd::std_specs::iter::IteratorSpec::remaining(&rest) == text@.skip(iter.index()),
            iter.index() <= text@.len(),
            forall|i: int| 0 <= i < iter.index() ==> prefix@[i] == text@[i],
    {
        match rest.next() {
            Some(c) => {
                if c != wanted {
                    return false;
                }
            },
            None => {
                return false;
            },
        }
    }
    true
}

/// The decimal digit of `value`.
pub open spec fn digit(value: int) -> char {
    ('0' as int + value) as char
}

/// `value` in decimal notation.
pub open spec fn decimal(value: nat) -> Seq<char>
    decreases value,
{
    if value < 10 {
        seq![digit(value as int)]
    } else {
        decimal(value / 10).push(digit((value % 10) as int))
    }
}

/// Appends `value` in decimal notation.
pub fn push_decimal(text: &mut String, value: u64)
    ensures
        final(text)@ == old(text)@ + decimal(value as nat),
    decreases value,
{
    if value >= 10 {
        push_decimal(text, value / 10);
    }
    let last: char = (48u8 + (value % 10) as u8) as char;
    text.push(last);
}

/// Replacing control codes leaves none, keeps the length, and changes nothing the second time.
pub proof fn safe_text_is_safe(text: Seq<char>)
    ensures
        safe(text).len() == text.len(),
        forall|i: int| 0 <= i < text.len() ==> !is_control_code(#[trigger] safe(text)[i]),
        safe(safe(text)) == safe(text),
{
}

/// A row is exactly as wide as asked for and holds no control code, and a row that already fits
/// stays as it is.
pub proof fn rows_fit(text: Seq<char>, width: int)
    requires
        width >= 0,
    ensures
        fitted(text, width).len() == width,
        forall|i: int| 0 <= i < width ==> !is_control_code(#[trigger] fitted(text, width)[i]),
        fitted(fitted(text, width), width) == fitted(text, width),
{
}

/// What `trimmed_end` leaves is the beginning of a text, and ends in no white space.
proof fn trimmed_end_is_a_prefix(text: Seq<char>)
    ensures
        trimmed_end(text).len() <= text.len(),
        trimmed_end(text) == text.take(trimmed_end(text).len() as int),
        trimmed_end(text).len() > 0 ==> !is_white_space(trimmed_end(text).last()),
    decreases text.len(),
{
    if text.len() > 0 && is_white_space(text.last()) {
        trimmed_end_is_a_prefix(text.drop_last());
        let length = trimmed_end(text).len() as int;
        assert(text.drop_last().take(length) == text.take(length));
    } else {
        assert(text == text.take(text.len() as int));
    }
}

/// What `trimmed_start` leaves is the end of a text, and begins with no white space.
proof fn trimmed_start_is_a_suffix(text: Seq<char>)
    ensures
        trimmed_start(text).len() <= text.len(),
        trimmed_start(text) == text.skip(text.len() - trimmed_start(text).len()),
        trimmed_start(text).len() > 0 ==> !is_white_space(trimmed_start(text)[0]),
    decreases text.len(),
{
    if text.len() > 0 && is_white_space(text[0]) {
        trimmed_start_is_a_suffix(text.drop_first());
        let dropped = text.len() - trimmed_start(text).len();
        assert(text.drop_first().skip(dropped - 1) == text.skip(dropped));
    } else {
        assert(text == text.skip(0));
    }
}

/// Trimming leaves a piece of the text without white space at its ends, and changes nothing the
/// second time.
pub proof fn trimmed_text_has_no_white_ends(text: Seq<char>)
    ensures
        trimmed(text).len() > 0 ==> !is_white_space(trimmed(text)[0]) && !is_white_space(
            trimmed(text).last(),
        ),
        exists|start: int, end: int|
            0 <= start <= end <= text.len() && trimmed(text) == #[trigger] text.subrange(start, end),
        trimmed(trimmed(text)) == trimmed(text),
{
    trimmed_start_is_a_suffix(text);
    let rest = trimmed_start(text);
    trimmed_end_is_a_prefix(rest);
    let start = text.len() - rest.len();
    let end = start + trimmed(text).len();
    assert(trimmed(text) == text.subrange(start, end));
}

/// On the screen a space stands for a control code, and every other character for itself.
pub proof fn only_control_codes_are_replaced(text: Seq<char>, i: int)
    requires
        0 <= i < text.len(),
    ensures
        safe(text).len() == text.len(),
        is_control_code(text[i]) ==> safe(text)[i] == ' ',
        !is_control_code(text[i]) ==> safe(text)[i] == text[i],
{
}

/// Each cell of a row shows the character of the text at its place: a space stands for a control
/// code, and fills the cells that the text does not reach.
pub proof fn rows_show_their_text(text: Seq<char>, width: int, cell: int)
    requires
        0 <= cell < width,
    ensures
        fitted(text, width).len() == width,
        cell < text.len() && !is_control_code(text[cell]) ==> fitted(text, width)[cell]
            == text[cell],
        cell < text.len() && is_control_code(text[cell]) ==> fitted(text, width)[cell] == ' ',
        cell >= text.len() ==> fitted(text, width)[cell] == ' ',
{
}

/// A run of one character is as long as asked for and holds that character alone.
pub proof fn runs_hold_one_character(c: char, count: int, i: int)
    requires
        0 <= i < count,
    ensures
        repeated(c, count).len() == count,
        repeated(c, count)[i] == c,
{
}

/// Whether `inner` is what is left of `text` without the white space at both ends: white space
/// stands before and behind it in the text, and it neither begins nor ends with any.
pub open spec fn is_core(text: Seq<char>, inner: Seq<char>) -> bool {
    exists|start: int, end: int|
        {
            &&& 0 <= start <= end <= text.len()
            &&& inner == #[trigger] text.subrange(start, end)
            &&& forall|i: int| 0 <= i < start ==> is_white_space(#[trigger] text[i])
            &&& forall|i: int| end <= i < text.len() ==> is_white_space(#[trigger] text[i])
            &&& start < end ==> !is_white_space(text[start]) && !is_white_space(text[end - 1])
        }
}

/// What `trimmed_end` takes away is white space.
proof fn trimmed_end_takes_white_space(text: Seq<char>, i: int)
    requires
        trimmed_end(text).len() <= i < text.len(),
    ensures
        is_white_space(text[i]),
    decreases text.len(),
{
    if i < text.len() - 1 {
        trimmed_end_takes_white_space(text.drop_last(), i);
    }
}

/// What `trimmed_start` takes away is white space.
proof fn trimmed_start_takes_white_space(text: Seq<char>, i: int)
    requires
        0 <= i < text.len() - trimmed_start(text).len(),
    ensures
        is_white_space(text[i]),
    decreases text.len(),
{
    if i > 0 {
        trimmed_start_takes_white_space(text.drop_first(), i - 1);
    }
}

/// Trimming takes away all white space at both ends of a text, and nothing else.
pub proof fn trimming_takes_the_white_ends(text: Seq<char>)
    ensures
        is_core(text, trimmed(text)),
{
    trimmed_start_is_a_suffix(text);
    let rest = trimmed_start(text);
    trimmed_end_is_a_prefix(rest);
    let start = text.len() - rest.len();
    let end = start + trimmed(text).len();
    assert(trimmed(text) == text.subrange(start, end));
    assert forall|i: int| 0 <= i < start implies is_white_space(#[trigger] text[i]) by {
        trimmed_start_takes_white_space(text, i);
    }
    assert forall|i: int| end <= i < text.len() implies is_white_space(#[trigger] text[i]) by {
        trimmed_end_takes_white_space(rest, i - start);
        assert(text[i] == rest[i - start]);
    }
    if start < end {
        assert(text[start] == trimmed(text)[0]);
        assert(text[start] == rest[0]);
        assert(text[end - 1] == trimmed(text).last());
    }
}

/// The number that a run of decimal digits stands for: each digit counts ten times what one behind
/// it does.
pub open spec fn number(digits: Seq<char>) -> int
    decreases digits.len(),
{
    if digits.len() == 0 {
        0
    } else {
        10 * number(digits.drop_last()) + (digits.last() as int - '0' as int)
    }
}

/// Decimal notation is read as the number that was written: it holds digits alone, and begins
/// with no zero unless it is that digit alone.
pub proof fn decimal_notation_reads_back(value: nat)
    ensures
        decimal(value).len() > 0,
        number(decimal(value)) == value,
        forall|i: int| 0 <= i < decimal(value).len() ==> '0' <= #[trigger] decimal(value)[i] <= '9',
        value > 0 ==> decimal(value)[0] != '0',
        value == 0 ==> decimal(value).len() == 1,
    decreases value,
{
    let last = digit((value % 10) as int);
    if value < 10 {
        assert(decimal(value) == seq![last]);
        assert(decimal(value).drop_last() == Seq::<char>::empty());
        assert(number(Seq::<char>::empty()) == 0);
        assert(decimal(value).last() == last);
    } else {
        decimal_notation_reads_back(value / 10);
        assert(decimal(value).drop_last() == decimal(value / 10));
        assert(decimal(value)[0] == decimal(value / 10)[0]);
    }
}

/// The functions on texts do what their names say: what is trimmed is the text without the white
/// space at its ends, a row shows the text and is as wide as asked for, and a number is appended
/// in the notation that it is read back from.
pub proof fn texts_are_made_as_told(
    text: &str,
    inner: String,
    width: u16,
    row: String,
    prefix: &str,
    found: bool,
    target: &mut String,
    value: u64,
)
    ensures
        call_ensures(trim, (text,), inner) ==> is_core(text@, inner@),
        call_ensures(fit_line, (text, width), row) ==> row@.len() == width && (forall|cell: int|
            0 <= cell < width ==> #[trigger] row@[cell] == if cell < text@.len()
                && !is_control_code(text@[cell]) {
                text@[cell]
            } else {
                ' '
            }),
        call_ensures(safe_text, (text,), row) ==> row@.len() == text@.len() && (forall|i: int|
            0 <= i < text@.len() ==> #[trigger] row@[i] == if is_control_code(text@[i]) {
                ' '
            } else {
                text@[i]
            }),
        call_ensures(starts_with, (text, prefix), found) ==> (found <==> prefix@.is_prefix_of(
            text@,
        )),
        call_ensures(push_decimal, (target, value), ()) ==> old(target)@.is_prefix_of(
            final(target)@,
        ) && number(final(target)@.skip(old(target)@.len() as int)) == value,
{
    trimming_takes_the_white_ends(text@);
    decimal_notation_reads_back(value as nat);
    if call_ensures(push_decimal, (target, value), ()) {
        assert(final(target)@.skip(old(target)@.len() as int) == decimal(value as nat));
    }
}

} // verus!
