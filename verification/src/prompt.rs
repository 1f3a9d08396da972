//! The line that a prompt edits.
use crate::keys::KeyCode;
use crossterm::event::{Event, KeyCode as Code, KeyEvent, KeyModifiers};
use tui_input::backend::crossterm::EventHandler;
use tui_input::{Input, InputRequest};
use vstd::prelude::*;

verus! {

/// `tui_input::Input`: a line of text with a cursor and what was last cut from it.
#[verifier::external_type_specification]
#[verifier::external_body]
pub struct ExInput(tui_input::Input);

/// The text that an input holds.
pub uninterp spec fn input_text(input: Input) -> Seq<char>;

/// How many characters of its text stand before the cursor of an input.
pub uninterp spec fn input_cursor(input: Input) -> nat;

/// The text that an input holds cut, for a later yank.
pub uninterp spec fn input_yank(input: Input) -> Seq<char>;

/// Whether the last request that an input handled was a cut, so that a further cut adds to
/// what it holds cut.
pub uninterp spec fn input_was_cut(input: Input) -> bool;

/// The state of a prompt's line.
#[verifier::ext_equal]
pub struct Line {
    pub text: Seq<char>,
    pub cursor: nat,
    pub yank: Seq<char>,
    pub was_cut: bool,
}

/// The line that an input stands for.
pub open spec fn line(input: Input) -> Line {
    Line {
        text: input_text(input),
        cursor: input_cursor(input),
        yank: input_yank(input),
        was_cut: input_was_cut(input),
    }
}

/// A line that holds `text`, with `cursor` of its characters before the cursor and nothing cut.
pub open spec fn fresh_line(text: Seq<char>, cursor: nat) -> Line {
    Line { text, cursor, yank: Seq::empty(), was_cut: false }
}

/// `line` with `c` inserted at the cursor, which then stands behind it.
pub open spec fn inserted(line: Line, c: char) -> Line {
    Line {
        text: line.text.insert(line.cursor as int, c),
        cursor: line.cursor + 1,
        yank: line.yank,
        was_cut: false,
    }
}

/// `line` with all of `text` inserted at the cursor, which then stands behind it.
pub open spec fn pasted(line: Line, text: Seq<char>) -> Line {
    Line {
        text: line.text.take(line.cursor as int) + text + line.text.skip(line.cursor as int),
        cursor: line.cursor + text.len(),
        yank: line.yank,
        was_cut: line.was_cut && text.len() == 0,
    }
}

/// The line that `EventHandler::handle_event` of `tui_input` makes of `line` for the press of a
/// key: movement and deletion by grapheme cluster and by word follow Unicode's segmentation
/// rules.
pub uninterp spec fn edited(line: Line, code: KeyCode, modifiers: u8) -> Line;

/// `Input::new`: holds the text, with the cursor behind it and nothing cut.
#[verifier::external_body]
pub(crate) fn new_input(text: String) -> (input: Input)
    ensures
        input_text(input) == text@,
        input_cursor(input) == text@.len(),
        input_yank(input) == Seq::<char>::empty(),
        !input_was_cut(input),
{
    Input::new(text)
}

/// `Input::with_cursor`: moves the cursor behind as many characters as asked for, or behind the
/// text where it has fewer; all else stays.
#[verifier::external_body]
pub(crate) fn with_cursor(input: Input, cursor: usize) -> (moved: Input)
    ensures
        line(moved) == (Line {
            cursor: if cursor <= input_text(input).len() {
                cursor as nat
            } else {
                input_text(input).len()
            },
            ..line(input)
        }),
{
    input.with_cursor(cursor)
}

/// `Input::value`: the text.
#[verifier::external_body]
pub(crate) fn value(input: &Input) -> (text: &str)
    ensures
        text@ == input_text(*input),
{
    input.value()
}

/// `Input::cursor`: how many characters stand before the cursor, at most as many as there are.
#[verifier::external_body]
pub(crate) fn cursor(input: &Input) -> (cursor: usize)
    ensures
        cursor == input_cursor(*input),
        cursor <= input_text(*input).len(),
{
    input.cursor()
}

/// `Input::handle` for `InputRequest::InsertChar`: the character goes in at the cursor, which
/// moves behind it. What is held cut stays, and the request is no cut.
#[verifier::external_body]
pub(crate) fn insert_char(input: &mut Input, c: char)
    ensures
        line(*final(input)) == inserted(line(*old(input)), c),
{
    input.handle(InputRequest::InsertChar(c));
}

/// `EventHandler::handle_event` for the press of a key: the line becomes what `edited` names. A
/// character that is typed without modifiers, or with shift alone, is inserted; a key that is
/// not an editing key leaves the line as it is.
#[verifier::external_body]
pub(crate) fn press(input: &mut Input, code: KeyCode, modifiers: u8)
    ensures
        line(*final(input)) == edited(line(*old(input)), code, modifiers),
        code matches KeyCode::Char(c) ==> modifiers <= 1 ==> line(*final(input)) == inserted(
            line(*old(input)),
            c,
        ),
        code is Other ==> line(*final(input)) == line(*old(input)),
{
    let code = match code {
        KeyCode::Backspace => Code::Backspace,
        KeyCode::Enter => Code::Enter,
        KeyCode::Left => Code::Left,
        KeyCode::Right => Code::Right,
        KeyCode::Up => Code::Up, KeyCode::Down => Code::Down,
        KeyCode::Home => Code::Home, KeyCode::End => Code::End,
        KeyCode::Tab => Code::Tab, KeyCode::BackTab => Code::BackTab,
        KeyCode::Delete => Code::Delete, KeyCode::Esc => Code::Esc,
        KeyCode::Char(c) => Code::Char(c), KeyCode::Other => Code::Null,
    };
    let key = KeyEvent::new(code, KeyModifiers::from_bits_truncate(modifiers));
    input.handle_event(&Event::Key(key));
}

/// Inserts the characters of `text` at the cursor, one after the other.
pub fn insert_text(input: &mut Input, text: &str)
    ensures
        line(*final(input)) == pasted(line(*old(input)), text@),
{
    let ghost before = line(*input);
    let _ = cursor(input);
    assert(line(*input) =~= pasted(before, text@.take(0)));
    for c in chars: text.chars()
        invariant
            chars.seq() == text@,
            before == line(*old(input)),
            before.cursor <= before.text.len(),
            line(*input) == pasted(before, text@.take(chars.index())),
    {
        insert_char(input, c);
        let ghost done = text@.take(chars.index());
        assert(text@.take(chars.index() + 1) == done.push(c));
        assert(line(*input).text == pasted(before, done.push(c)).text);
    }
    assert(text@.take(text@.len() as int) == text@);
}

/// Pasting a text piece by piece is pasting it at once, and pasting a single character is typing
/// it.
pub proof fn pasting_goes_piece_by_piece(line: Line, first: Seq<char>, second: Seq<char>, c: char)
    requires
        line.cursor <= line.text.len(),
    ensures
        pasted(pasted(line, first), second) == pasted(line, first + second),
        pasted(line, seq![c]) == inserted(line, c),
{
}

/// Whether `held` is `line` with `piece` put in at the cursor: what stood before the cursor comes
/// first, then the piece, then what stood behind the cursor, which now stands behind the piece.
/// What is held cut stays, and a piece that is not empty is no cut.
pub open spec fn holds_piece(line: Line, piece: Seq<char>, held: Line) -> bool {
    &&& held.text.len() == line.text.len() + piece.len()
    &&& held.cursor == line.cursor + piece.len()
    &&& forall|i: int| 0 <= i < line.cursor ==> #[trigger] held.text[i] == line.text[i]
    &&& forall|i: int|
        line.cursor <= i < line.cursor + piece.len() ==> #[trigger] held.text[i]
            == piece[i - line.cursor]
    &&& forall|i: int|
        line.cursor + piece.len() <= i < held.text.len() ==> #[trigger] held.text[i]
            == line.text[i - piece.len()]
    &&& held.yank == line.yank
    &&& piece.len() > 0 ==> !held.was_cut
    &&& piece.len() == 0 ==> held.was_cut == line.was_cut
}

/// Pasting puts a text in at the cursor and keeps all that the line held.
pub proof fn pasting_keeps_the_rest(line: Line, piece: Seq<char>)
    requires
        line.cursor <= line.text.len(),
    ensures
        holds_piece(line, piece, pasted(line, piece)),
{
}

/// Typing a character puts it in at the cursor and keeps all that the line held.
pub proof fn typing_keeps_the_rest(line: Line, c: char)
    requires
        line.cursor <= line.text.len(),
    ensures
        holds_piece(line, seq![c], inserted(line, c)),
{
}

} // verus!
