use otpc::prompt::insert_text;
use tui_input::{Input, InputRequest};

#[test]
fn text_goes_in_at_the_cursor() {
    let mut input = Input::new("aöc".to_owned()).with_cursor(2);
    insert_text(&mut input, "x ÿ");
    assert_eq!(input.value(), "aöx ÿc");
    assert_eq!(input.cursor(), 5);
    insert_text(&mut input, "");
    assert_eq!(input.value(), "aöx ÿc");
    assert_eq!(input.cursor(), 5);
}

#[test]
fn text_in_pieces_is_text_at_once() {
    let mut whole = Input::new("ab".to_owned()).with_cursor(1);
    let mut pieces = whole.clone();
    insert_text(&mut whole, "one two");
    insert_text(&mut pieces, "one ");
    insert_text(&mut pieces, "two");
    assert_eq!(whole.value(), pieces.value());
    assert_eq!(whole.cursor(), pieces.cursor());
}

#[test]
fn what_was_cut_survives_an_insertion() {
    let mut input = Input::new("one two".to_owned());
    input.handle(InputRequest::DeletePrevWord);
    insert_text(&mut input, "x");
    input.handle(InputRequest::Yank);
    assert_eq!(input.value(), "one xtwo");
}
