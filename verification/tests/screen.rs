use otpc::app::{App, Mode};
use otpc::config::{Config, Credential};
use otpc::screen::{draw, draw_input, frame, scroll_to_selection, DrawOp};
use tui_input::Input;

fn app_with(count: usize) -> App {
    let credentials: Vec<Credential> = (0..count)
        .map(|index| Credential {
            id: index as u64 + 1,
            issuer: format!("I{index}"),
            name: format!("n{index}"),
            url: "none".to_owned(),
        })
        .collect();
    App::new(Config { next_id: count as u64 + 1, credentials })
}

fn shown(ops: &[DrawOp]) -> Vec<String> {
    ops.iter()
        .map(|op| match op {
            DrawOp::Hide => "hide".to_owned(),
            DrawOp::Clear => "clear".to_owned(),
            DrawOp::MoveTo { column, row } => format!("at {column},{row}"),
            DrawOp::Bold => "bold".to_owned(),
            DrawOp::Reverse => "reverse".to_owned(),
            DrawOp::NormalIntensity => "normal".to_owned(),
            DrawOp::Reset => "reset".to_owned(),
            DrawOp::Print(text) => format!("[{text}]"),
            DrawOp::Prompt { text, cursor, column, row, width } => {
                format!("prompt {text} {cursor} at {column},{row} wide {width}")
            }
        })
        .collect()
}

#[test]
fn an_empty_store_says_how_to_begin() {
    let mut app = app_with(0);
    assert_eq!(
        shown(&draw(&mut app, 40, 4).unwrap()),
        vec![
            "hide",
            "clear",
            "at 0,0",
            "bold",
            "[OTPC | q quit | n add | s scan screen   ]",
            "reset",
            "at 0,1",
            "[────────────────────────────────────────]",
            "at 0,2",
            "[No credentials. Press n to add one.     ]",
            "at 0,3",
            "bold",
            "[                                        ]",
            "reset",
        ]
    );
}

#[test]
fn the_selected_credential_is_reversed() {
    let mut app = app_with(2);
    app.selected = 1;
    app.message = Some("Hi\tthere".to_owned());
    assert_eq!(
        shown(&draw(&mut app, 46, 8).unwrap()),
        vec![
            "hide",
            "clear",
            "at 0,0",
            "bold",
            "[OTPC | q quit | n add | s scan screen         ]",
            "reset",
            "at 0,1",
            "[──────────────────────────────────────────────]",
            "bold",
            "at 0,2",
            "[I0: n0                                        ]",
            "normal",
            "at 0,3",
            "[Invalid credential URL                        ]",
            "reset",
            "reverse",
            "bold",
            "at 0,5",
            "[I1: n1                                        ]",
            "normal",
            "at 0,6",
            "[Invalid credential URL                        ]",
            "reset",
            "at 0,7",
            "bold",
            "[[enter] copy | d delete | r rename | Hi there ]",
            "reset",
        ]
    );
}

#[test]
fn a_low_screen_shows_a_name_without_its_code() {
    let mut app = app_with(2);
    assert_eq!(
        shown(&draw(&mut app, 6, 4).unwrap()),
        vec![
            "hide", "clear", "at 0,0", "bold", "[OTPC |]", "reset", "at 0,1", "[──────]", "reverse",
            "bold", "at 0,2", "[I0: n0]", "normal", "reset", "at 0,3", "bold", "[[enter]", "reset",
        ]
    );
}

#[test]
fn the_smallest_screens_are_drawn() {
    let mut app = app_with(1);
    assert_eq!(shown(&draw(&mut app, 0, 5).unwrap()), vec!["hide", "clear"]);
    assert_eq!(shown(&draw(&mut app, 5, 0).unwrap()), vec!["hide", "clear"]);
    assert_eq!(
        shown(&draw(&mut app, 4, 1).unwrap()),
        vec![
            "hide", "clear", "at 0,0", "bold", "[OTPC]", "reset", "at 0,0", "bold", "[[ent]",
            "reset",
        ]
    );
    assert_eq!(
        shown(&draw(&mut app, 4, 3).unwrap()),
        vec![
            "hide", "clear", "at 0,0", "bold", "[OTPC]", "reset", "at 0,1", "[────]", "at 0,2",
            "bold", "[[ent]", "reset",
        ]
    );
}

#[test]
fn the_screen_follows_the_selection() {
    let mut app = app_with(10);
    app.selected = 7;
    scroll_to_selection(&mut app, 11);
    assert_eq!(app.scroll, 5);
    app.selected = 3;
    scroll_to_selection(&mut app, 11);
    assert_eq!(app.scroll, 3);
    app.selected = 5;
    scroll_to_selection(&mut app, 11);
    assert_eq!(app.scroll, 3);
    app.selected = 6;
    draw(&mut app, 20, 2).unwrap();
    assert_eq!(app.scroll, 6);
}

#[test]
fn given_codes_are_shown_in_their_slots() {
    let mut app = app_with(3);
    app.scroll = 1;
    app.selected = 1;
    let ops = shown(&frame(&app, 6, 8, &vec!["111111".to_owned(), "2".to_owned()]));
    let printed: Vec<&String> = ops.iter().filter(|op| op.starts_with('[')).collect();
    assert_eq!(
        printed,
        vec!["[OTPC |]", "[──────]", "[I1: n1]", "[111111]", "[I2: n2]", "[2     ]", "[[enter]"]
    );
}

#[test]
fn a_deletion_is_asked_about() {
    let mut app = app_with(1);
    app.mode = Mode::ConfirmDelete;
    app.message = Some("note".to_owned());
    let ops = shown(&draw(&mut app, 46, 3).unwrap());
    assert_eq!(ops[4], "[OTPC | q quit | n add | s scan screen | note  ]");
    assert_eq!(ops[10], "[Delete I0: n0? (y/n)                          ]");
    app.config.credentials.clear();
    let ops = shown(&draw(&mut app, 20, 3).unwrap());
    assert_eq!(ops[10], "[Delete ? (y/n)      ]");
}

#[test]
fn a_message_stands_alone_without_a_selection() {
    let mut app = app_with(0);
    app.message = Some("note".to_owned());
    let ops = shown(&draw(&mut app, 8, 3).unwrap());
    assert_eq!(ops[10], "[note    ]");
}

#[test]
fn a_prompt_is_drawn_in_the_cells_that_are_left() {
    let mut app = app_with(1);
    app.mode = Mode::Add(Input::new("~/qr".to_owned()).with_cursor(2));
    let ops = shown(&draw(&mut app, 30, 5).unwrap());
    assert_eq!(
        ops[ops.len() - 5..],
        ["at 0,4", "bold", "[Add URL or image path: ]", "reset", "prompt ~/qr 2 at 23,4 wide 7"]
    );
    app.mode = Mode::Rename(Input::new("x".to_owned()));
    let ops = shown(&draw(&mut app, 8, 5).unwrap());
    assert_eq!(ops[ops.len() - 4..], ["at 0,4", "bold", "[Rename: ]", "reset"]);
    let mut ops = Vec::new();
    draw_input(&mut ops, "A\tsk: ", &Input::new("y".to_owned()), 3, 9);
    assert_eq!(shown(&ops), vec!["at 0,9", "bold", "[A s]", "reset"]);
}

#[test]
fn a_code_that_cannot_be_computed_cannot_be_drawn() {
    let mut app = app_with(2);
    app.config.credentials[1].url =
        "otpauth://totp/A:a?secret=JBSWY3DPEHPK3PXP&issuer=A&digits=10".to_owned();
    assert!(draw(&mut app, 20, 8).is_none());
    assert!(draw(&mut app, 20, 5).is_some());
    assert!(draw(&mut app, 20, 4).is_some());
}

#[test]
fn nothing_is_drawn_outside_the_screen() {
    let mut app = app_with(5);
    app.mode = Mode::Rename(Input::new("a long new name".to_owned()));
    for width in 1..12u16 {
        for height in 1..14u16 {
            for op in draw(&mut app, width, height).unwrap() {
                match op {
                    DrawOp::MoveTo { column, row } => assert!(column < width && row < height),
                    DrawOp::Print(text) => assert!(text.chars().count() <= usize::from(width)),
                    DrawOp::Prompt { column, row, width: cells, .. } => {
                        assert!(column + cells <= width && row < height)
                    }
                    _ => {}
                }
            }
        }
    }
}
