//! What the terminal shows.
use crate::app::{App, AppView, Mode, ModeView};
use crate::codes::{checked_credential_code, shows_code, uncomputable_url};
use crate::config::{views, Credential, CredentialView};
use crate::prompt::{cursor, line, value, Line};
use crate::text::{fit_line, fitted, is_control_code, push_repeated, repeated, safe, safe_text};
use tui_input::Input;
use vstd::prelude::*;
use vstd::string::StrSliceExecFns;
use vstd::string::StringExecFns;

verus! {

/// One thing to do to the terminal.
#[derive(Debug)]
pub enum DrawOp {
    /// Hide the cursor.
    Hide,
    /// Clear the screen.
    Clear,
    MoveTo { column: u16, row: u16 },
    Bold,
    Reverse,
    /// End the bold type.
    NormalIntensity,
    /// End bold and reversed type.
    Reset,
    Print(String),
    /// Show the line of a prompt, with its cursor, in so many cells.
    Prompt { text: String, cursor: usize, column: u16, row: u16, width: u16 },
}

/// One thing to do to the terminal, as a value.
#[verifier::ext_equal]
pub enum DrawOpView {
    Hide,
    Clear,
    MoveTo { column: int, row: int },
    Bold,
    Reverse,
    NormalIntensity,
    Reset,
    Print(Seq<char>),
    Prompt { text: Seq<char>, cursor: nat, column: int, row: int, width: int },
}

impl View for DrawOp {
    type V = DrawOpView;

    open spec fn view(&self) -> DrawOpView {
        match self {
            DrawOp::Hide => DrawOpView::Hide,
            DrawOp::Clear => DrawOpView::Clear,
            DrawOp::MoveTo { column, row } => DrawOpView::MoveTo {
                column: *column as int,
                row: *row as int,
            },
            DrawOp::Bold => DrawOpView::Bold,
            DrawOp::Reverse => DrawOpView::Reverse,
            DrawOp::NormalIntensity => DrawOpView::NormalIntensity,
            DrawOp::Reset => DrawOpView::Reset,
            DrawOp::Print(text) => DrawOpView::Print(text@),
            DrawOp::Prompt { text, cursor, column, row, width } => DrawOpView::Prompt {
                text: text@,
                cursor: *cursor as nat,
                column: *column as int,
                row: *row as int,
                width: *width as int,
            },
        }
    }
}

/// How many credentials fit a screen of so many rows: each takes two rows and one below, and the
/// header, the rule under it and the footer take one each.
pub open spec fn visible_count(height: int) -> int {
    let fit = if height > 3 {
        (height - 2) / 3
    } else {
        0
    };
    if fit > 1 {
        fit
    } else {
        1
    }
}

impl AppView {
    /// The state with the screen moved so that the selection is on it.
    pub open spec fn scrolled(self, height: int) -> AppView {
        AppView {
            scroll: if self.selected < self.scroll {
                self.selected
            } else if self.selected >= self.scroll + visible_count(height) {
                self.selected + 1 - visible_count(height)
            } else {
                self.scroll
            },
            ..self
        }
    }

    /// How many credentials a screen of so many rows shows.
    pub open spec fn shown_count(self, height: int) -> int {
        let left = self.config.credentials.len() - self.scroll;
        if height <= 3 || left <= 0 {
            0
        } else if left < visible_count(height) {
            left
        } else {
            visible_count(height)
        }
    }

    /// Of how many credentials a screen of so many rows shows the code: a last one may have only
    /// its name on the screen.
    pub open spec fn code_count(self, height: int) -> int {
        let rows = if height > 3 {
            (height - 2) / 3
        } else {
            0
        };
        if rows < self.shown_count(height) {
            rows
        } else {
            self.shown_count(height)
        }
    }
}

/// The first row of the screen.
pub open spec fn header_text(app: AppView) -> Seq<char> {
    let keys = "OTPC | q quit | n add | s scan screen"@;
    match app.message {
        Some(message) if !(app.mode is Normal) => keys + " | "@ + message,
        _ => keys,
    }
}

/// What draws the header and the rule under it.
pub open spec fn header_ops(app: AppView, width: int, height: int) -> Seq<DrawOpView> {
    let header = seq![
        DrawOpView::MoveTo { column: 0, row: 0 },
        DrawOpView::Bold,
        DrawOpView::Print(fitted(header_text(app), width)),
        DrawOpView::Reset,
    ];
    let rule = seq![
        DrawOpView::MoveTo { column: 0, row: 1 },
        DrawOpView::Print(repeated('\u{2500}', width)),
    ];
    if height > 1 {
        header + rule
    } else {
        header
    }
}

/// What draws a credential in the slot that starts at `row`, with its code where there is a row for
/// it.
pub open spec fn credential_ops(
    credential: CredentialView,
    is_selected: bool,
    code: Option<Seq<char>>,
    width: int,
    row: int,
) -> Seq<DrawOpView> {
    let reverse = if is_selected {
        seq![DrawOpView::Reverse]
    } else {
        Seq::empty()
    };
    let name = seq![
        DrawOpView::Bold,
        DrawOpView::MoveTo { column: 0, row },
        DrawOpView::Print(fitted(credential.label(), width)),
        DrawOpView::NormalIntensity,
    ];
    let code = match code {
        Some(text) => seq![
            DrawOpView::MoveTo { column: 0, row: row + 1 },
            DrawOpView::Print(fitted(text, width)),
        ],
        None => Seq::empty(),
    };
    reverse + name + code + seq![DrawOpView::Reset]
}

/// What draws the credentials in the first `slots` slots, with the codes of the first ones.
pub open spec fn slots_ops(app: AppView, width: int, codes: Seq<Seq<char>>, slots: int) -> Seq<
    DrawOpView,
>
    decreases slots,
{
    if slots <= 0 {
        Seq::empty()
    } else {
        let slot = slots - 1;
        let index = app.scroll + slot;
        slots_ops(app, width, codes, slot) + credential_ops(
            app.config.credentials[index],
            index == app.selected,
            if slot < codes.len() {
                Some(codes[slot])
            } else {
                None
            },
            width,
            2 + 3 * slot,
        )
    }
}

/// What draws the credentials, or that there are none.
pub open spec fn body_ops(app: AppView, width: int, height: int, codes: Seq<Seq<char>>) -> Seq<
    DrawOpView,
> {
    if app.config.credentials.len() == 0 && height > 3 {
        seq![
            DrawOpView::MoveTo { column: 0, row: 2 },
            DrawOpView::Print(fitted("No credentials. Press n to add one."@, width)),
        ]
    } else {
        slots_ops(app, width, codes, app.shown_count(height))
    }
}

/// The last row of the screen when no prompt is open.
pub open spec fn normal_footer(app: AppView) -> Seq<char> {
    let keys = "[enter] copy | d delete | r rename"@;
    match (app.selection(), app.message) {
        (Some(_), Some(message)) => keys + " | "@ + message,
        (Some(_), None) => keys,
        (None, Some(message)) => message,
        (None, None) => Seq::empty(),
    }
}

/// The question whether to delete the selected credential.
pub open spec fn delete_question(app: AppView) -> Seq<char> {
    let target = match app.selection() {
        Some(credential) => credential.label(),
        None => Seq::empty(),
    };
    "Delete "@ + target + "? (y/n)"@
}

/// What draws a row of text at the foot of the screen.
pub open spec fn footer_ops(text: Seq<char>, width: int, row: int) -> Seq<DrawOpView> {
    seq![
        DrawOpView::MoveTo { column: 0, row },
        DrawOpView::Bold,
        DrawOpView::Print(fitted(text, width)),
        DrawOpView::Reset,
    ]
}

/// What draws a prompt: as much of what it asks as fits, and its line in the cells that are left.
pub open spec fn prompt_ops(question: Seq<char>, line: Line, width: int, row: int) -> Seq<
    DrawOpView,
> {
    let taken = if question.len() < width {
        question.len() as int
    } else {
        width
    };
    let asked = seq![
        DrawOpView::MoveTo { column: 0, row },
        DrawOpView::Bold,
        DrawOpView::Print(safe(question).take(taken)),
        DrawOpView::Reset,
    ];
    if taken < width {
        asked.push(
            DrawOpView::Prompt {
                text: line.text,
                cursor: line.cursor,
                column: taken,
                row,
                width: width - taken,
            },
        )
    } else {
        asked
    }
}

/// What draws the foot of the screen.
pub open spec fn foot_ops(app: AppView, width: int, height: int) -> Seq<DrawOpView> {
    let row = height - 1;
    match app.mode {
        ModeView::Normal => footer_ops(normal_footer(app), width, row),
        ModeView::ConfirmDelete => footer_ops(delete_question(app), width, row),
        ModeView::Rename(line) => prompt_ops("Rename: "@, line, width, row),
        ModeView::Add(line) => prompt_ops("Add URL or image path: "@, line, width, row),
    }
}

/// What draws the whole screen, with the given codes of the first credentials on it.
pub open spec fn frame_ops(app: AppView, width: int, height: int, codes: Seq<Seq<char>>) -> Seq<
    DrawOpView,
> {
    let start = seq![DrawOpView::Hide, DrawOpView::Clear];
    if width == 0 || height == 0 {
        start
    } else {
        start + header_ops(app, width, height) + body_ops(app, width, height, codes) + foot_ops(
            app,
            width,
            height,
        )
    }
}

/// Adds one thing to do.
fn push(ops: &mut Vec<DrawOp>, op: DrawOp)
    ensures
        views(final(ops)@) == views(old(ops)@).push(op@),
{
    let ghost before = ops@;
    ops.push(op);
    assert(views(ops@) == views(before).push(op@));
}

/// Draws the header and the rule under it.
fn draw_header(ops: &mut Vec<DrawOp>, app: &App, width: u16, height: u16)
    ensures
        views(final(ops)@) == views(old(ops)@) + header_ops(app@, width as int, height as int),
{
    let ghost before = views(ops@);
    let mut text = "OTPC | q quit | n add | s scan screen".to_owned();
    match (&app.mode, &app.message) {
        (Mode::Normal, _) => {},
        (_, None) => {},
        (_, Some(message)) => {
            text.append(" | ");
            text.append(message.as_str());
        },
    }
    assert(text@ == header_text(app@));
    push(ops, DrawOp::MoveTo { column: 0, row: 0 });
    push(ops, DrawOp::Bold);
    push(ops, DrawOp::Print(fit_line(text.as_str(), width)));
    push(ops, DrawOp::Reset);
    if height > 1 {
        let mut rule = String::new();
        push_repeated(&mut rule, '\u{2500}', width as usize);
        assert(rule@ == repeated('\u{2500}', width as int));
        push(ops, DrawOp::MoveTo { column: 0, row: 1 });
        push(ops, DrawOp::Print(rule));
    }
    assert(views(ops@) == before + header_ops(app@, width as int, height as int));
}

/// Draws a credential in the slot that starts at `row`.
fn draw_credential(
    ops: &mut Vec<DrawOp>,
    credential: &Credential,
    is_selected: bool,
    code: Option<&String>,
    width: u16,
    row: u16,
)
    requires
        row < u16::MAX,
    ensures
        views(final(ops)@) == views(old(ops)@) + credential_ops(
            credential@,
            is_selected,
            match code {
                Some(text) => Some(text@),
                None => None,
            },
            width as int,
            row as int,
        ),
{
    let ghost before = views(ops@);
    if is_selected {
        push(ops, DrawOp::Reverse);
    }
    push(ops, DrawOp::Bold);
    push(ops, DrawOp::MoveTo { column: 0, row });
    push(ops, DrawOp::Print(fit_line(credential.label().as_str(), width)));
    push(ops, DrawOp::NormalIntensity);
    if let Some(text) = code {
        push(ops, DrawOp::MoveTo { column: 0, row: row + 1 });
        push(ops, DrawOp::Print(fit_line(text.as_str(), width)));
    }
    push(ops, DrawOp::Reset);
    assert(views(ops@) == before + credential_ops(
        credential@,
        is_selected,
        match code {
            Some(text) => Some(text@),
            None => None,
        },
        width as int,
        row as int,
    ));
}

/// How many credentials fit a screen of so many rows.
fn count_visible(height: u16) -> (count: usize)
    ensures
        count == visible_count(height as int),
{
    if height > 5 {
        (height as usize - 2) / 3
    } else {
        1
    }
}

/// How many credentials a screen of so many rows shows.
fn count_shown(app: &App, height: u16) -> (count: usize)
    ensures
        count == app@.shown_count(height as int),
{
    let total: usize = app.config.credentials.len();
    if height <= 3 || app.scroll >= total {
        0
    } else if total - app.scroll < count_visible(height) {
        total - app.scroll
    } else {
        count_visible(height)
    }
}

/// Of how many credentials a screen of so many rows shows the code.
fn count_codes(app: &App, height: u16) -> (count: usize)
    ensures
        count == app@.code_count(height as int),
{
    let shown = count_shown(app, height);
    if height <= 3 {
        return 0;
    }
    let rows: usize = (height as usize - 2) / 3;
    if rows < shown {
        rows
    } else {
        shown
    }
}

/// Draws the credentials, or that there are none.
fn draw_body(ops: &mut Vec<DrawOp>, app: &App, width: u16, height: u16, codes: &Vec<String>)
    requires
        codes.len() == app@.code_count(height as int),
    ensures
        views(final(ops)@) == views(old(ops)@) + body_ops(
            app@,
            width as int,
            height as int,
            views(codes@),
        ),
{
    let ghost before = views(ops@);
    let ghost texts = views(codes@);
    if app.config.credentials.len() == 0 && height > 3 {
        push(ops, DrawOp::MoveTo { column: 0, row: 2 });
        push(ops, DrawOp::Print(fit_line("No credentials. Press n to add one.", width)));
        assert(views(ops@) == before + body_ops(app@, width as int, height as int, texts));
        return;
    }
    let shown = count_shown(app, height);
    assert(before + slots_ops(app@, width as int, texts, 0) == before);
    for slot in 0..shown
        invariant
            shown == app@.shown_count(height as int),
            texts == views(codes@),
            views(ops@) == before + slots_ops(app@, width as int, texts, slot as int),
    {
        assert(app.scroll + slot < app.config.credentials.len());
        let index: usize = app.scroll + slot;
        let row: u16 = (2 + slot * 3) as u16;
        let code = if slot < codes.len() {
            Some(&codes[slot])
        } else {
            None
        };
        assert(app@.config.credentials[index as int] == app.config.credentials@[index as int]@);
        draw_credential(
            ops,
            &app.config.credentials[index],
            index == app.selected,
            code,
            width,
            row,
        );
        assert(views(ops@) == before + slots_ops(app@, width as int, texts, slot + 1));
    }
}

/// Draws a row of text at the foot of the screen.
fn draw_footer(ops: &mut Vec<DrawOp>, text: &str, width: u16, row: u16)
    ensures
        views(final(ops)@) == views(old(ops)@) + footer_ops(text@, width as int, row as int),
{
    let ghost before = views(ops@);
    push(ops, DrawOp::MoveTo { column: 0, row });
    push(ops, DrawOp::Bold);
    push(ops, DrawOp::Print(fit_line(text, width)));
    push(ops, DrawOp::Reset);
    assert(views(ops@) == before + footer_ops(text@, width as int, row as int));
}

/// Draws a prompt: as much of what it asks as fits, and its line in the cells that are left.
pub fn draw_input(ops: &mut Vec<DrawOp>, question: &str, input: &Input, width: u16, row: u16)
    ensures
        views(final(ops)@) == views(old(ops)@) + prompt_ops(
            question@,
            line(*input),
            width as int,
            row as int,
        ),
{
    let ghost before = views(ops@);
    let asked = safe_text(question);
    let length: usize = asked.as_str().unicode_len();
    let taken: u16 = if length < width as usize {
        length as u16
    } else {
        width
    };
    let part = asked.as_str().substring_char(0, taken as usize).to_owned();
    assert(part@ == safe(question@).take(taken as int));
    push(ops, DrawOp::MoveTo { column: 0, row });
    push(ops, DrawOp::Bold);
    push(ops, DrawOp::Print(part));
    push(ops, DrawOp::Reset);
    if taken < width {
        push(
            ops,
            DrawOp::Prompt {
                text: value(input).to_owned(),
                cursor: cursor(input),
                column: taken,
                row,
                width: width - taken,
            },
        );
    }
    assert(views(ops@) == before + prompt_ops(question@, line(*input), width as int, row as int));
}

/// The last row of the screen when no prompt is open.
fn footer_text(app: &App) -> (text: String)
    ensures
        text@ == normal_footer(app@),
{
    let mut text = String::new();
    if app.selected().is_some() {
        text.append("[enter] copy | d delete | r rename");
        assert(text@ == "[enter] copy | d delete | r rename"@);
        if let Some(message) = &app.message {
            text.append(" | ");
            text.append(message.as_str());
        }
    } else if let Some(message) = &app.message {
        text.append(message.as_str());
        assert(text@ == message@);
    }
    text
}

/// The question whether to delete the selected credential.
fn question_text(app: &App) -> (text: String)
    ensures
        text@ == delete_question(app@),
{
    let mut text = "Delete ".to_owned();
    if let Some(credential) = app.selected() {
        text.append(credential.label().as_str());
    }
    assert(text@ == "Delete "@ + match app@.selection() {
        Some(credential) => credential.label(),
        None => Seq::empty(),
    });
    text.append("? (y/n)");
    text
}

/// Draws the foot of the screen.
fn draw_foot(ops: &mut Vec<DrawOp>, app: &App, width: u16, height: u16)
    requires
        height > 0,
    ensures
        views(final(ops)@) == views(old(ops)@) + foot_ops(app@, width as int, height as int),
{
    let row: u16 = height - 1;
    match &app.mode {
        Mode::Normal => draw_footer(ops, footer_text(app).as_str(), width, row),
        Mode::ConfirmDelete => draw_footer(ops, question_text(app).as_str(), width, row),
        Mode::Rename(input) => draw_input(ops, "Rename: ", input, width, row),
        Mode::Add(input) => draw_input(ops, "Add URL or image path: ", input, width, row),
    }
}

/// What draws the whole screen, with the given codes of the first credentials on it.
pub fn frame(app: &App, width: u16, height: u16, codes: &Vec<String>) -> (ops: Vec<DrawOp>)
    requires
        codes.len() == app@.code_count(height as int),
    ensures
        views(ops@) == frame_ops(app@, width as int, height as int, views(codes@)),
{
    let mut ops: Vec<DrawOp> = Vec::new();
    push(&mut ops, DrawOp::Hide);
    push(&mut ops, DrawOp::Clear);
    assert(views(ops@) == seq![DrawOpView::Hide, DrawOpView::Clear]);
    if width > 0 && height > 0 {
        draw_header(&mut ops, app, width, height);
        draw_body(&mut ops, app, width, height, codes);
        draw_foot(&mut ops, app, width, height);
    }
    ops
}

/// Moves the screen so that the selection is on it.
pub fn scroll_to_selection(app: &mut App, height: u16)
    requires
        old(app)@.is_sound(),
    ensures
        final(app)@ == old(app)@.scrolled(height as int),
        final(app)@.is_sound(),
{
    let visible = count_visible(height);
    if app.selected < app.scroll {
        app.scroll = app.selected;
    } else if app.selected - app.scroll >= visible {
        app.scroll = app.selected - (visible - 1);
    }
}

/// Whether rows show the current codes of the first credentials on the screen.
pub open spec fn shows_codes(app: AppView, height: int, codes: Seq<Seq<char>>) -> bool {
    &&& codes.len() == app.code_count(height)
    &&& forall|slot: int|
        0 <= slot < codes.len() ==> shows_code(
            #[trigger] codes[slot],
            app.config.credentials[app.scroll + slot],
        )
}

/// The rows that show the current codes of the first credentials on the screen; nothing where one
/// of them has no computable code.
fn current_codes(app: &App, height: u16) -> (codes: Option<Vec<String>>)
    ensures
        codes matches Some(rows) ==> shows_codes(app@, height as int, views(rows@)),
        codes is None <==> has_uncomputable(app@, height as int),
{
    let count = count_codes(app, height);
    let mut codes: Vec<String> = Vec::new();
    for slot in 0..count
        invariant
            count == app@.code_count(height as int),
            codes.len() == slot,
            forall|i: int|
                0 <= i < slot ==> shows_code(
                    (#[trigger] codes@[i])@,
                    app@.config.credentials[app@.scroll + i],
                ),
            forall|i: int|
                0 <= i < slot ==> !uncomputable_url(
                    (#[trigger] app@.config.credentials[app@.scroll + i]).url,
                ),
    {
        assert(app.scroll + slot < app.config.credentials.len());
        let index: usize = app.scroll + slot;
        assert(app@.config.credentials[index as int] == app.config.credentials@[index as int]@);
        match checked_credential_code(&app.config.credentials[index]) {
            Some(row) => {
                codes.push(row);
            },
            None => {
                assert(uncomputable_url(app@.config.credentials[app@.scroll + slot].url));
                return None;
            },
        }
    }
    Some(codes)
}

/// Whether the code of a credential that is to be shown cannot be computed.
pub open spec fn has_uncomputable(app: AppView, height: int) -> bool {
    exists|slot: int|
        0 <= slot < app.code_count(height) && uncomputable_url(
            (#[trigger] app.config.credentials[app.scroll + slot]).url,
        )
}

/// Moves the screen so that the selection is on it, and tells what draws it with the current codes.
/// Nothing can be drawn where one of the codes cannot be computed.
pub fn draw(app: &mut App, width: u16, height: u16) -> (ops: Option<Vec<DrawOp>>)
    requires
        old(app)@.is_sound(),
    ensures
        width == 0 || height == 0 ==> final(app)@ == old(app)@ && (ops matches Some(list) && views(
            list@,
        ) == frame_ops(old(app)@, width as int, height as int, Seq::empty())),
        width > 0 && height > 0 ==> {
            &&& final(app)@ == old(app)@.scrolled(height as int)
            &&& ops is None <==> has_uncomputable(final(app)@, height as int)
            &&& ops matches Some(list) ==> exists|codes: Seq<Seq<char>>| #[trigger]
                shows_codes(final(app)@, height as int, codes) && views(list@) == frame_ops(
                    final(app)@,
                    width as int,
                    height as int,
                    codes,
                )
        },
        final(app)@.is_sound(),
{
    if width == 0 || height == 0 {
        let mut ops: Vec<DrawOp> = Vec::new();
        push(&mut ops, DrawOp::Hide);
        push(&mut ops, DrawOp::Clear);
        assert(views(ops@) == frame_ops(app@, width as int, height as int, Seq::empty()));
        return Some(ops);
    }
    scroll_to_selection(app, height);
    match current_codes(app, height) {
        Some(codes) => Some(frame(app, width, height, &codes)),
        None => None,
    }
}

/// After the screen was moved, the selection is among the credentials that fit it.
pub proof fn selection_is_on_the_screen(app: AppView, height: int)
    requires
        app.is_sound(),
        height >= 0,
    ensures
        app.scrolled(height).scroll <= app.selected,
        app.selected < app.scrolled(height).scroll + visible_count(height),
        app.scrolled(height).is_sound(),
        app.scrolled(height).scrolled(height) == app.scrolled(height),
{
}

/// Whether something that is drawn stays on a screen of the given size, and prints no control
/// code.
pub open spec fn stays_on_screen(op: DrawOpView, width: int, height: int) -> bool {
    match op {
        DrawOpView::MoveTo { column, row } => 0 <= column < width && 0 <= row < height,
        DrawOpView::Print(text) => text.len() <= width && forall|i: int|
            0 <= i < text.len() ==> !is_control_code(#[trigger] text[i]),
        DrawOpView::Prompt { text, cursor, column, row, width: cells } => 0 <= column && 0 < cells
            && column + cells <= width && 0 <= row < height,
        _ => true,
    }
}

/// Whether all that is drawn stays on a screen of the given size.
pub open spec fn all_stay_on_screen(ops: Seq<DrawOpView>, width: int, height: int) -> bool {
    forall|i: int| 0 <= i < ops.len() ==> stays_on_screen(#[trigger] ops[i], width, height)
}

/// What is drawn of the first slots stays on the screen.
proof fn slots_stay_on_screen(
    app: AppView,
    width: int,
    height: int,
    codes: Seq<Seq<char>>,
    slots: int,
)
    requires
        app.is_sound(),
        width > 0,
        0 <= slots <= app.shown_count(height),
        codes.len() == app.code_count(height),
    ensures
        all_stay_on_screen(slots_ops(app, width, codes, slots), width, height),
    decreases slots,
{
    if slots > 0 {
        slots_stay_on_screen(app, width, height, codes, slots - 1);
    }
}

/// Whatever is drawn stays on the screen: no row and no column lies outside it, no text is wider
/// than it, and no text holds a control code.
pub proof fn frame_stays_on_screen(
    app: AppView,
    width: int,
    height: int,
    codes: Seq<Seq<char>>,
)
    requires
        app.is_sound(),
        width >= 0,
        height >= 0,
        codes.len() == app.code_count(height),
    ensures
        all_stay_on_screen(frame_ops(app, width, height, codes), width, height),
{
    if width > 0 && height > 0 {
        slots_stay_on_screen(app, width, height, codes, app.shown_count(height));
    }
}

/// A text on the terminal, and how it is set.
#[verifier::ext_equal]
pub struct Shown {
    pub text: Seq<char>,
    pub bold: bool,
    pub reversed: bool,
}

/// A prompt's line on the terminal: its text and cursor, and the cells that it has.
#[verifier::ext_equal]
pub struct ShownPrompt {
    pub text: Seq<char>,
    pub cursor: nat,
    pub column: int,
    pub row: int,
    pub width: int,
}

/// A terminal: whether its cursor is hidden, where it prints next and how, and what it shows. Each
/// text is found by the row and the column at which it begins.
#[verifier::ext_equal]
pub struct Terminal {
    pub hidden: bool,
    pub column: int,
    pub row: int,
    pub bold: bool,
    pub reversed: bool,
    pub texts: Map<(int, int), Shown>,
    pub prompt: Option<ShownPrompt>,
}

impl Terminal {
    /// The terminal after one thing was done to it.
    pub open spec fn drawn(self, op: DrawOpView) -> Terminal {
        match op {
            DrawOpView::Hide => Terminal { hidden: true, ..self },
            DrawOpView::Clear => Terminal { texts: Map::empty(), prompt: None, ..self },
            DrawOpView::MoveTo { column, row } => Terminal { column, row, ..self },
            DrawOpView::Bold => Terminal { bold: true, ..self },
            DrawOpView::Reverse => Terminal { reversed: true, ..self },
            DrawOpView::NormalIntensity => Terminal { bold: false, ..self },
            DrawOpView::Reset => Terminal { bold: false, reversed: false, ..self },
            DrawOpView::Print(text) => Terminal {
                column: self.column + text.len(),
                texts: self.texts.insert(
                    (self.row, self.column),
                    Shown { text, bold: self.bold, reversed: self.reversed },
                ),
                ..self
            },
            DrawOpView::Prompt { text, cursor, column, row, width } => Terminal {
                prompt: Some(ShownPrompt { text, cursor, column, row, width }),
                ..self
            },
        }
    }

    /// The terminal after all of `ops` were done to it, one after the other.
    pub open spec fn after(self, ops: Seq<DrawOpView>) -> Terminal
        decreases ops.len(),
    {
        if ops.len() == 0 {
            self
        } else {
            self.after(ops.drop_last()).drawn(ops.last())
        }
    }

    /// Whether it prints plain text: neither bold nor reversed.
    pub open spec fn is_plain(self) -> bool {
        !self.bold && !self.reversed
    }

    /// Whether it shows `text` from the start of `row` on, set like this.
    pub open spec fn shows(self, row: int, text: Seq<char>, bold: bool, reversed: bool) -> bool {
        self.texts.contains_key((row, 0)) && self.texts[(row, 0)] == (Shown { text, bold, reversed })
    }
}

/// What is done last comes on top of all before it.
broadcast proof fn last_is_drawn_last(terminal: Terminal, ops: Seq<DrawOpView>, op: DrawOpView)
    ensures
        #[trigger] terminal.after(ops.push(op)) == terminal.after(ops).drawn(op),
{
    assert(ops.push(op).drop_last() == ops);
}

/// What is done in two parts is done in a row.
proof fn parts_are_drawn_in_a_row(
    terminal: Terminal,
    first: Seq<DrawOpView>,
    second: Seq<DrawOpView>,
)
    ensures
        terminal.after(first + second) == terminal.after(first).after(second),
    decreases second.len(),
{
    if second.len() == 0 {
        assert(first + second == first);
    } else {
        parts_are_drawn_in_a_row(terminal, first, second.drop_last());
        assert((first + second).drop_last() == first + second.drop_last());
    }
}

/// The texts of the terminal once a credential was drawn.
proof fn credential_is_shown(
    terminal: Terminal,
    credential: CredentialView,
    is_selected: bool,
    code: Option<Seq<char>>,
    width: int,
    row: int,
)
    requires
        terminal.is_plain(),
    ensures
        ({
            let after = terminal.after(credential_ops(credential, is_selected, code, width, row));
            let named = terminal.texts.insert(
                (row, 0),
                Shown {
                    text: fitted(credential.label(), width),
                    bold: true,
                    reversed: is_selected,
                },
            );
            &&& after.is_plain()
            &&& after.prompt == terminal.prompt
            &&& after.hidden == terminal.hidden
            &&& after.texts == match code {
                Some(text) => named.insert(
                    (row + 1, 0),
                    Shown { text: fitted(text, width), bold: false, reversed: is_selected },
                ),
                None => named,
            }
        }),
{
    broadcast use last_is_drawn_last;

    let none = Seq::<DrawOpView>::empty();
    let set = if is_selected {
        none.push(DrawOpView::Reverse)
    } else {
        none
    };
    let named = set.push(DrawOpView::Bold).push(DrawOpView::MoveTo { column: 0, row }).push(
        DrawOpView::Print(fitted(credential.label(), width)),
    ).push(DrawOpView::NormalIntensity);
    let coded = match code {
        Some(text) => named.push(DrawOpView::MoveTo { column: 0, row: row + 1 }).push(
            DrawOpView::Print(fitted(text, width)),
        ),
        None => named,
    };
    assert(terminal.after(none) == terminal);
    assert(credential_ops(credential, is_selected, code, width, row) == coded.push(
        DrawOpView::Reset,
    ));
}

/// Whether the credential in a slot, and its code where there is a row for it, are shown as they
/// should be.
spec fn slot_is_shown(
    terminal: Terminal,
    app: AppView,
    width: int,
    codes: Seq<Seq<char>>,
    slot: int,
) -> bool {
    let is_selected = app.scroll + slot == app.selected;
    let label = app.config.credentials[app.scroll + slot].label();
    &&& terminal.shows(2 + 3 * slot, fitted(label, width), true, is_selected)
    &&& slot < codes.len() ==> terminal.shows(
        3 + 3 * slot,
        fitted(codes[slot], width),
        false,
        is_selected,
    )
}

/// Whether two terminals show the same text, or none, at one place.
spec fn is_same(terminal: Terminal, other: Terminal, row: int, column: int) -> bool {
    &&& terminal.texts.contains_key((row, column)) == other.texts.contains_key((row, column))
    &&& terminal.texts.contains_key((row, column)) ==> terminal.texts[(row, column)]
        == other.texts[(row, column)]
}

/// Whether a place is the start of a row that shows something of the first slots.
spec fn is_slot_row(codes: Seq<Seq<char>>, slots: int, row: int, column: int) -> bool {
    &&& column == 0
    &&& 2 <= row < 2 + 3 * slots
    &&& row % 3 == 2 || row % 3 == 0 && row / 3 - 1 < codes.len()
}

/// The terminal once one slot more was drawn: it shows that slot, and has changed nowhere else.
proof fn slot_comes_on_top(
    terminal: Terminal,
    app: AppView,
    width: int,
    codes: Seq<Seq<char>>,
    slots: int,
)
    requires
        terminal.after(slots_ops(app, width, codes, slots - 1)).is_plain(),
        0 < slots,
    ensures
        ({
            let slot = slots - 1;
            let before = terminal.after(slots_ops(app, width, codes, slot));
            let after = terminal.after(slots_ops(app, width, codes, slots));
            &&& after.is_plain()
            &&& after.prompt == before.prompt
            &&& after.hidden == before.hidden
            &&& slot_is_shown(after, app, width, codes, slot)
            &&& forall|row: int, column: int|
                column != 0 || row != 2 + 3 * slot && row != 3 + 3 * slot ==> #[trigger] is_same(
                    after,
                    before,
                    row,
                    column,
                )
            &&& slot >= codes.len() ==> is_same(after, before, 3 + 3 * slot, 0)
        }),
{
    let slot = slots - 1;
    let earlier = slots_ops(app, width, codes, slot);
    let credential = app.config.credentials[app.scroll + slot];
    let is_selected = app.scroll + slot == app.selected;
    let code = if slot < codes.len() {
        Some(codes[slot])
    } else {
        None
    };
    let row = 2 + 3 * slot;
    let before = terminal.after(earlier);
    credential_is_shown(before, credential, is_selected, code, width, row);
    parts_are_drawn_in_a_row(
        terminal,
        earlier,
        credential_ops(credential, is_selected, code, width, row),
    );
    assert(terminal.after(slots_ops(app, width, codes, slots)) == before.after(
        credential_ops(credential, is_selected, code, width, row),
    ));
}

/// The terminal once the first slots were drawn: it shows them, and has changed nowhere else.
proof fn slots_are_shown(
    terminal: Terminal,
    app: AppView,
    width: int,
    codes: Seq<Seq<char>>,
    slots: int,
)
    requires
        terminal.is_plain(),
        0 <= slots,
    ensures
        ({
            let after = terminal.after(slots_ops(app, width, codes, slots));
            &&& after.is_plain()
            &&& after.prompt == terminal.prompt
            &&& after.hidden == terminal.hidden
            &&& forall|slot: int|
                0 <= slot < slots ==> #[trigger] slot_is_shown(after, app, width, codes, slot)
            &&& forall|row: int, column: int|
                !is_slot_row(codes, slots, row, column) ==> #[trigger] is_same(
                    after,
                    terminal,
                    row,
                    column,
                )
        }),
    decreases slots,
{
    let after = terminal.after(slots_ops(app, width, codes, slots));
    if slots > 0 {
        let last = slots - 1;
        let before = terminal.after(slots_ops(app, width, codes, last));
        slots_are_shown(terminal, app, width, codes, last);
        slot_comes_on_top(terminal, app, width, codes, slots);
        assert forall|slot: int| 0 <= slot < slots implies #[trigger] slot_is_shown(
            after,
            app,
            width,
            codes,
            slot,
        ) by {
            if slot < last {
                assert(slot_is_shown(before, app, width, codes, slot));
                assert(is_same(after, before, 2 + 3 * slot, 0));
                assert(is_same(after, before, 3 + 3 * slot, 0));
            }
        }
        assert forall|row: int, column: int|
            !is_slot_row(codes, slots, row, column) implies #[trigger] is_same(
            after,
            terminal,
            row,
            column,
        ) by {
            assert(!is_slot_row(codes, last, row, column));
            assert(is_same(before, terminal, row, column));
            if column == 0 && row == 2 + 3 * last {
                assert(is_slot_row(codes, slots, row, column));
            } else if column == 0 && row == 3 + 3 * last {
                assert(row % 3 == 0 && row / 3 - 1 == last);
                assert(last >= codes.len());
                assert(is_same(after, before, row, column));
            } else {
                assert(is_same(after, before, row, column));
            }
        }
    } else {
        assert(slots_ops(app, width, codes, slots) == Seq::<DrawOpView>::empty());
        assert(after == terminal);
    }
}

/// The terminal once the header and the rule under it were drawn on it.
proof fn header_is_shown(terminal: Terminal, app: AppView, width: int, height: int)
    requires
        terminal.is_plain(),
    ensures
        ({
            let start = seq![DrawOpView::Hide, DrawOpView::Clear];
            let after = terminal.after(start + header_ops(app, width, height));
            let header = Map::<(int, int), Shown>::empty().insert(
                (0, 0),
                Shown { text: fitted(header_text(app), width), bold: true, reversed: false },
            );
            &&& after.is_plain()
            &&& after.prompt is None
            &&& after.hidden
            &&& after.texts == if height > 1 {
                header.insert(
                    (1, 0),
                    Shown { text: repeated('\u{2500}', width), bold: false, reversed: false },
                )
            } else {
                header
            }
        }),
{
    broadcast use last_is_drawn_last;

    let none = Seq::<DrawOpView>::empty();
    let header = none.push(DrawOpView::Hide).push(DrawOpView::Clear).push(
        DrawOpView::MoveTo { column: 0, row: 0 },
    ).push(DrawOpView::Bold).push(DrawOpView::Print(fitted(header_text(app), width))).push(
        DrawOpView::Reset,
    );
    let ruled = header.push(DrawOpView::MoveTo { column: 0, row: 1 }).push(
        DrawOpView::Print(repeated('\u{2500}', width)),
    );
    let start = seq![DrawOpView::Hide, DrawOpView::Clear];
    assert(terminal.after(none) == terminal);
    if height > 1 {
        assert(start + header_ops(app, width, height) == ruled);
    } else {
        assert(start + header_ops(app, width, height) == header);
    }
}

/// The terminal once a text was drawn at the foot of it.
proof fn footer_is_shown(terminal: Terminal, text: Seq<char>, width: int, row: int)
    requires
        terminal.is_plain(),
    ensures
        ({
            let after = terminal.after(footer_ops(text, width, row));
            &&& after.is_plain()
            &&& after.prompt == terminal.prompt
            &&& after.hidden == terminal.hidden
            &&& after.texts == terminal.texts.insert(
                (row, 0),
                Shown { text: fitted(text, width), bold: true, reversed: false },
            )
        }),
{
    broadcast use last_is_drawn_last;

    let none = Seq::<DrawOpView>::empty();
    assert(terminal.after(none) == terminal);
    assert(footer_ops(text, width, row) == none.push(DrawOpView::MoveTo { column: 0, row }).push(
        DrawOpView::Bold,
    ).push(DrawOpView::Print(fitted(text, width))).push(DrawOpView::Reset));
}

/// A prompt asks its question, in bold type and as far as it fits, and its line stands behind that
/// in the cells that are left. Where none is left the line is not shown.
pub proof fn prompts_show_their_lines(
    terminal: Terminal,
    question: Seq<char>,
    line: Line,
    width: int,
    row: int,
)
    requires
        terminal.is_plain(),
        width >= 0,
    ensures
        ({
            let after = terminal.after(prompt_ops(question, line, width, row));
            let asked = if question.len() < width {
                safe(question)
            } else {
                safe(question).take(width)
            };
            &&& after.is_plain()
            &&& after.hidden == terminal.hidden
            &&& after.texts == terminal.texts.insert(
                (row, 0),
                Shown { text: asked, bold: true, reversed: false },
            )
            &&& question.len() < width ==> after.prompt == Some(
                ShownPrompt {
                    text: line.text,
                    cursor: line.cursor,
                    column: question.len() as int,
                    row,
                    width: width - question.len(),
                },
            )
            &&& question.len() >= width ==> after.prompt == terminal.prompt
        }),
{
    broadcast use last_is_drawn_last;

    let none = Seq::<DrawOpView>::empty();
    let taken = if question.len() < width {
        question.len() as int
    } else {
        width
    };
    let asked = none.push(DrawOpView::MoveTo { column: 0, row }).push(DrawOpView::Bold).push(
        DrawOpView::Print(safe(question).take(taken)),
    ).push(DrawOpView::Reset);
    assert(terminal.after(none) == terminal);
    if taken < width {
        assert(safe(question).take(taken) == safe(question));
        assert(prompt_ops(question, line, width, row) == asked.push(
            DrawOpView::Prompt {
                text: line.text,
                cursor: line.cursor,
                column: taken,
                row,
                width: width - taken,
            },
        ));
    } else {
        assert(prompt_ops(question, line, width, row) == asked);
    }
}

/// The terminal once the foot of the screen was drawn on it: one text more, at the start of the
/// last row.
proof fn foot_is_shown(terminal: Terminal, app: AppView, width: int, height: int)
    requires
        terminal.is_plain(),
        width >= 0,
    ensures
        ({
            let after = terminal.after(foot_ops(app, width, height));
            &&& after.is_plain()
            &&& after.hidden == terminal.hidden
            &&& after.texts.contains_key((height - 1, 0))
            &&& !after.texts[(height - 1, 0)].reversed
            &&& after.texts == terminal.texts.insert(
                (height - 1, 0),
                after.texts[(height - 1, 0)],
            )
        }),
{
    let row = height - 1;
    match app.mode {
        ModeView::Normal => footer_is_shown(terminal, normal_footer(app), width, row),
        ModeView::ConfirmDelete => footer_is_shown(terminal, delete_question(app), width, row),
        ModeView::Rename(line) => prompts_show_their_lines(
            terminal,
            "Rename: "@,
            line,
            width,
            row,
        ),
        ModeView::Add(line) => prompts_show_their_lines(
            terminal,
            "Add URL or image path: "@,
            line,
            width,
            row,
        ),
    }
}

/// The terminal once the body of the screen was drawn on it: nothing has changed outside of the
/// rows between the rule and the foot.
proof fn body_is_shown(
    terminal: Terminal,
    app: AppView,
    width: int,
    height: int,
    codes: Seq<Seq<char>>,
)
    requires
        terminal.is_plain(),
        app.is_sound(),
        codes.len() == app.code_count(height),
    ensures
        ({
            let after = terminal.after(body_ops(app, width, height, codes));
            &&& after.is_plain()
            &&& after.prompt == terminal.prompt
            &&& after.hidden == terminal.hidden
            &&& app.config.credentials.len() == 0 && height > 3 ==> after.texts
                == terminal.texts.insert(
                (2, 0),
                Shown {
                    text: fitted("No credentials. Press n to add one."@, width),
                    bold: false,
                    reversed: false,
                },
            )
            &&& app.config.credentials.len() > 0 || height <= 3 ==> after == terminal.after(
                slots_ops(app, width, codes, app.shown_count(height)),
            )
        }),
{
    broadcast use last_is_drawn_last;

    let none = Seq::<DrawOpView>::empty();
    assert(terminal.after(none) == terminal);
    if app.config.credentials.len() == 0 && height > 3 {
        assert(body_ops(app, width, height, codes) == none.push(
            DrawOpView::MoveTo { column: 0, row: 2 },
        ).push(DrawOpView::Print(fitted("No credentials. Press n to add one."@, width))));
    } else {
        slots_are_shown(terminal, app, width, codes, app.shown_count(height));
    }
}

/// The terminal once the whole screen was drawn on it, part by part.
proof fn frame_is_shown(
    terminal: Terminal,
    app: AppView,
    width: int,
    height: int,
    codes: Seq<Seq<char>>,
)
    requires
        width > 0,
        height > 0,
    ensures
        ({
            let start = seq![DrawOpView::Hide, DrawOpView::Clear];
            terminal.after(frame_ops(app, width, height, codes)) == terminal.after(
                start + header_ops(app, width, height),
            ).after(body_ops(app, width, height, codes)).after(foot_ops(app, width, height))
        }),
{
    let start = seq![DrawOpView::Hide, DrawOpView::Clear];
    let header = start + header_ops(app, width, height);
    let body = body_ops(app, width, height, codes);
    parts_are_drawn_in_a_row(terminal, header + body, foot_ops(app, width, height));
    parts_are_drawn_in_a_row(terminal, header, body);
}

/// The credentials from the first one on the screen on stand below each other, three rows apart and
/// as far as there is room above the foot: each is called by its issuer and its name, in bold
/// type, and its current code stands in the row below where there is one. The selected credential,
/// and no other, is drawn reversed: both its rows are, and nothing else on the screen is. Once the
/// screen was moved to the selection, that is on it. Nothing else stands between the rule and the
/// foot.
pub proof fn the_selected_credential_is_reversed(
    terminal: Terminal,
    app: AppView,
    width: int,
    height: int,
    codes: Seq<Seq<char>>,
)
    requires
        terminal.is_plain(),
        app.is_sound(),
        width > 0,
        height > 0,
        shows_codes(app, height, codes),
    ensures
        ({
            let after = terminal.after(frame_ops(app, width, height, codes));
            let credentials = app.config.credentials;
            &&& after.is_plain()
            &&& forall|slot: int|
                0 <= slot && app.scroll + slot < credentials.len() && height > 3 && (slot == 0 || 3
                    * slot + 5 <= height) ==> after.shows(
                    2 + 3 * slot,
                    fitted(
                        (#[trigger] credentials[app.scroll + slot]).issuer + ": "@
                            + credentials[app.scroll + slot].name,
                        width,
                    ),
                    true,
                    app.scroll + slot == app.selected,
                )
            &&& forall|slot: int|
                0 <= slot && app.scroll + slot < credentials.len() && 3 * slot + 5 <= height ==> {
                    &&& slot < codes.len()
                    &&& shows_code(codes[slot], #[trigger] credentials[app.scroll + slot])
                    &&& after.shows(
                        3 + 3 * slot,
                        fitted(codes[slot], width),
                        false,
                        app.scroll + slot == app.selected,
                    )
                }
            &&& forall|row: int, column: int|
                #[trigger] after.texts.contains_key((row, column)) && after.texts[(
                    row,
                    column,
                )].reversed ==> column == 0 && app.scroll <= app.selected && (row == 2 + 3 * (
                app.selected - app.scroll) || row == 3 + 3 * (app.selected - app.scroll))
            &&& forall|row: int, column: int|
                #[trigger] after.texts.contains_key((row, column)) && 2 <= row < height - 1
                    && credentials.len() > 0 ==> column == 0 && row % 3 != 1 && app.scroll + (row
                    - 2) / 3 < credentials.len()
            &&& credentials.len() > 0 && height > 3 && app.scrolled(height) == app ==> after.shows(
                2 + 3 * (app.selected - app.scroll),
                fitted(
                    credentials[app.selected].issuer + ": "@ + credentials[app.selected].name,
                    width,
                ),
                true,
                true,
            )
        }),
{
    let start = seq![DrawOpView::Hide, DrawOpView::Clear];
    let credentials = app.config.credentials;
    let first = terminal.after(start + header_ops(app, width, height));
    let second = first.after(body_ops(app, width, height, codes));
    let after = terminal.after(frame_ops(app, width, height, codes));
    let shown = app.shown_count(height);
    header_is_shown(terminal, app, width, height);
    body_is_shown(first, app, width, height, codes);
    foot_is_shown(second, app, width, height);
    frame_is_shown(terminal, app, width, height, codes);
    if credentials.len() > 0 || height <= 3 {
        slots_are_shown(first, app, width, codes, shown);
        assert forall|slot: int|
            0 <= slot && app.scroll + slot < credentials.len() && height > 3 && (slot == 0 || 3
                * slot + 5 <= height) implies after.shows(
            2 + 3 * slot,
            fitted(
                (#[trigger] credentials[app.scroll + slot]).issuer + ": "@ + credentials[app.scroll
                    + slot].name,
                width,
            ),
            true,
            app.scroll + slot == app.selected,
        ) by {
            assert(slot < shown);
            assert(slot_is_shown(second, app, width, codes, slot));
        }
        assert forall|slot: int|
            0 <= slot && app.scroll + slot < credentials.len() && 3 * slot + 5 <= height implies {
            &&& slot < codes.len()
            &&& shows_code(codes[slot], #[trigger] credentials[app.scroll + slot])
            &&& after.shows(
                3 + 3 * slot,
                fitted(codes[slot], width),
                false,
                app.scroll + slot == app.selected,
            )
        } by {
            assert(slot < shown && slot < codes.len());
            assert(shows_code(codes[slot], app.config.credentials[app.scroll + slot]));
            assert(slot_is_shown(second, app, width, codes, slot));
        }
        assert forall|row: int, column: int| #[trigger]
            after.texts.contains_key((row, column)) && after.texts[(
                row,
                column,
            )].reversed implies column == 0 && app.scroll <= app.selected && (row == 2 + 3 * (
        app.selected - app.scroll) || row == 3 + 3 * (app.selected - app.scroll)) by {
            assert((row, column) != (height - 1, 0int));
            assert(second.texts.contains_key((row, column)));
            if is_slot_row(codes, shown, row, column) {
                let slot = (row - 2) / 3;
                assert(0 <= slot < shown);
                assert(row == 2 + 3 * slot || row == 3 + 3 * slot && slot < codes.len());
                assert(slot_is_shown(second, app, width, codes, slot));
            } else {
                assert(is_same(second, first, row, column));
            }
        }
        assert forall|row: int, column: int| #[trigger]
            after.texts.contains_key((row, column)) && 2 <= row < height - 1 && credentials.len()
                > 0 implies column == 0 && row % 3 != 1 && app.scroll + (row - 2) / 3
            < credentials.len() by {
            assert(second.texts.contains_key((row, column)));
            if !is_slot_row(codes, shown, row, column) {
                assert(is_same(second, first, row, column));
            }
        }
        if credentials.len() > 0 && height > 3 && app.scrolled(height) == app {
            let slot = app.selected - app.scroll;
            let credential = credentials[app.scroll + slot];
            assert(app.scroll <= app.selected);
        }
    }
}

/// The cursor is hidden. The first row of the screen names the keys that are always there, with
/// what the user is told behind them while a prompt or a question is open; the second row is a
/// rule. Both are seen where there is a row for them above the foot. Where there are no
/// credentials the user is told how to add one.
pub proof fn heads_name_the_keys(
    terminal: Terminal,
    app: AppView,
    width: int,
    height: int,
    codes: Seq<Seq<char>>,
)
    requires
        terminal.is_plain(),
        app.is_sound(),
        width > 0,
        height > 0,
        shows_codes(app, height, codes),
    ensures
        ({
            let after = terminal.after(frame_ops(app, width, height, codes));
            let keys = "OTPC | q quit | n add | s scan screen"@;
            &&& after.hidden
            &&& height > 1 ==> after.shows(
                0,
                fitted(
                    if app.mode is Normal || app.message is None {
                        keys
                    } else {
                        keys + " | "@ + app.message.unwrap()
                    },
                    width,
                ),
                true,
                false,
            )
            &&& height > 2 ==> {
                &&& after.texts.contains_key((1, 0))
                &&& after.texts[(1, 0)].text.len() == width
                &&& forall|i: int|
                    0 <= i < width ==> #[trigger] after.texts[(1, 0)].text[i] == '\u{2500}'
            }
            &&& height > 3 && app.config.credentials.len() == 0 ==> after.shows(
                2,
                fitted("No credentials. Press n to add one."@, width),
                false,
                false,
            )
        }),
{
    let start = seq![DrawOpView::Hide, DrawOpView::Clear];
    let first = terminal.after(start + header_ops(app, width, height));
    let second = first.after(body_ops(app, width, height, codes));
    header_is_shown(terminal, app, width, height);
    body_is_shown(first, app, width, height, codes);
    foot_is_shown(second, app, width, height);
    frame_is_shown(terminal, app, width, height, codes);
    if app.config.credentials.len() > 0 || height <= 3 {
        slots_are_shown(first, app, width, codes, app.shown_count(height));
        assert(is_same(second, first, 0, 0));
        assert(is_same(second, first, 1, 0));
    }
}

/// The last row of the screen names the keys for the selected credential, and what the user is
/// told; while a question or a prompt is open, it is that: whether to delete the selected
/// credential, what it is to be called, or what to add, with the line that was entered so far.
pub proof fn feet_ask_and_tell(
    terminal: Terminal,
    app: AppView,
    width: int,
    height: int,
    codes: Seq<Seq<char>>,
)
    requires
        terminal.is_plain(),
        app.is_sound(),
        width > 0,
        height > 0,
        shows_codes(app, height, codes),
    ensures
        ({
            let after = terminal.after(frame_ops(app, width, height, codes));
            let keys = "[enter] copy | d delete | r rename"@;
            let row = height - 1;
            let is_empty = app.config.credentials.len() == 0;
            let selected = app.config.credentials[app.selected];
            &&& app.mode is Normal || app.mode is ConfirmDelete ==> after.prompt is None
            &&& app.mode is Normal && !is_empty && app.message is None ==> after.shows(
                row,
                fitted(keys, width),
                true,
                false,
            )
            &&& app.mode is Normal && !is_empty ==> (app.message matches Some(told) ==> after.shows(
                row,
                fitted(keys + " | "@ + told, width),
                true,
                false,
            ))
            &&& app.mode is Normal && is_empty && app.message is None ==> after.shows(
                row,
                fitted(Seq::empty(), width),
                true,
                false,
            )
            &&& app.mode is Normal && is_empty ==> (app.message matches Some(told) ==> after.shows(
                row,
                fitted(told, width),
                true,
                false,
            ))
            &&& app.mode is ConfirmDelete && !is_empty ==> after.shows(
                row,
                fitted(
                    "Delete "@ + (selected.issuer + ": "@ + selected.name) + "? (y/n)"@,
                    width,
                ),
                true,
                false,
            )
            &&& app.mode is ConfirmDelete && is_empty ==> after.shows(
                row,
                fitted("Delete "@ + "? (y/n)"@, width),
                true,
                false,
            )
            &&& app.mode matches ModeView::Rename(line) ==> asks(
                after,
                "Rename: "@,
                line,
                width,
                row,
            )
            &&& app.mode matches ModeView::Add(line) ==> asks(
                after,
                "Add URL or image path: "@,
                line,
                width,
                row,
            )
        }),
{
    let start = seq![DrawOpView::Hide, DrawOpView::Clear];
    let row = height - 1;
    let first = terminal.after(start + header_ops(app, width, height));
    let second = first.after(body_ops(app, width, height, codes));
    header_is_shown(terminal, app, width, height);
    body_is_shown(first, app, width, height, codes);
    frame_is_shown(terminal, app, width, height, codes);
    if app.config.credentials.len() > 0 || height <= 3 {
        slots_are_shown(first, app, width, codes, app.shown_count(height));
    }
    match app.mode {
        ModeView::Normal => footer_is_shown(second, normal_footer(app), width, row),
        ModeView::ConfirmDelete => {
            footer_is_shown(second, delete_question(app), width, row);
            assert("Delete "@ + Seq::empty() + "? (y/n)"@ == "Delete "@ + "? (y/n)"@);
        },
        ModeView::Rename(line) => {
            prompts_show_their_lines(second, "Rename: "@, line, width, row);
        },
        ModeView::Add(line) => {
            prompts_show_their_lines(second, "Add URL or image path: "@, line, width, row);
        },
    }
}

/// Whether a terminal asks a question in `row`, as far as it fits, with the line of a prompt behind
/// it in the cells that are left.
pub open spec fn asks(
    terminal: Terminal,
    question: Seq<char>,
    line: Line,
    width: int,
    row: int,
) -> bool {
    if question.len() < width {
        &&& terminal.shows(row, safe(question), true, false)
        &&& terminal.prompt == Some(
            ShownPrompt {
                text: line.text,
                cursor: line.cursor,
                column: question.len() as int,
                row,
                width: width - question.len(),
            },
        )
    } else {
        terminal.shows(row, safe(question).take(width), true, false) && terminal.prompt is None
    }
}

/// A screen without cells is left empty.
pub proof fn screens_without_cells_stay_empty(
    terminal: Terminal,
    app: AppView,
    width: int,
    height: int,
    codes: Seq<Seq<char>>,
)
    requires
        width == 0 || height == 0,
    ensures
        terminal.after(frame_ops(app, width, height, codes)).hidden,
        terminal.after(frame_ops(app, width, height, codes)).texts.dom().is_empty(),
        terminal.after(frame_ops(app, width, height, codes)).prompt is None,
{
    broadcast use last_is_drawn_last;

    let none = Seq::<DrawOpView>::empty();
    assert(terminal.after(none) == terminal);
    assert(frame_ops(app, width, height, codes) == none.push(DrawOpView::Hide).push(
        DrawOpView::Clear,
    ));
}

/// The screen moves no more than it has to for the selection to be on it: it stays where it shows
/// the selection already; it begins with the selection where that lies above; and where that lies
/// below, it ends with it, in that no further credential has room. Nothing but the first
/// credential on the screen changes.
pub proof fn screens_move_no_more_than_needed(app: AppView, height: int)
    requires
        app.is_sound(),
        height >= 0,
    ensures
        ({
            let moved = app.scrolled(height);
            let place = app.selected - moved.scroll;
            &&& moved == AppView { scroll: moved.scroll, ..app }
            &&& place == 0 || 0 < place && 3 * place + 5 <= height
            &&& app.scroll > app.selected ==> place == 0
            &&& app.scroll == app.selected ==> moved.scroll == app.scroll
            &&& app.scroll < app.selected && 3 * (app.selected - app.scroll) + 5 <= height
                ==> moved.scroll == app.scroll
            &&& app.scroll < app.selected && 3 * (app.selected - app.scroll) + 5 > height ==> 3 * (
            place + 1) + 5 > height
        }),
{
}

/// A screen cannot be drawn where a credential whose code it would show asks for a code that cannot
/// be computed, and only there. It shows the code of each credential with a second row above the
/// foot.
pub proof fn uncomputable_codes_are_those_on_the_screen(app: AppView, height: int)
    requires
        app.is_sound(),
        height >= 0,
    ensures
        has_uncomputable(app, height) <==> exists|index: int|
            {
                &&& app.scroll <= index < app.config.credentials.len()
                &&& 3 * (index - app.scroll) + 5 <= height
                &&& uncomputable_url((#[trigger] app.config.credentials[index]).url)
            },
{
    if has_uncomputable(app, height) {
        let slot = choose|slot: int|
            0 <= slot < app.code_count(height) && uncomputable_url(
                (#[trigger] app.config.credentials[app.scroll + slot]).url,
            );
        let index = app.scroll + slot;
        assert(uncomputable_url(app.config.credentials[index].url));
        assert(3 * (index - app.scroll) + 5 <= height);
    }
    assert forall|index: int|
        {
            &&& app.scroll <= index < app.config.credentials.len()
            &&& 3 * (index - app.scroll) + 5 <= height
            &&& uncomputable_url((#[trigger] app.config.credentials[index]).url)
        } implies has_uncomputable(app, height) by {
        let slot = index - app.scroll;
        assert(slot < app.code_count(height));
        assert(uncomputable_url(app.config.credentials[app.scroll + slot].url));
    }
}

/// What is drawn stands for itself, thing by thing.
pub proof fn drawn_values_are_those_of_the_fields(text: String, column: u16, row: u16)
    ensures
        DrawOp::Print(text)@ == DrawOpView::Print(text@),
        (DrawOp::MoveTo { column, row })@ == (DrawOpView::MoveTo {
            column: column as int,
            row: row as int,
        }),
        DrawOp::Hide@ is Hide,
        DrawOp::Clear@ is Clear,
        DrawOp::Bold@ is Bold,
        DrawOp::Reverse@ is Reverse,
        DrawOp::NormalIntensity@ is NormalIntensity,
        DrawOp::Reset@ is Reset,
{
}

/// Whatever was drawn before, the selected credential is on the screen that is drawn, reversed and
/// called by its issuer and its name, wherever the screen begins; and no other credential that is
/// on it is reversed.
pub proof fn drawn_screens_mark_the_selection(
    terminal: Terminal,
    app: &mut App,
    width: u16,
    height: u16,
    ops: Option<Vec<DrawOp>>,
)
    requires
        call_ensures(draw, (app, width, height), ops),
        terminal.is_plain(),
        old(app)@.is_sound(),
        width > 0,
        height > 3,
        old(app).config.credentials@.len() > 0,
    ensures
        final(app)@ == (AppView { scroll: final(app).scroll as int, ..old(app)@ }),
        ops matches Some(list) ==> ({
            let after = terminal.after(views(list@));
            let credentials = final(app).config.credentials@;
            let scroll = final(app).scroll as int;
            let selected = final(app).selected as int;
            &&& after.is_plain()
            &&& scroll <= selected
            &&& after.shows(
                2 + 3 * (selected - scroll),
                fitted(
                    credentials[selected].issuer@ + ": "@ + credentials[selected].name@,
                    width as int,
                ),
                true,
                true,
            )
            &&& forall|slot: int|
                0 <= slot && scroll + slot < credentials.len() && (slot == 0 || 3 * slot + 5
                    <= height) ==> after.shows(
                    2 + 3 * slot,
                    fitted(
                        (#[trigger] credentials[scroll + slot]).issuer@ + ": "@
                            + credentials[scroll + slot].name@,
                        width as int,
                    ),
                    true,
                    scroll + slot == selected,
                )
            &&& forall|row: int, column: int|
                #[trigger] after.texts.contains_key((row, column)) && after.texts[(
                    row,
                    column,
                )].reversed ==> column == 0 && (row == 2 + 3 * (selected - scroll) || row == 3 + 3
                    * (selected - scroll))
        }),
{
    if let Some(list) = ops {
        let drawn = final(app)@;
        let codes = choose|codes: Seq<Seq<char>>| #[trigger]
            shows_codes(drawn, height as int, codes) && views(list@) == frame_ops(
                drawn,
                width as int,
                height as int,
                codes,
            );
        let credentials = final(app).config.credentials@;
        let scroll = final(app).scroll as int;
        let after = terminal.after(views(list@));
        assert(drawn.config.credentials.len() == credentials.len());
        selection_is_on_the_screen(old(app)@, height as int);
        the_selected_credential_is_reversed(terminal, drawn, width as int, height as int, codes);
        assert(drawn.config.credentials[drawn.selected] == credentials[drawn.selected]@);
        assert forall|slot: int|
            0 <= slot && scroll + slot < credentials.len() && (slot == 0 || 3 * slot + 5
                <= height) implies after.shows(
            2 + 3 * slot,
            fitted(
                (#[trigger] credentials[scroll + slot]).issuer@ + ": "@ + credentials[scroll
                    + slot].name@,
                width as int,
            ),
            true,
            scroll + slot == final(app).selected,
        ) by {
            assert(drawn.config.credentials[drawn.scroll + slot] == credentials[scroll + slot]@);
        }
    }
}

} // verus!
