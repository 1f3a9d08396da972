//! Completing a path at the cursor of a prompt.
use crate::candidates::{CompletionCandidate, CompletionCandidateView, DirectoryEntry};
use crate::config::views;
use crate::otpauth::{is_credential_url, names_credentials};
use crate::paths::{
    components_have_a_last, find_last_component, gap_holds_no_component, is_component, is_gap,
    is_last_component, last_component, last_component_is_a_component, last_component_is_known,
    SEPARATOR,
};
use crate::prompt::{cursor, fresh_line, line, new_input, value, with_cursor, Line};
use crate::text::{chars_of, decimal, push_decimal};
use tui_input::Input;
use vstd::prelude::*;
use vstd::string::StrSliceExecFns;
use vstd::string::StringExecFns;
use vstd::utf8::{decode_utf8, encode_utf8, is_char_boundary};

verus! {

/// Where to look for the ways in which a text continues as a path.
#[derive(Debug)]
pub struct CompletionQuery {
    /// The directory to list.
    pub directory: String,
    /// What the names in it have to begin with.
    pub prefix: String,
    /// What a completed text keeps before a name.
    pub base: String,
    /// What a completed text keeps behind a name.
    pub after: String,
}

/// Where to look for the ways in which a text continues as a path, as a value.
#[verifier::ext_equal]
pub struct CompletionQueryView {
    pub directory: Seq<char>,
    pub prefix: Seq<char>,
    pub base: Seq<char>,
    pub after: Seq<char>,
}

impl View for CompletionQuery {
    type V = CompletionQueryView;

    open spec fn view(&self) -> CompletionQueryView {
        CompletionQueryView {
            directory: self.directory@,
            prefix: self.prefix@,
            base: self.base@,
            after: self.after@,
        }
    }
}

/// The name of the last component of a path; nothing where there is none or it is `..`.
pub open spec fn file_name(path: Seq<char>) -> Seq<char> {
    match last_component(path) {
        Some(span) => {
            let name = path.subrange(span.0, span.1);
            if name == seq!['.', '.'] {
                Seq::empty()
            } else {
                name
            }
        },
        None => Seq::empty(),
    }
}

/// The directory that holds the last component of a path: the current one where the path names
/// none.
pub open spec fn parent_directory(path: Seq<char>) -> Seq<char> {
    match last_component(path) {
        Some(span) if span.0 > 0 => match last_component(path.take(span.0)) {
            Some(parent) => path.take(parent.1),
            None => path.take(1),
        },
        _ => seq!['.'],
    }
}

/// How many bytes of `path` are left when those of `name` are taken off its end.
pub open spec fn bytes_before(path: Seq<char>, name: Seq<char>) -> int {
    encode_utf8(path).len() - encode_utf8(name).len()
}

/// The first `count` bytes of a text, as a text.
pub open spec fn first_bytes(text: Seq<char>, count: int) -> Seq<char> {
    decode_utf8(encode_utf8(text).subrange(0, count))
}

/// Whether taking the bytes of the last component's name off the end of `path` cuts a character
/// in two. The name reaches the end of the path unless components `.` follow it.
pub open spec fn cuts_a_character(path: Seq<char>) -> bool {
    &&& path.len() > 0
    &&& path.last() != SEPARATOR
    &&& !is_char_boundary(encode_utf8(path), bytes_before(path, file_name(path)))
}

/// Where to look for the ways in which `before` continues as a path, with `after` behind it.
pub open spec fn path_query(before: Seq<char>, after: Seq<char>) -> CompletionQueryView {
    if before.len() == 0 {
        CompletionQueryView { directory: seq!['.'], prefix: before, base: before, after }
    } else if before.last() == SEPARATOR {
        CompletionQueryView { directory: before, prefix: Seq::empty(), base: before, after }
    } else {
        CompletionQueryView {
            directory: parent_directory(before),
            prefix: file_name(before),
            base: first_bytes(before, bytes_before(before, file_name(before))),
            after,
        }
    }
}

/// Where to look for the ways in which a line continues at its cursor. A URL that names
/// credentials is no path.
pub open spec fn line_query(line: Line) -> Option<CompletionQueryView> {
    let before = line.text.take(line.cursor as int);
    if is_credential_url(before) {
        None
    } else {
        Some(path_query(before, line.text.skip(line.cursor as int)))
    }
}

/// Whether a line cannot be completed because the cut before the name would split a character.
pub open spec fn is_uncuttable(line: Line) -> bool {
    let before = line.text.take(line.cursor as int);
    !is_credential_url(before) && cuts_a_character(before)
}

/// The name of the last component of a path.
fn find_file_name(path: &str) -> (name: String)
    ensures
        name@ == file_name(path@),
{
    let chars = chars_of(path);
    assert(path@.take(path@.len() as int) == path@);
    match find_last_component(&chars, chars.len()) {
        Some((start, end)) => {
            if end - start == 2 && chars[start] == '.' && chars[start + 1] == '.' {
                assert(path@.subrange(start as int, end as int) == seq!['.', '.']);
                String::new()
            } else {
                proof {
                    let name = path@.subrange(start as int, end as int);
                    if name == seq!['.', '.'] {
                        assert(name.len() == 2 && name[0] == '.' && name[1] == '.');
                        assert(name[0] == chars@[start as int] && name[1] == chars@[start + 1]);
                    }
                }
                path.substring_char(start, end).to_owned()
            }
        },
        None => String::new(),
    }
}

/// The directory that holds the last component of a path.
fn find_parent_directory(path: &str) -> (directory: String)
    ensures
        directory@ == parent_directory(path@),
{
    let chars = chars_of(path);
    assert(path@.take(path@.len() as int) == path@);
    if let Some((start, _)) = find_last_component(&chars, chars.len()) {
        if start > 0 {
            return match find_last_component(&chars, start) {
                Some((_, end)) => {
                    assert(path@.subrange(0, end as int) == path@.take(end as int));
                    path.substring_char(0, end).to_owned()
                },
                None => {
                    assert(path@.subrange(0, 1) == path@.take(1));
                    path.substring_char(0, 1).to_owned()
                },
            };
        }
    }
    proof {
        reveal_strlit(".");
        assert("."@ == seq!['.']);
    }
    ".".to_owned()
}

/// The bytes of the name of a path's last component, at most as many as those of the path.
proof fn file_name_is_shorter(path: Seq<char>)
    ensures
        encode_utf8(file_name(path)).len() <= encode_utf8(path).len(),
{
    match last_component(path) {
        Some(span) => {
            last_component_is_a_component(path);
            let name = path.subrange(span.0, span.1);
            assert(path == path.take(span.0) + name + path.skip(span.1));
            encoding_distributes(path.take(span.0) + name, path.skip(span.1));
            encoding_distributes(path.take(span.0), name);
        },
        None => {},
    }
}

/// The encoding of two texts in a row is that of the one before that of the other.
proof fn encoding_distributes(first: Seq<char>, second: Seq<char>)
    ensures
        encode_utf8(first + second) == encode_utf8(first) + encode_utf8(second),
    decreases first.len(),
{
    if first.len() == 0 {
        assert(first + second == second);
    } else {
        assert((first + second).drop_first() == first.drop_first() + second);
        encoding_distributes(first.drop_first(), second);
    }
}

/// Whether the line of `input` cannot be completed because the cut before the name would split
/// a character.
pub fn uncuttable(input: &Input) -> (found: bool)
    ensures
        found == is_uncuttable(line(*input)),
{
    let text = value(input);
    let at: usize = cursor(input);
    let before = text.substring_char(0, at);
    assert(before@ == text@.take(at as int));
    if names_credentials(before) || before.is_empty() || before.get_char(before.unicode_len() - 1)
        == SEPARATOR {
        return false;
    }
    let name = find_file_name(before);
    proof {
        file_name_is_shorter(before@);
    }
    let kept: usize = before.as_bytes().len() - name.as_str().as_bytes().len();
    !before.is_char_boundary(kept)
}

/// Where to look for the ways in which the line of `input` continues at its cursor; nothing where
/// it is a URL that names credentials.
pub fn completion_query(input: &Input) -> (query: Option<CompletionQuery>)
    requires
        !is_uncuttable(line(*input)),
    ensures
        match line_query(line(*input)) {
            Some(wanted) => query matches Some(found) && found@ == wanted,
            None => query is None,
        },
{
    let text = value(input);
    let at: usize = cursor(input);
    let length: usize = text.unicode_len();
    let before = text.substring_char(0, at);
    assert(before@ == text@.take(at as int));
    if names_credentials(before) {
        return None;
    }
    let after = text.substring_char(at, length).to_owned();
    assert(after@ == text@.skip(at as int));
    if before.is_empty() {
        proof {
            reveal_strlit(".");
            assert("."@ == seq!['.']);
        }
        return Some(
            CompletionQuery {
                directory: ".".to_owned(),
                prefix: before.to_owned(),
                base: before.to_owned(),
                after,
            },
        );
    }
    if before.get_char(before.unicode_len() - 1) == SEPARATOR {
        return Some(
            CompletionQuery {
                directory: before.to_owned(),
                prefix: String::new(),
                base: before.to_owned(),
                after,
            },
        );
    }
    let prefix = find_file_name(before);
    let directory = find_parent_directory(before);
    proof {
        file_name_is_shorter(before@);
    }
    let kept: usize = before.as_bytes().len() - prefix.as_str().as_bytes().len();
    let (base, _) = before.split_at(kept);
    proof {
        vstd::utf8::encode_utf8_decode_utf8(base@);
    }
    Some(CompletionQuery { directory, prefix, base: base.to_owned(), after })
}

/// The end of the encoding of `first` is no place inside a character.
proof fn encoding_ends_at_a_boundary(first: Seq<char>, second: Seq<char>)
    ensures
        is_char_boundary(encode_utf8(first + second), encode_utf8(first).len() as int),
    decreases first.len(),
{
    vstd::utf8::encode_utf8_valid_utf8(first + second);
    if first.len() > 0 {
        let whole = first + second;
        vstd::utf8::encode_utf8_first_scalar(whole);
        assert(whole.drop_first() == first.drop_first() + second);
        assert(vstd::utf8::pop_first_scalar(encode_utf8(whole)) == encode_utf8(whole.drop_first()));
        encoding_ends_at_a_boundary(first.drop_first(), second);
        encoding_distributes(first, second);
    }
}

/// Where no component `.` follows the name that is completed, the cut before it splits no
/// character, and what a completed text keeps, followed by the name, is the text itself.
pub proof fn completion_keeps_what_stands_before_the_name(before: Seq<char>, after: Seq<char>)
    requires
        last_component(before) matches Some(span) ==> span.1 == before.len() || file_name(
            before,
        ).len() == 0,
    ensures
        !cuts_a_character(before),
        path_query(before, after).base + path_query(before, after).prefix == before,
        path_query(before, after).after == after,
{
    last_component_is_a_component(before);
    let name = file_name(before);
    let kept = before.take(before.len() - name.len());
    assert(name == before.skip(before.len() - name.len())) by {
        if name.len() > 0 {
            let span = last_component(before).unwrap();
            assert(before.subrange(span.0, span.1) == before.skip(span.0));
        }
    }
    assert(before == kept + name);
    encoding_distributes(kept, name);
    encoding_ends_at_a_boundary(kept, name);
    assert(encode_utf8(before).subrange(0, encode_utf8(kept).len() as int) == encode_utf8(kept));
    vstd::utf8::encode_utf8_decode_utf8(kept);
    assert(before + Seq::<char>::empty() == before);
}

/// The candidates that a prompt goes through, and which of them it shows.
#[derive(Debug)]
pub struct PathCompletion {
    pub candidates: Vec<CompletionCandidate>,
    pub index: usize,
}

/// The candidates that a prompt goes through, and which of them it shows, as a value.
#[verifier::ext_equal]
pub struct PathCompletionView {
    pub candidates: Seq<CompletionCandidateView>,
    pub index: int,
}

impl View for PathCompletion {
    type V = PathCompletionView;

    open spec fn view(&self) -> PathCompletionView {
        PathCompletionView { candidates: views(self.candidates@), index: self.index as int }
    }
}

/// A completion that may be under way, as a value.
pub open spec fn completion_view(completion: Option<PathCompletion>) -> Option<
    PathCompletionView,
> {
    match completion {
        Some(state) => Some(state@),
        None => None,
    }
}

impl PathCompletionView {
    /// One of the candidates is shown.
    pub open spec fn is_sound(self) -> bool {
        0 <= self.index < self.candidates.len()
    }

    /// The start of a round through candidates: at the first, or backwards at the last.
    pub open spec fn start(
        candidates: Seq<CompletionCandidateView>,
        backwards: bool,
    ) -> PathCompletionView {
        PathCompletionView {
            candidates,
            index: if backwards {
                candidates.len() - 1
            } else {
                0
            },
        }
    }

    /// The next candidate, or backwards the previous one; the first follows the last.
    pub open spec fn moved(self, backwards: bool) -> PathCompletionView {
        PathCompletionView {
            candidates: self.candidates,
            index: if backwards {
                if self.index == 0 {
                    self.candidates.len() - 1
                } else {
                    self.index - 1
                }
            } else {
                if self.index + 1 == self.candidates.len() {
                    0
                } else {
                    self.index + 1
                }
            },
        }
    }

    /// The line that shows the candidate.
    pub open spec fn shown(self) -> Line {
        let candidate = self.candidates[self.index];
        fresh_line(
            candidate.value,
            if candidate.cursor <= candidate.value.len() {
                candidate.cursor
            } else {
                candidate.value.len()
            },
        )
    }

    /// What the user is told of it.
    pub open spec fn message(self) -> Seq<char> {
        "Path match "@ + decimal((self.index + 1) as nat) + "/"@ + decimal(self.candidates.len())
    }

    /// Whether the only candidate is a directory that the line shows to its end, so that a further
    /// step goes into it.
    pub open spec fn leads_into(self, line: Line) -> bool {
        &&& self.candidates.len() == 1
        &&& line.text == self.candidates[0].value
        &&& line.cursor == self.candidates[0].cursor
        &&& line.cursor == line.text.len()
        &&& line.text.len() > 0 && line.text.last() == SEPARATOR
    }
}

/// Whether a step lists a directory: at the start, and where it goes into the only match.
pub open spec fn needs_listing(line: Line, completion: Option<PathCompletionView>) -> bool {
    match completion {
        None => true,
        Some(state) => state.leads_into(line),
    }
}

/// What a step of completing a path comes to.
#[derive(Debug)]
pub enum CompletionStep {
    /// It is done; the user is told of the match, if there is one.
    Done(Option<String>),
    /// The directory has to be listed first.
    List(CompletionQuery),
}

/// What a step of completing a path comes to, as a value: the line, the completion under way, and
/// what is asked for or told.
#[verifier::ext_equal]
pub enum CompletionStepView {
    Done { line: Line, completion: Option<PathCompletionView>, message: Option<Seq<char>> },
    List(CompletionQueryView),
}

/// What offering candidates comes to.
pub open spec fn offered(
    line: Line,
    candidates: Seq<CompletionCandidateView>,
    backwards: bool,
) -> CompletionStepView {
    if candidates.len() == 0 {
        CompletionStepView::Done { line, completion: None, message: None }
    } else {
        let state = PathCompletionView::start(candidates, backwards);
        CompletionStepView::Done {
            line: state.shown(),
            completion: Some(state),
            message: Some(state.message()),
        }
    }
}

/// What a step of completing a path comes to.
pub open spec fn completion_step(
    line: Line,
    completion: Option<PathCompletionView>,
    backwards: bool,
) -> CompletionStepView {
    if needs_listing(line, completion) {
        match line_query(line) {
            Some(query) => CompletionStepView::List(query),
            None => offered(line, Seq::empty(), backwards),
        }
    } else {
        let state = completion.unwrap().moved(backwards);
        CompletionStepView::Done {
            line: state.shown(),
            completion: Some(state),
            message: Some(state.message()),
        }
    }
}

/// The input that shows a candidate.
fn show_candidate(candidate: &CompletionCandidate) -> (input: Input)
    ensures
        line(input) == (PathCompletionView { candidates: seq![candidate@], index: 0 }).shown(),
{
    with_cursor(new_input(candidate.value.clone()), candidate.cursor)
}

impl PathCompletion {
    /// What the user is told of the candidate that is shown.
    fn message(&self) -> (text: String)
        requires
            self@.is_sound(),
        ensures
            text@ == self@.message(),
    {
        let mut text = "Path match ".to_owned();
        assert(self.index < self.candidates.len());
        push_decimal(&mut text, (self.index + 1) as u64);
        text.append("/");
        push_decimal(&mut text, self.candidates.len() as u64);
        text
    }

    /// Whether the only candidate is a directory that `input` shows to its end.
    fn leads_into(&self, input: &Input) -> (leads: bool)
        ensures
            leads == self@.leads_into(line(*input)),
    {
        if self.candidates.len() != 1 {
            return false;
        }
        assert(self@.candidates[0] == self.candidates@[0]@);
        let text = value(input);
        let length: usize = text.unicode_len();
        text.to_owned() == self.candidates[0].value && cursor(input) == self.candidates[0].cursor
            && cursor(input) == length && length > 0 && text.get_char(length - 1) == SEPARATOR
    }
}

/// Whether a step lists a directory.
pub fn listing_needed(input: &Input, completion: &Option<PathCompletion>) -> (needed: bool)
    ensures
        needed == needs_listing(line(*input), completion_view(*completion)),
{
    match completion {
        None => true,
        Some(state) => state.leads_into(input),
    }
}

/// Offers the candidates of a listed directory: shows the first, or backwards the last. Where
/// there is none, no completion is under way any more.
pub fn offer_candidates(
    input: &mut Input,
    completion: &mut Option<PathCompletion>,
    backwards: bool,
    candidates: Vec<CompletionCandidate>,
) -> (message: Option<String>)
    ensures
        offered(line(*old(input)), views(candidates@), backwards) == (CompletionStepView::Done {
            line: line(*final(input)),
            completion: completion_view(*final(completion)),
            message: match message {
                Some(text) => Some(text@),
                None => None,
            },
        }),
{
    let ghost all = views(candidates@);
    if candidates.len() == 0 {
        *completion = None;
        return None;
    }
    let index: usize = if backwards {
        candidates.len() - 1
    } else {
        0
    };
    *input = show_candidate(&candidates[index]);
    let state = PathCompletion { candidates, index };
    assert(state@ == PathCompletionView::start(all, backwards));
    assert(all[index as int] == candidates@[index as int]@);
    let message = state.message();
    *completion = Some(state);
    Some(message)
}

/// Goes to the next candidate, or backwards to the previous one. Where none is under way, or the
/// only one is a directory that can be entered, the directory has to be listed first.
pub fn cycle_path_completion(
    input: &mut Input,
    completion: &mut Option<PathCompletion>,
    backwards: bool,
) -> (step: CompletionStep)
    requires
        *old(completion) matches Some(state) ==> state@.is_sound(),
        needs_listing(line(*old(input)), completion_view(*old(completion))) ==> !is_uncuttable(
            line(*old(input)),
        ),
    ensures
        match completion_step(
            line(*old(input)),
            completion_view(*old(completion)),
            backwards,
        ) {
            CompletionStepView::List(query) => {
                &&& step matches CompletionStep::List(found)
                &&& found@ == query
                &&& *final(input) == *old(input)
                &&& *final(completion) == *old(completion)
            },
            done => {
                &&& step matches CompletionStep::Done(message)
                &&& done == (CompletionStepView::Done {
                    line: line(*final(input)),
                    completion: completion_view(*final(completion)),
                    message: match message {
                        Some(text) => Some(text@),
                        None => None,
                    },
                })
            },
        },
{
    if listing_needed(input, completion) {
        return match completion_query(input) {
            Some(query) => CompletionStep::List(query),
            None => {
                *completion = None;
                CompletionStep::Done(None)
            },
        };
    }
    match completion.take() {
        None => CompletionStep::Done(None),
        Some(state) => {
            let ghost before = state@;
            let length: usize = state.candidates.len();
            let index: usize = if backwards {
                if state.index == 0 {
                    length - 1
                } else {
                    state.index - 1
                }
            } else if state.index + 1 == length {
                0
            } else {
                state.index + 1
            };
            let state = PathCompletion { candidates: state.candidates, index };
            assert(state@ == before.moved(backwards));
            assert(state@.candidates[index as int] == state.candidates@[index as int]@);
            *input = show_candidate(&state.candidates[index]);
            let message = state.message();
            *completion = Some(state);
            CompletionStep::Done(Some(message))
        },
    }
}

/// A step forward and one back, in either order, lead back to the candidate that was shown, and
/// every step shows one of the candidates.
pub proof fn steps_undo_each_other(state: PathCompletionView, backwards: bool)
    requires
        state.is_sound(),
    ensures
        state.moved(backwards).is_sound(),
        state.moved(backwards).moved(!backwards) == state,
{
}

/// The state after a number of steps in one direction.
pub open spec fn moved_on(
    state: PathCompletionView,
    backwards: bool,
    steps: nat,
) -> PathCompletionView
    decreases steps,
{
    if steps == 0 {
        state
    } else {
        moved_on(state, backwards, (steps - 1) as nat).moved(backwards)
    }
}

/// Steps go round in either direction: as many of them as there are candidates lead back to the
/// one that was shown, past all others.
pub proof fn steps_go_round(state: PathCompletionView, backwards: bool, steps: nat)
    requires
        state.is_sound(),
        steps <= state.candidates.len(),
    ensures
        moved_on(state, backwards, steps).candidates == state.candidates,
        !backwards ==> moved_on(state, backwards, steps).index == (if state.index + steps
            < state.candidates.len() {
            state.index + steps
        } else {
            state.index + steps - state.candidates.len()
        }),
        backwards ==> moved_on(state, backwards, steps).index == (if steps <= state.index {
            state.index - steps
        } else {
            state.index - steps + state.candidates.len()
        }),
        steps == state.candidates.len() ==> moved_on(state, backwards, steps) == state,
    decreases steps,
{
    if steps > 0 {
        steps_go_round(state, backwards, (steps - 1) as nat);
    }
}

/// The directory that a completion lists is the one that holds the name that is completed: where
/// the text names it, it is the beginning of the text, up to the end of the component before the
/// name, so that nothing but separators and components `.` stand between the two. It is absolute
/// exactly where the text is. Where the text names no directory, it is the current one.
pub proof fn completions_look_where_the_name_stands(path: Seq<char>, start: int, end: int)
    ensures
        is_last_component(path, start, end) && start > 0 ==> ({
            let directory = parent_directory(path);
            let length = directory.len() as int;
            &&& 0 < length <= start
            &&& directory.is_prefix_of(path)
            &&& is_gap(path, length, start)
            &&& directory[0] == '/' <==> path[0] == '/'
            &&& length > 1 ==> !is_gap(path, length - 1, length)
        }),
        is_last_component(path, start, end) && start == 0 ==> parent_directory(path) == seq!['.'],
        last_component(path) is None ==> parent_directory(path) == seq!['.'],
{
    if is_last_component(path, start, end) {
        last_component_is_known(path, start, end);
        if start > 0 {
            let before = path.take(start);
            last_component_is_a_component(before);
            assert forall|s: int, e: int| #[trigger] is_component(path, s, e) && s
                < start implies is_component(before, s, e) && e < start by {
                if e >= start {
                    assert(path[start - 1] != SEPARATOR);
                }
                assert forall|i: int| s <= i < e implies before[i] != SEPARATOR by {
                    assert(before[i] == path[i]);
                }
            }
            match last_component(before) {
                Some(parent) => {
                    assert forall|s: int, e: int| #[trigger]
                        is_component(path, s, e) implies e <= parent.1 || start <= s by {
                        if s < start {
                            assert(is_component(before, s, e));
                            if e > parent.1 {
                                assert(s <= parent.0);
                                assert(before[parent.1] != SEPARATOR);
                            }
                        }
                    }
                    gap_holds_no_component(path, parent.1, start);
                    assert(before[parent.1 - 1] != SEPARATOR);
                    if parent.1 > 1 && is_gap(path, parent.1 - 1, parent.1) {
                        assert(path[parent.1 - 1] == '.');
                        if parent.0 < parent.1 - 1 {
                            assert(before[parent.1 - 2] != SEPARATOR);
                        }
                    }
                },
                None => {
                    assert forall|s: int, e: int| #[trigger]
                        is_component(path, s, e) implies start <= s by {
                        if s < start {
                            assert(is_component(before, s, e));
                            components_have_a_last(before, s, e);
                        }
                    }
                    gap_holds_no_component(path, 1, start);
                },
            }
        }
    }
}

/// The names that are offered stand in the directory of the text before the cursor: all names of
/// the current one where there is no text; all names of the directory that the text is where it
/// ends in a separator; and else the names that begin like its last component, next to that. A
/// component `..` is no name. What follows the cursor is kept.
pub proof fn queries_split_the_text(before: Seq<char>, after: Seq<char>, start: int, end: int)
    ensures
        path_query(before, after).after == after,
        before.len() == 0 ==> ({
            let query = path_query(before, after);
            query.directory == seq!['.'] && query.prefix.len() == 0 && query.base.len() == 0
        }),
        before.len() > 0 && before.last() == '/' ==> ({
            let query = path_query(before, after);
            query.directory == before && query.prefix.len() == 0 && query.base == before
        }),
        before.len() > 0 && before.last() != '/' ==> ({
            let query = path_query(before, after);
            &&& query.directory == parent_directory(before)
            &&& is_last_component(before, start, end) && before.subrange(start, end) != seq![
                '.',
                '.',
            ] ==> query.prefix == before.subrange(start, end)
            &&& is_last_component(before, start, end) && before.subrange(start, end) == seq![
                '.',
                '.',
            ] ==> query.prefix.len() == 0
            &&& last_component(before) is None ==> query.prefix.len() == 0
            &&& is_last_component(before, start, end) && end == before.len() && query.prefix.len()
                > 0 ==> query.base == before.take(start)
            &&& query.prefix.len() == 0 ==> query.base == before
            &&& query.base == decode_utf8(
                encode_utf8(before).take(
                    encode_utf8(before).len() - encode_utf8(query.prefix).len(),
                ),
            )
        }),
{
    if is_last_component(before, start, end) {
        last_component_is_known(before, start, end);
    }
    if before.len() > 0 && before.last() != '/' {
        let query = path_query(before, after);
        let is_tail = is_last_component(before, start, end) && end == before.len();
        if is_tail || query.prefix.len() == 0 {
            completion_keeps_what_stands_before_the_name(before, after);
            if query.prefix.len() > 0 {
                assert(query.base == (query.base + query.prefix).take(query.base.len() as int));
                assert(query.base == before.take(start));
            } else {
                assert(query.base + query.prefix == query.base);
            }
        }
    }
}

/// A line is completed at its cursor: what stands before that is the path, and what stands behind
/// it is kept. A URL that names credentials is no path.
pub proof fn lines_are_completed_at_the_cursor(line: Line)
    requires
        line.cursor <= line.text.len(),
    ensures
        ({
            let before = line.text.subrange(0, line.cursor as int);
            let after = line.text.subrange(line.cursor as int, line.text.len() as int);
            let is_url = "otpauth://"@.is_prefix_of(before)
                || "otpauth-migration://"@.is_prefix_of(before);
            &&& is_url ==> line_query(line) is None
            &&& !is_url ==> line_query(line) == Some(path_query(before, after))
        }),
{
    assert(line.text.subrange(0, line.cursor as int) == line.text.take(line.cursor as int));
    assert(line.text.subrange(line.cursor as int, line.text.len() as int) == line.text.skip(
        line.cursor as int,
    ));
}

/// A line whose path ends in the name that is completed, or that names none, can be completed.
pub proof fn names_at_the_cursor_can_be_completed(line: Line)
    requires
        last_component(line.text.take(line.cursor as int)) matches Some(span) ==> span.1
            == line.text.take(line.cursor as int).len() || file_name(
            line.text.take(line.cursor as int),
        ).len() == 0,
    ensures
        !is_uncuttable(line),
{
    completion_keeps_what_stands_before_the_name(line.text.take(line.cursor as int), Seq::empty());
}

/// The directory that is asked for holds the name at the cursor: where the text before the cursor
/// names one, it is the beginning of that text, absolute exactly where the text is, and nothing
/// but separators and components `.` stand between it and the name.
pub proof fn asked_directories_hold_the_name(
    input: &Input,
    query: Option<CompletionQuery>,
    start: int,
    end: int,
)
    requires
        call_ensures(completion_query, (input,), query),
        is_last_component(line(*input).text.take(line(*input).cursor as int), start, end),
        line(*input).cursor <= line(*input).text.len(),
    ensures
        ({
            let before = line(*input).text.take(line(*input).cursor as int);
            let is_url = "otpauth://"@.is_prefix_of(before)
                || "otpauth-migration://"@.is_prefix_of(before);
            &&& is_url ==> query is None
            &&& !is_url ==> {
                &&& query matches Some(asked)
                &&& asked.after@ == line(*input).text.skip(line(*input).cursor as int)
                &&& before.last() == '/' ==> asked.directory@ == before && asked.base@ == before
                    && asked.prefix@.len() == 0
                &&& before.last() != '/' && start == 0 ==> asked.directory@ == seq!['.']
                &&& before.last() != '/' && start > 0 ==> {
                    &&& asked.directory@.is_prefix_of(before)
                    &&& 0 < asked.directory@.len() <= start
                    &&& is_gap(before, asked.directory@.len() as int, start)
                    &&& asked.directory@[0] == '/' <==> before[0] == '/'
                }
                &&& before.last() != '/' && end == before.len() && before.subrange(start, end)
                    != seq!['.', '.'] ==> asked.prefix@ == before.skip(start) && asked.base@
                    == before.take(start)
            }
        }),
{
    let before = line(*input).text.take(line(*input).cursor as int);
    let after = line(*input).text.skip(line(*input).cursor as int);
    completions_look_where_the_name_stands(before, start, end);
    queries_split_the_text(before, after, start, end);
    assert(before.subrange(start, before.len() as int) == before.skip(start));
}

/// Candidates, queries and entries stand for themselves, field by field.
pub proof fn completions_are_those_of_the_fields(
    query: CompletionQuery,
    state: PathCompletion,
    candidate: CompletionCandidate,
    entry: DirectoryEntry,
)
    ensures
        entry@.name == entry.name@,
        entry@.is_directory == entry.is_directory,
        query@.directory == query.directory@,
        query@.prefix == query.prefix@,
        query@.base == query.base@,
        query@.after == query.after@,
        state@.index == state.index,
        state@.candidates == views(state.candidates@),
        candidate@.value == candidate.value@,
        candidate@.cursor == candidate.cursor,
{
}

} // verus!
