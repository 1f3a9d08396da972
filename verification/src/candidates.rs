//! The texts that the entries of a directory complete.
use crate::completion::{CompletionQuery, CompletionQueryView};
use crate::config::views;
use crate::paths::SEPARATOR;
use crate::text::starts_with;
use vstd::prelude::*;
use vstd::string::StrSliceExecFns;
use vstd::string::StringExecFns;

verus! {

/// An entry of a listed directory.
#[derive(Debug)]
pub struct DirectoryEntry {
    pub name: String,
    pub is_directory: bool,
}

/// An entry of a listed directory, as a value.
#[verifier::ext_equal]
pub struct DirectoryEntryView {
    pub name: Seq<char>,
    pub is_directory: bool,
}

impl View for DirectoryEntry {
    type V = DirectoryEntryView;

    open spec fn view(&self) -> DirectoryEntryView {
        DirectoryEntryView { name: self.name@, is_directory: self.is_directory }
    }
}

/// A completed text and the place of its cursor.
#[derive(Debug)]
pub struct CompletionCandidate {
    pub value: String,
    pub cursor: usize,
}

/// A completed text and the place of its cursor, as a value.
#[verifier::ext_equal]
pub struct CompletionCandidateView {
    pub value: Seq<char>,
    pub cursor: nat,
}

impl View for CompletionCandidate {
    type V = CompletionCandidateView;

    open spec fn view(&self) -> CompletionCandidateView {
        CompletionCandidateView { value: self.value@, cursor: self.cursor as nat }
    }
}

impl CompletionQueryView {
    /// Whether a name is a way to go on: it begins with the prefix, and a hidden name only counts
    /// where the prefix is hidden itself.
    pub open spec fn accepts(self, name: Seq<char>) -> bool {
        &&& self.prefix.is_prefix_of(name)
        &&& self.prefix.len() > 0 && self.prefix[0] == '.' || !(name.len() > 0 && name[0] == '.')
    }

    /// The text up to the end of a name, with a separator behind that of a directory.
    pub open spec fn completed(self, entry: DirectoryEntryView) -> Seq<char> {
        if entry.is_directory {
            (self.base + entry.name).push(SEPARATOR)
        } else {
            self.base + entry.name
        }
    }

    /// The text that an entry completes, with the cursor behind its name.
    pub open spec fn candidate(self, entry: DirectoryEntryView) -> CompletionCandidateView {
        CompletionCandidateView {
            value: self.completed(entry) + self.after,
            cursor: self.completed(entry).len(),
        }
    }

    /// The texts that the entries of the directory complete, in the order of the entries.
    pub open spec fn matches(self, entries: Seq<DirectoryEntryView>) -> Seq<
        CompletionCandidateView,
    >
        decreases entries.len(),
    {
        if entries.len() == 0 {
            Seq::empty()
        } else {
            let earlier = self.matches(entries.drop_last());
            if self.accepts(entries.last().name) {
                earlier.push(self.candidate(entries.last()))
            } else {
                earlier
            }
        }
    }

    /// The texts that the entries of the directory complete, in alphabetical order.
    pub open spec fn candidates(self, entries: Seq<DirectoryEntryView>) -> Seq<
        CompletionCandidateView,
    > {
        ordered(self.matches(entries))
    }
}

/// Alphabetical order: by the first character in which two texts differ, the shorter one first
/// where one begins with the other.
pub open spec fn text_le(left: Seq<char>, right: Seq<char>) -> bool
    decreases left.len(),
{
    if left.len() == 0 {
        true
    } else if right.len() == 0 {
        false
    } else if left[0] == right[0] {
        text_le(left.drop_first(), right.drop_first())
    } else {
        left[0] < right[0]
    }
}

/// `sorted` with `candidate` put in, behind all that do not come after it.
pub open spec fn with_ordered(
    sorted: Seq<CompletionCandidateView>,
    candidate: CompletionCandidateView,
) -> Seq<CompletionCandidateView>
    decreases sorted.len(),
{
    if sorted.len() > 0 && !text_le(sorted.last().value, candidate.value) {
        with_ordered(sorted.drop_last(), candidate).push(sorted.last())
    } else {
        sorted.push(candidate)
    }
}

/// Candidates in the alphabetical order of their texts; where two texts are equal they keep their
/// order.
pub open spec fn ordered(candidates: Seq<CompletionCandidateView>) -> Seq<CompletionCandidateView>
    decreases candidates.len(),
{
    if candidates.len() == 0 {
        candidates
    } else {
        with_ordered(ordered(candidates.drop_last()), candidates.last())
    }
}

/// Whether candidates stand in the alphabetical order of their texts.
pub open spec fn is_ordered(candidates: Seq<CompletionCandidateView>) -> bool {
    forall|i: int, j: int|
        0 <= i <= j < candidates.len() ==> text_le(
            (#[trigger] candidates[i]).value,
            (#[trigger] candidates[j]).value,
        )
}

/// Alphabetical order is reflexive.
proof fn text_le_itself(text: Seq<char>)
    ensures
        text_le(text, text),
    decreases text.len(),
{
    if text.len() > 0 {
        text_le_itself(text.drop_first());
    }
}

/// Alphabetical order is total.
proof fn text_le_is_total(left: Seq<char>, right: Seq<char>)
    ensures
        text_le(left, right) || text_le(right, left),
    decreases left.len(),
{
    if left.len() > 0 && right.len() > 0 {
        text_le_is_total(left.drop_first(), right.drop_first());
    }
}

/// Alphabetical order is transitive.
proof fn text_le_chains(first: Seq<char>, second: Seq<char>, third: Seq<char>)
    requires
        text_le(first, second),
        text_le(second, third),
    ensures
        text_le(first, third),
    decreases first.len(),
{
    if first.len() > 0 && second.len() > 0 && third.len() > 0 && first[0] == second[0] && second[0]
        == third[0] {
        text_le_chains(first.drop_first(), second.drop_first(), third.drop_first());
    }
}

/// Whether `left` stands before `right` in alphabetical order, or is the same text.
fn stands_before(left: &str, right: &str) -> (before: bool)
    ensures
        before == text_le(left@, right@),
{
    let mut rest = right.chars();
    assert(left@.skip(0) == left@);
    assert(right@.skip(0) == right@);
    for c in iter: left.chars()
        invariant
            iter.seq() == left@,
            iter.index() <= right@.len(),
            vstd::std_specs::iter::IteratorSpec::remaining(&rest) == right@.skip(iter.index()),
            text_le(left@, right@) == text_le(left@.skip(iter.index()), right@.skip(iter.index())),
    {
        assert(left@.skip(iter.index()).drop_first() == left@.skip(iter.index() + 1));
        assert(right@.skip(iter.index()).len() > 0 ==> right@.skip(iter.index()).drop_first()
            == right@.skip(iter.index() + 1));
        match rest.next() {
            None => {
                return false;
            },
            Some(d) => {
                if c != d {
                    return c < d;
                }
            },
        }
    }
    true
}

/// Putting a candidate in keeps the order and loses nothing.
proof fn with_ordered_is_ordered(
    sorted: Seq<CompletionCandidateView>,
    candidate: CompletionCandidateView,
)
    requires
        is_ordered(sorted),
    ensures
        is_ordered(with_ordered(sorted, candidate)),
        with_ordered(sorted, candidate).to_multiset() == sorted.to_multiset().insert(candidate),
        forall|i: int|
            0 <= i < with_ordered(sorted, candidate).len() ==> (#[trigger] with_ordered(
                sorted,
                candidate,
            )[i] == candidate || sorted.contains(with_ordered(sorted, candidate)[i])),
    decreases sorted.len(),
{
    broadcast use vstd::seq_lib::group_to_multiset_ensures;

    let all = with_ordered(sorted, candidate);
    if sorted.len() > 0 && !text_le(sorted.last().value, candidate.value) {
        let rest = sorted.drop_last();
        let last = sorted.last();
        with_ordered_is_ordered(rest, candidate);
        let part = with_ordered(rest, candidate);
        assert forall|i: int| 0 <= i < part.len() implies text_le(
            (#[trigger] part[i]).value,
            last.value,
        ) by {
            if part[i] == candidate {
                text_le_is_total(candidate.value, last.value);
            } else {
                let j = choose|j: int| 0 <= j < rest.len() && rest[j] == part[i];
                assert(sorted[j] == part[i]);
            }
        }
        text_le_itself(last.value);
        assert(is_ordered(all));
        assert(sorted == rest.push(last));
        assert(all.to_multiset() == sorted.to_multiset().insert(candidate));
        assert forall|i: int| 0 <= i < all.len() implies (#[trigger] all[i] == candidate
            || sorted.contains(all[i])) by {
            if i < part.len() {
                assert(all[i] == part[i]);
                if part[i] != candidate {
                    let j = choose|j: int| 0 <= j < rest.len() && rest[j] == part[i];
                    assert(sorted[j] == part[i]);
                }
            } else {
                assert(sorted[sorted.len() - 1] == last);
            }
        }
    } else {
        text_le_itself(candidate.value);
        assert forall|i: int| 0 <= i < sorted.len() implies text_le(
            (#[trigger] sorted[i]).value,
            candidate.value,
        ) by {
            text_le_chains(sorted[i].value, sorted.last().value, candidate.value);
        }
        assert forall|i: int| 0 <= i < all.len() implies (#[trigger] all[i] == candidate
            || sorted.contains(all[i])) by {
            if i < sorted.len() {
                assert(sorted[i] == all[i]);
            }
        }
    }
}

/// The candidates that are offered stand in alphabetical order, and are those that match, each as
/// often as it does.
pub proof fn candidates_are_offered_in_order(candidates: Seq<CompletionCandidateView>)
    ensures
        is_ordered(ordered(candidates)),
        ordered(candidates).to_multiset() == candidates.to_multiset(),
    decreases candidates.len(),
{
    broadcast use vstd::seq_lib::group_to_multiset_ensures;

    if candidates.len() > 0 {
        candidates_are_offered_in_order(candidates.drop_last());
        with_ordered_is_ordered(ordered(candidates.drop_last()), candidates.last());
        assert(candidates == candidates.drop_last().push(candidates.last()));
    }
}

/// A candidate goes in at the one place before which no candidate comes after it, and behind
/// which each does.
proof fn with_ordered_inserts(
    sorted: Seq<CompletionCandidateView>,
    candidate: CompletionCandidateView,
    place: int,
)
    requires
        0 <= place <= sorted.len(),
        forall|i: int|
            0 <= i < place ==> text_le((#[trigger] sorted[i]).value, candidate.value),
        forall|i: int|
            place <= i < sorted.len() ==> !text_le((#[trigger] sorted[i]).value, candidate.value),
    ensures
        with_ordered(sorted, candidate) == sorted.insert(place, candidate),
    decreases sorted.len(),
{
    if place < sorted.len() {
        let rest = sorted.drop_last();
        assert forall|i: int| place <= i < rest.len() implies !text_le(
            (#[trigger] rest[i]).value,
            candidate.value,
        ) by {
            assert(rest[i] == sorted[i]);
        }
        with_ordered_inserts(rest, candidate, place);
        assert(sorted.insert(place, candidate) == rest.insert(place, candidate).push(
            sorted.last(),
        ));
    } else {
        assert(sorted.insert(place, candidate) == sorted.push(candidate));
    }
}

/// Puts a candidate in, behind all that do not come after it.
fn insert_in_order(sorted: &mut Vec<CompletionCandidate>, candidate: CompletionCandidate)
    requires
        is_ordered(views(old(sorted)@)),
    ensures
        views(final(sorted)@) == with_ordered(views(old(sorted)@), candidate@),
{
    let ghost held = views(sorted@);
    let mut low: usize = 0;
    let mut high: usize = sorted.len();
    while low < high
        invariant
            low <= high <= sorted.len(),
            held == views(sorted@),
            is_ordered(held),
            forall|i: int| 0 <= i < low ==> text_le((#[trigger] held[i]).value, candidate.value@),
            forall|i: int|
                high <= i < held.len() ==> !text_le((#[trigger] held[i]).value, candidate.value@),
        decreases high - low,
    {
        let middle: usize = low + (high - low) / 2;
        assert(held[middle as int] == sorted@[middle as int]@);
        if stands_before(sorted[middle].value.as_str(), candidate.value.as_str()) {
            assert forall|i: int| 0 <= i < middle + 1 implies text_le(
                (#[trigger] held[i]).value,
                candidate.value@,
            ) by {
                text_le_chains(held[i].value, held[middle as int].value, candidate.value@);
            }
            low = middle + 1;
        } else {
            assert forall|i: int| middle <= i < held.len() implies !text_le(
                (#[trigger] held[i]).value,
                candidate.value@,
            ) by {
                if text_le(held[i].value, candidate.value@) {
                    text_le_chains(held[middle as int].value, held[i].value, candidate.value@);
                }
            }
            high = middle;
        }
    }
    proof {
        with_ordered_inserts(held, candidate@, low as int);
    }
    sorted.insert(low, candidate);
    assert(views(sorted@) == held.insert(low as int, candidate@));
}

impl CompletionQuery {
    /// Whether a name is a way to go on.
    pub fn accepts(&self, name: &str) -> (accepted: bool)
        ensures
            accepted == self@.accepts(name@),
    {
        if !starts_with(name, self.prefix.as_str()) {
            return false;
        }
        let prefix = self.prefix.as_str();
        (!prefix.is_empty() && prefix.get_char(0) == '.') || name.is_empty() || name.get_char(0)
            != '.'
    }

    /// The text that an entry completes.
    pub fn candidate(&self, entry: &DirectoryEntry) -> (candidate: CompletionCandidate)
        ensures
            candidate@ == self@.candidate(entry@),
    {
        let mut value = self.base.clone();
        value.append(entry.name.as_str());
        if entry.is_directory {
            value.push(SEPARATOR);
        }
        let cursor: usize = value.as_str().unicode_len();
        value.append(self.after.as_str());
        CompletionCandidate { value, cursor }
    }
}

/// The texts that the entries of the listed directory complete, in alphabetical order.
pub fn path_completion_candidates(
    query: &CompletionQuery,
    entries: &Vec<DirectoryEntry>,
) -> (candidates: Vec<CompletionCandidate>)
    ensures
        views(candidates@) == query@.candidates(views(entries@)),
{
    let mut candidates: Vec<CompletionCandidate> = Vec::new();
    let ghost all = views(entries@);
    assert(views(candidates@) == query@.candidates(all.take(0)));
    for i in 0..entries.len()
        invariant
            all == views(entries@),
            views(candidates@) == query@.candidates(all.take(i as int)),
    {
        let ghost found = query@.matches(all.take(i as int));
        assert(all.take(i + 1).drop_last() == all.take(i as int));
        assert(all[i as int] == entries@[i as int]@);
        if query.accepts(entries[i].name.as_str()) {
            let candidate = query.candidate(&entries[i]);
            proof {
                candidates_are_offered_in_order(found);
                assert(found.push(candidate@).drop_last() == found);
            }
            insert_in_order(&mut candidates, candidate);
        }
    }
    assert(all.take(all.len() as int) == all);
    candidates
}

/// Every text that is offered completes the name of an entry that is accepted.
proof fn matches_come_from_entries(
    query: CompletionQueryView,
    entries: Seq<DirectoryEntryView>,
    index: int,
)
    requires
        0 <= index < query.matches(entries).len(),
    ensures
        exists|i: int|
            0 <= i < entries.len() && query.accepts((#[trigger] entries[i]).name)
                && query.matches(entries)[index] == query.candidate(entries[i]),
    decreases entries.len(),
{
    let earlier = entries.drop_last();
    if index < query.matches(earlier).len() {
        matches_come_from_entries(query, earlier, index);
        let i = choose|i: int|
            0 <= i < earlier.len() && query.accepts((#[trigger] earlier[i]).name) && query.matches(
                earlier,
            )[index] == query.candidate(earlier[i]);
        assert(entries[i] == earlier[i]);
    } else {
        assert(entries[entries.len() - 1] == entries.last());
    }
}

/// Completing a name changes nothing else: every text that is offered is what stood before the
/// name, an accepted name with its prefix, and what stood behind the cursor, and the cursor
/// stands right before the latter.
pub proof fn completing_keeps_the_rest(
    query: CompletionQueryView,
    entries: Seq<DirectoryEntryView>,
    index: int,
)
    requires
        0 <= index < query.candidates(entries).len(),
    ensures
        ({
            let offer = query.candidates(entries)[index];
            &&& offer.value.skip(offer.cursor as int) == query.after
            &&& (query.base + query.prefix).is_prefix_of(offer.value.take(offer.cursor as int))
            &&& exists|i: int|
                0 <= i < entries.len() && query.accepts((#[trigger] entries[i]).name)
                    && offer.value.take(offer.cursor as int) == query.completed(entries[i])
        }),
{
    broadcast use vstd::seq_lib::group_to_multiset_ensures;

    let all = query.matches(entries);
    let offer = query.candidates(entries)[index];
    candidates_are_offered_in_order(all);
    assert(query.candidates(entries).contains(offer));
    assert(query.candidates(entries).to_multiset().count(offer) > 0);
    assert(all.contains(offer));
    let place = choose|place: int| 0 <= place < all.len() && all[place] == offer;
    matches_come_from_entries(query, entries, place);
    let i = choose|i: int|
        0 <= i < entries.len() && query.accepts((#[trigger] entries[i]).name) && all[place]
            == query.candidate(entries[i]);
    assert(offer.value.take(offer.cursor as int) == query.completed(entries[i]));
    assert(offer.value.skip(offer.cursor as int) == query.after);
}

/// Every entry that is accepted is offered.
pub proof fn every_match_is_offered(
    query: CompletionQueryView,
    entries: Seq<DirectoryEntryView>,
    entry: int,
)
    requires
        0 <= entry < entries.len(),
        query.accepts(entries[entry].name),
    ensures
        query.candidates(entries).contains(query.candidate(entries[entry])),
{
    broadcast use vstd::seq_lib::group_to_multiset_ensures;

    matches_hold_accepted_entries(query, entries, entry);
    candidates_are_offered_in_order(query.matches(entries));
    assert(query.matches(entries).to_multiset().count(query.candidate(entries[entry])) > 0);
}

/// Every entry that is accepted is among the matches.
proof fn matches_hold_accepted_entries(
    query: CompletionQueryView,
    entries: Seq<DirectoryEntryView>,
    entry: int,
)
    requires
        0 <= entry < entries.len(),
        query.accepts(entries[entry].name),
    ensures
        query.matches(entries).contains(query.candidate(entries[entry])),
    decreases entries.len(),
{
    let earlier = entries.drop_last();
    let wanted = query.candidate(entries[entry]);
    if entry < earlier.len() {
        matches_hold_accepted_entries(query, earlier, entry);
        let place = choose|place: int|
            0 <= place < query.matches(earlier).len() && query.matches(earlier)[place] == wanted;
        assert(query.matches(entries)[place] == wanted);
    } else {
        assert(query.matches(entries)[query.matches(entries).len() - 1] == wanted);
    }
}

/// Two texts stand in alphabetical order where the first is the beginning of the second, or where
/// the first has the lesser character in the first place in which they differ.
pub proof fn the_first_difference_orders_texts(left: Seq<char>, right: Seq<char>)
    ensures
        text_le(left, right) <==> exists|k: int|
            {
                &&& 0 <= k <= left.len()
                &&& k <= right.len()
                &&& #[trigger] left.take(k) == right.take(k)
                &&& k == left.len() || k < right.len() && left[k] < right[k]
            },
    decreases left.len(),
{
    if left.len() == 0 {
        assert(left.take(0) == right.take(0));
    } else if right.len() > 0 {
        if left[0] == right[0] {
            let l = left.drop_first();
            let r = right.drop_first();
            the_first_difference_orders_texts(l, r);
            assert forall|k: int| 0 <= k <= l.len() && k <= r.len() implies (#[trigger] l.take(k)
                == r.take(k) <==> left.take(k + 1) == right.take(k + 1)) by {
                assert(left.take(k + 1) == seq![left[0]] + l.take(k));
                assert(right.take(k + 1) == seq![right[0]] + r.take(k));
                assert(l.take(k) == left.take(k + 1).drop_first());
                assert(r.take(k) == right.take(k + 1).drop_first());
            }
            if text_le(l, r) {
                let k = choose|k: int|
                    {
                        &&& 0 <= k <= l.len()
                        &&& k <= r.len()
                        &&& #[trigger] l.take(k) == r.take(k)
                        &&& k == l.len() || k < r.len() && l[k] < r[k]
                    };
                assert(left.take(k + 1) == right.take(k + 1));
            }
            if exists|k: int|
                {
                    &&& 0 <= k <= left.len()
                    &&& k <= right.len()
                    &&& #[trigger] left.take(k) == right.take(k)
                    &&& k == left.len() || k < right.len() && left[k] < right[k]
                } {
                let k = choose|k: int|
                    {
                        &&& 0 <= k <= left.len()
                        &&& k <= right.len()
                        &&& #[trigger] left.take(k) == right.take(k)
                        &&& k == left.len() || k < right.len() && left[k] < right[k]
                    };
                assert(k > 0);
                assert(l.take(k - 1) == r.take(k - 1));
            }
        } else {
            assert(left.take(0) == right.take(0));
            assert forall|k: int|
                0 < k <= left.len() && k <= right.len() implies #[trigger] left.take(k)
                != right.take(k) by {
                assert(left.take(k)[0] == left[0] && right.take(k)[0] == right[0]);
            }
        }
    }
}

/// The texts that match are those of the entries whose name begins with the prefix and, unless the
/// prefix does so too, with no dot: each is what stood before the name, the name, a separator
/// behind that of a directory, and what stood behind the cursor, with the cursor before the
/// latter.
proof fn matches_complete_the_entries(query: CompletionQueryView, entries: Seq<DirectoryEntryView>)
    ensures
        query.matches(entries) == entries.filter(
            |entry: DirectoryEntryView|
                query.prefix.is_prefix_of(entry.name) && (seq!['.'].is_prefix_of(query.prefix)
                    || !seq!['.'].is_prefix_of(entry.name)),
        ).map_values(
            |entry: DirectoryEntryView|
                {
                    let mark = if entry.is_directory {
                        seq!['/']
                    } else {
                        Seq::empty()
                    };
                    CompletionCandidateView {
                        value: query.base + entry.name + mark + query.after,
                        cursor: query.base.len() + entry.name.len() + mark.len(),
                    }
                },
        ),
    decreases entries.len(),
{
    reveal(Seq::filter);
    let fits = |entry: DirectoryEntryView|
        query.prefix.is_prefix_of(entry.name) && (seq!['.'].is_prefix_of(query.prefix)
            || !seq!['.'].is_prefix_of(entry.name));
    let completes = |entry: DirectoryEntryView|
        {
            let mark = if entry.is_directory {
                seq!['/']
            } else {
                Seq::empty()
            };
            CompletionCandidateView {
                value: query.base + entry.name + mark + query.after,
                cursor: query.base.len() + entry.name.len() + mark.len(),
            }
        };
    if entries.len() > 0 {
        let last = entries.last();
        let earlier = entries.drop_last().filter(fits);
        matches_complete_the_entries(query, entries.drop_last());
        dots_are_first(query.prefix);
        dots_are_first(last.name);
        assert(fits(last) == query.accepts(last.name));
        assert(completes(last).value == query.candidate(last).value);
        assert(completes(last) == query.candidate(last));
        if fits(last) {
            assert(entries.filter(fits) == earlier.push(last));
            assert(earlier.push(last).map_values(completes) == earlier.map_values(completes).push(
                completes(last),
            ));
        } else {
            assert(entries.filter(fits) == earlier);
        }
    } else {
        assert(entries.filter(fits).map_values(completes)
            == Seq::<CompletionCandidateView>::empty());
    }
}

/// A text begins with a dot where its first character is one.
proof fn dots_are_first(text: Seq<char>)
    ensures
        seq!['.'].is_prefix_of(text) <==> text.len() > 0 && text[0] == '.',
{
    if seq!['.'].is_prefix_of(text) {
        assert(text[0] == seq!['.'][0]);
    }
}

/// What is offered are the texts of all entries whose name begins with the prefix and, unless the
/// prefix does so too, with no dot, and of no others, each once for each entry: what stood before
/// the name, the name, a separator behind that of a directory, and what stood behind the cursor,
/// with the cursor before the latter. They stand in alphabetical order.
pub proof fn offers_complete_the_entries(
    query: CompletionQueryView,
    entries: Seq<DirectoryEntryView>,
)
    ensures
        query.candidates(entries).to_multiset() == entries.filter(
            |entry: DirectoryEntryView|
                query.prefix.is_prefix_of(entry.name) && (seq!['.'].is_prefix_of(query.prefix)
                    || !seq!['.'].is_prefix_of(entry.name)),
        ).map_values(
            |entry: DirectoryEntryView|
                {
                    let mark = if entry.is_directory {
                        seq!['/']
                    } else {
                        Seq::empty()
                    };
                    CompletionCandidateView {
                        value: query.base + entry.name + mark + query.after,
                        cursor: query.base.len() + entry.name.len() + mark.len(),
                    }
                },
        ).to_multiset(),
        forall|i: int, j: int|
            0 <= i <= j < query.candidates(entries).len() ==> text_le(
                (#[trigger] query.candidates(entries)[i]).value,
                (#[trigger] query.candidates(entries)[j]).value,
            ),
{
    matches_complete_the_entries(query, entries);
    candidates_are_offered_in_order(query.matches(entries));
}

/// A name is accepted where it begins with the prefix and, unless the prefix does so too, with no
/// dot; and what it completes is what stood before it, the name, a separator behind that of a
/// directory, and what stood behind the cursor.
pub proof fn entries_are_accepted_and_completed(
    query: &CompletionQuery,
    name: &str,
    accepted: bool,
    entry: &DirectoryEntry,
    candidate: CompletionCandidate,
)
    ensures
        call_ensures(CompletionQuery::accepts, (query, name), accepted) ==> (accepted
            <==> query.prefix@.is_prefix_of(name@) && (seq!['.'].is_prefix_of(query.prefix@)
            || !seq!['.'].is_prefix_of(name@))),
        call_ensures(CompletionQuery::candidate, (query, entry), candidate) ==> ({
            let mark = if entry.is_directory {
                seq!['/']
            } else {
                Seq::empty()
            };
            &&& candidate.value@ == query.base@ + entry.name@ + mark + query.after@
            &&& candidate.cursor == query.base@.len() + entry.name@.len() + mark.len()
        }),
{
    dots_are_first(query.prefix@);
    dots_are_first(name@);
    if call_ensures(CompletionQuery::candidate, (query, entry), candidate) {
        let mark = if entry.is_directory {
            seq!['/']
        } else {
            Seq::empty()
        };
        assert(query@.completed(entry@) == query.base@ + entry.name@ + mark);
    }
}

} // verus!
