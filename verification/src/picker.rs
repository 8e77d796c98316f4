//! The fuzzy-search picker: which entries it lists, in which order, and what each
//! key does.
//!
//! Keys: type to search, Up/Down select, Enter pick, Esc cancel, Ctrl+P pin,
//! Del/Ctrl+D delete, PgUp/PgDn jump.

use crate::entry::{Entry, EntryView, Kind};
use crate::order::{goes_before, is_stable_order, stable_order};
use crate::store::Store;
use crate::text::{chars_of, collect, decimal, decimal_of, lines, lines_of, views};
use vstd::prelude::*;

verus! {

// ---------------------------------------------------------------------------
// Matching

/// Queries of more characters than this are not searched for: a match scores up to
/// 32 points for each of them, and scores are 32-bit numbers.
pub const MAX_QUERY: usize = 0x3ff_ffff;

/// Texts of more characters than this are not searched: gaps cost a point for each
/// character of the text and up to four for each of the query, from about -32768
/// on, and scores are 32-bit numbers.
pub const MAX_TEXT: usize = 0x6fff_0000;

/// Whether a text of some characters can be searched: its scores are 32-bit
/// numbers, and two rows of them, at 16 bytes each, fit in memory.
pub open spec fn fits(chars: nat) -> bool {
    chars <= MAX_TEXT && 32 * (chars + 1) <= isize::MAX
}

/// The score that `SkimMatcherV2`, ignoring case, gives a query in a text; `None`
/// where the query does not match.
pub uninterp spec fn fuzzy_score(text: Seq<char>, query: Seq<char>) -> Option<i64>;

/// `SkimMatcherV2::fuzzy_match` of the `fuzzy-matcher` crate, ignoring case: what
/// it returns depends on the text and the query alone, and a score is a 32-bit
/// number.
#[verifier::external_body]
fn fuzzy_match(text: &str, query: &str) -> (score: Option<i64>)
    requires
        fits(text@.len()),
        query@.len() <= MAX_QUERY,
    ensures
        score == fuzzy_score(text@, query@),
        score matches Some(n) ==> i32::MIN <= n <= i32::MAX,
{
    let matcher = fuzzy_matcher::skim::SkimMatcherV2::default().ignore_case();
    fuzzy_matcher::FuzzyMatcher::fuzzy_match(&matcher, text, query)
}

// ---------------------------------------------------------------------------
// Ranking

/// What an entry is sorted by, the smallest first: pinned entries in front of all
/// others, then the highest score.
pub open spec fn rank_key(pinned: bool, score: i64) -> int {
    (if pinned {
        i64::MIN as int / 2
    } else {
        0
    }) - score
}

/// Whether candidate `i` is listed above candidate `j`: by its key, and in the
/// order of the history where the keys are equal.
pub open spec fn listed_above(pins: Seq<bool>, scores: Seq<Option<i64>>, i: int, j: int) -> bool {
    let a = rank_key(pins[i], scores[i]->0);
    let b = rank_key(pins[j], scores[j]->0);
    a < b || (a == b && i < j)
}

/// Whether `view` lists everything that has a score, once, in the order of the
/// ranking.
pub open spec fn is_ranking(pins: Seq<bool>, scores: Seq<Option<i64>>, view: Seq<usize>) -> bool {
    &&& forall|i: int|
        0 <= i < view.len() ==> #[trigger] view[i] < scores.len() && scores[view[i] as int] is Some
    &&& forall|k: usize|
        k < scores.len() && (#[trigger] scores[k as int]) is Some ==> view.contains(k)
    &&& forall|i: int, j: int|
        #![trigger view[i], view[j]]
        0 <= i < j < view.len() ==> listed_above(pins, scores, view[i] as int, view[j] as int)
}

/// List everything that has a score: pinned entries first, then by falling score.
pub fn rank(pins: &Vec<bool>, scores: &Vec<Option<i64>>) -> (view: Vec<usize>)
    requires
        pins@.len() == scores@.len(),
    ensures
        is_ranking(pins@, scores@, view@),
{
    let mut keys: Vec<(i128, u64)> = Vec::new();
    let mut from: Vec<usize> = Vec::new();
    let mut i: usize = 0;
    while i < scores.len()
        invariant
            pins@.len() == scores@.len(),
            i <= scores@.len(),
            keys@.len() == from@.len(),
            forall|k: int|
                0 <= k < from@.len() ==> #[trigger] from@[k] < i && scores@[from@[k] as int] is Some
                    && keys@[k] == (
                    rank_key(pins@[from@[k] as int], scores@[from@[k] as int]->0) as i128,
                    0u64,
                ),
            forall|a: int, b: int|
                #![trigger from@[a], from@[b]]
                0 <= a < b < from@.len() ==> from@[a] < from@[b],
            forall|k: usize|
                k < i && (#[trigger] scores@[k as int]) is Some ==> from@.contains(k),
        decreases scores@.len() - i,
    {
        let ghost before = from@;
        match scores[i] {
            Some(score) => {
                let base: i128 = if pins[i] {
                    (i64::MIN / 2) as i128
                } else {
                    0
                };
                keys.push((base - score as i128, 0));
                from.push(i);
                assert(from@[from@.len() - 1] == i);
            },
            None => {},
        }
        assert forall|k: usize| k < i + 1 && (#[trigger] scores@[k as int]) is Some implies from@.contains(
            k,
        ) by {
            if k < i {
                assert(before.contains(k));
                let p = choose|p: int| 0 <= p < before.len() && before[p] == k;
                assert(from@[p] == k);
            }
        }
        i = i + 1;
    }
    let order: Vec<usize> = stable_order(&keys);
    let mut view: Vec<usize> = Vec::new();
    let mut j: usize = 0;
    while j < order.len()
        invariant
            is_stable_order(keys@, order@),
            keys@.len() == from@.len(),
            j <= order@.len(),
            view@.len() == j,
            forall|k: int| 0 <= k < j ==> #[trigger] view@[k] == from@[order@[k] as int],
        decreases order@.len() - j,
    {
        assert(order@[j as int] < keys@.len());
        view.push(from[order[j]]);
        j = j + 1;
    }
    proof {
        assert forall|i: int| 0 <= i < view@.len() implies #[trigger] view@[i] < scores@.len()
            && scores@[view@[i] as int] is Some by {
            assert(order@[i] < keys@.len());
        }
        assert forall|k: usize| k < scores@.len() && (#[trigger] scores@[k as int]) is Some implies
            view@.contains(k) by {
            assert(from@.contains(k));
            let p = choose|p: int| 0 <= p < from@.len() && from@[p] == k;
            assert(order@.contains(p as usize));
            let q = choose|q: int| 0 <= q < order@.len() && order@[q] == p as usize;
            assert(view@[q] == k);
        }
        assert forall|i: int, j: int|
            #![trigger view@[i], view@[j]]
            0 <= i < j < view@.len() implies listed_above(
            pins@,
            scores@,
            view@[i] as int,
            view@[j] as int,
        ) by {
            let a = order@[i] as int;
            let b = order@[j] as int;
            assert(order@[i] < keys@.len() && order@[j] < keys@.len());
            assert(goes_before(keys@, a, b));
            assert(view@[i] == from@[a] && view@[j] == from@[b]);
            assert(from@[a] < scores@.len() && from@[b] < scores@.len());
            let fa = from@[a] as int;
            let fb = from@[b] as int;
            assert(keys@[a].0 == rank_key(pins@[fa], scores@[fa]->0));
            assert(keys@[b].0 == rank_key(pins@[fb], scores@[fb]->0));
        }
    }
    view
}

// ---------------------------------------------------------------------------
// The listing

/// The pins of some entries.
pub open spec fn pins_of(es: Seq<EntryView>) -> Seq<bool> {
    Seq::new(es.len(), |i: int| es[i].pinned)
}

/// The score of every entry: where nothing is searched for, the later the higher.
pub open spec fn scores_of(es: Seq<EntryView>, query: Seq<char>) -> Seq<Option<i64>> {
    Seq::new(
        es.len(),
        |i: int|
            if query.len() == 0 {
                Some(i as i64)
            } else {
                fuzzy_score(es[i].text, query)
            },
    )
}

/// Whether every text is short enough to be searched.
pub open spec fn searchable(es: Seq<EntryView>) -> bool {
    forall|i: int| 0 <= i < es.len() ==> fits((#[trigger] es[i]).text.len())
}

/// Whether every text of the history is short enough to be searched.
pub fn can_search(store: &Store) -> (res: bool)
    ensures
        res == searchable(store@.entries),
{
    let ghost v = store@.entries;
    let mut i: usize = 0;
    while i < store.entries.len()
        invariant
            v == store@.entries,
            i <= store.entries@.len(),
            forall|j: int| 0 <= j < i ==> fits((#[trigger] v[j]).text.len()),
        decreases store.entries@.len() - i,
    {
        assert(v[i as int] == store.entries@[i as int]@);
        let n: usize = store.entries[i].text.as_str().unicode_len();
        if n > MAX_TEXT || n >= isize::MAX as usize / 32 {
            assert(!fits(v[i as int].text.len()));
            return false;
        }
        i = i + 1;
    }
    true
}

/// A selection kept within a list.
pub open spec fn kept_within(selected: Option<usize>, len: nat) -> Option<usize> {
    let cur = match selected {
        Some(p) => p,
        None => 0,
    };
    if len == 0 {
        None
    } else if cur < len {
        Some(cur)
    } else {
        Some((len - 1) as usize)
    }
}

/// A selection moved by some rows, within a list.
pub open spec fn moved(selected: Option<usize>, delta: int, len: nat) -> Option<usize> {
    let cur = match selected {
        Some(p) => p as int,
        None => 0,
    };
    if len == 0 {
        selected
    } else if cur + delta < 0 {
        Some(0)
    } else if cur + delta >= len {
        Some((len - 1) as usize)
    } else {
        Some((cur + delta) as usize)
    }
}

/// What the picker shows.
pub struct Picker {
    pub query: String,
    /// Indices into the entries of the history, which stand oldest first, in the
    /// order of the rows.
    pub view: Vec<usize>,
    /// The selected row.
    pub selected: Option<usize>,
}

/// A key.
#[derive(Debug, Clone, Copy, PartialEq, Eq, Structural)]
pub enum Key {
    Esc,
    Enter,
    Delete,
    Backspace,
    Up,
    Down,
    PageUp,
    PageDown,
    Home,
    End,
    /// A character, with Ctrl held or not.
    Char(char, bool),
    Other,
}

/// What a key leads to.
#[derive(Debug, Clone, Copy, PartialEq, Eq, Structural)]
pub enum Outcome {
    /// Draw the picker again.
    Continue,
    /// Write the history, then draw the picker again.
    Save,
    /// Close the picker with an entry chosen, or none.
    Done(Option<u64>),
}

/// What a key asks for.
#[derive(Debug, Clone, Copy, PartialEq, Eq, Structural)]
pub enum Action {
    Cancel,
    Pick,
    Pin,
    Delete,
    Type(char),
    Erase,
    Move(isize),
    Nothing,
}

/// What a key asks for.
pub open spec fn action_of(key: Key) -> Action {
    match key {
        Key::Esc => Action::Cancel,
        Key::Enter => Action::Pick,
        Key::Delete => Action::Delete,
        Key::Backspace => Action::Erase,
        Key::Up => Action::Move(-1isize),
        Key::Down => Action::Move(1),
        Key::PageUp => Action::Move(-10isize),
        Key::PageDown => Action::Move(10),
        Key::Home => Action::Move((isize::MIN / 2) as isize),
        Key::End => Action::Move((isize::MAX / 2) as isize),
        Key::Char(c, ctrl) => if ctrl && c == 'c' {
            Action::Cancel
        } else if ctrl && c == 'p' {
            Action::Pin
        } else if ctrl && c == 'd' {
            Action::Delete
        } else {
            Action::Type(c)
        },
        Key::Other => Action::Nothing,
    }
}

/// What a key asks for.
pub fn action(key: Key) -> (a: Action)
    ensures
        a == action_of(key),
{
    match key {
        Key::Esc => Action::Cancel,
        Key::Enter => Action::Pick,
        Key::Delete => Action::Delete,
        Key::Backspace => Action::Erase,
        Key::Up => Action::Move(-1),
        Key::Down => Action::Move(1),
        Key::PageUp => Action::Move(-10),
        Key::PageDown => Action::Move(10),
        Key::Home => Action::Move(isize::MIN / 2),
        Key::End => Action::Move(isize::MAX / 2),
        Key::Char(c, ctrl) => if ctrl && c == 'c' {
            Action::Cancel
        } else if ctrl && c == 'p' {
            Action::Pin
        } else if ctrl && c == 'd' {
            Action::Delete
        } else {
            Action::Type(c)
        },
        Key::Other => Action::Nothing,
    }
}

impl Picker {
    /// Whether the rows are what the query finds, and the selection is one of
    /// them.
    pub open spec fn shows(self, es: Seq<EntryView>) -> bool {
        &&& is_ranking(pins_of(es), scores_of(es, self.query@), self.view@)
        &&& match self.selected {
            Some(p) => p < self.view@.len(),
            None => self.view@.len() == 0,
        }
    }

    /// The id of the selected entry.
    pub open spec fn selected_id(self, es: Seq<EntryView>) -> Option<u64> {
        match self.selected {
            Some(p) => Some(es[self.view@[p as int] as int].id),
            None => None,
        }
    }

    /// A picker with nothing searched for and the first row selected.
    pub fn new(store: &Store) -> (p: Picker)
        ensures
            p.shows(store@.entries),
            p.query@.len() == 0,
            p.selected == kept_within(None, p.view@.len()),
    {
        let mut p = Picker { query: String::new(), view: Vec::new(), selected: None };
        p.refilter(store);
        p
    }

    /// List what the query finds, and keep the selection within the list.
    pub fn refilter(&mut self, store: &Store)
        requires
            old(self).query@.len() > 0 ==> searchable(store@.entries) && old(self).query@.len()
                <= MAX_QUERY,
        ensures
            final(self).query == old(self).query,
            is_ranking(
                pins_of(store@.entries),
                scores_of(store@.entries, old(self).query@),
                final(self).view@,
            ),
            final(self).selected == kept_within(old(self).selected, final(self).view@.len()),
            final(self).shows(store@.entries),
    {
        let ghost es = store@.entries;
        let mut pins: Vec<bool> = Vec::new();
        let mut scores: Vec<Option<i64>> = Vec::new();
        let all: bool = self.query.as_str().is_empty();
        let mut i: usize = 0;
        while i < store.entries.len()
            invariant
                es == store@.entries,
                all == (self.query@.len() == 0),
                !all ==> searchable(es) && self.query@.len() <= MAX_QUERY,
                i <= store.entries@.len(),
                pins@.len() == i,
                scores@.len() == i,
                forall|k: int| 0 <= k < i ==> pins@[k] == (#[trigger] es[k]).pinned,
                forall|k: int|
                    0 <= k < i ==> #[trigger] scores@[k] == scores_of(es, self.query@)[k],
            decreases store.entries@.len() - i,
        {
            assert(es[i as int] == store.entries@[i as int]@);
            pins.push(store.entries[i].pinned);
            let score: Option<i64> = if all {
                Some(i as i64)
            } else {
                fuzzy_match(store.entries[i].text.as_str(), self.query.as_str())
            };
            scores.push(score);
            i = i + 1;
        }
        assert(pins@ =~= pins_of(es));
        assert(scores@ =~= scores_of(es, self.query@));
        self.view = rank(&pins, &scores);
        let n: usize = self.view.len();
        let cur: usize = match self.selected {
            Some(p) => p,
            None => 0,
        };
        self.selected = if n == 0 {
            None
        } else if cur < n {
            Some(cur)
        } else {
            Some(n - 1)
        };
    }

    /// Move the selection by some rows.
    pub fn move_selection(&mut self, delta: isize)
        ensures
            final(self).query == old(self).query,
            final(self).view == old(self).view,
            final(self).selected == moved(
                old(self).selected,
                delta as int,
                old(self).view@.len(),
            ),
    {
        let n: usize = self.view.len();
        if n == 0 {
            return;
        }
        let cur: usize = match self.selected {
            Some(p) => p,
            None => 0,
        };
        let next: i128 = cur as i128 + delta as i128;
        self.selected = if next < 0 {
            Some(0)
        } else if next >= n as i128 {
            Some(n - 1)
        } else {
            Some(next as usize)
        };
    }

    /// The id of the selected entry.
    pub fn chosen(&self, store: &Store) -> (id: Option<u64>)
        requires
            self.shows(store@.entries),
        ensures
            id == self.selected_id(store@.entries),
    {
        match self.selected {
            Some(p) => {
                let idx: usize = self.view[p];
                assert(store@.entries[idx as int] == store.entries@[idx as int]@);
                Some(store.entries[idx].id)
            },
            None => None,
        }
    }

    /// Whether a key can be dealt with: where it leads to a search, the query and
    /// the texts are short enough for one.
    pub open spec fn can_take(self, es: Seq<EntryView>, key: Key) -> bool {
        let n = self.query@.len();
        match action_of(key) {
            Action::Type(_) => searchable(es) && n < MAX_QUERY,
            Action::Erase => n > 1 ==> searchable(es) && n - 1 <= MAX_QUERY,
            Action::Pin => n > 0 && self.selected is Some ==> searchable(es) && n <= MAX_QUERY,
            Action::Delete => n > 0 && self.selected is Some ==> searchable(es) && n <= MAX_QUERY,
            _ => true,
        }
    }

    /// Whether a key can be dealt with.
    pub fn takes(&self, store: &Store, key: Key) -> (res: bool)
        ensures
            res == self.can_take(store@.entries, key),
    {
        let n: usize = self.query.as_str().unicode_len();
        match action(key) {
            Action::Type(_) => n < MAX_QUERY && can_search(store),
            Action::Erase => n <= 1 || (n - 1 <= MAX_QUERY && can_search(store)),
            Action::Pin | Action::Delete => {
                n == 0 || self.selected.is_none() || (n <= MAX_QUERY && can_search(store))
            },
            _ => true,
        }
    }

    /// What a key does to the picker and to the history.
    pub fn on_key(&mut self, store: &mut Store, key: Key) -> (out: Outcome)
        requires
            old(self).shows(old(store)@.entries),
            old(self).can_take(old(store)@.entries, key),
        ensures
            final(self).shows(final(store)@.entries),
            searchable(old(store)@.entries) ==> searchable(final(store)@.entries),
            match action_of(key) {
                Action::Cancel => {
                    &&& out == Outcome::Done(None)
                    &&& *final(self) == *old(self)
                    &&& final(store)@ == old(store)@
                },
                Action::Pick => {
                    &&& out == Outcome::Done(old(self).selected_id(old(store)@.entries))
                    &&& *final(self) == *old(self)
                    &&& final(store)@ == old(store)@
                },
                Action::Nothing => {
                    &&& out == Outcome::Continue
                    &&& *final(self) == *old(self)
                    &&& final(store)@ == old(store)@
                },
                Action::Move(delta) => {
                    &&& out == Outcome::Continue
                    &&& final(store)@ == old(store)@
                    &&& final(self).query == old(self).query
                    &&& final(self).view == old(self).view
                    &&& final(self).selected == moved(
                        old(self).selected,
                        delta as int,
                        old(self).view@.len(),
                    )
                },
                Action::Type(c) => {
                    &&& out == Outcome::Continue
                    &&& final(store)@ == old(store)@
                    &&& final(self).query@ == old(self).query@.push(c)
                    &&& final(self).selected == kept_within(
                        old(self).selected,
                        final(self).view@.len(),
                    )
                },
                Action::Erase => {
                    &&& out == Outcome::Continue
                    &&& final(store)@ == old(store)@
                    &&& final(self).query@ == if old(self).query@.len() > 0 {
                        old(self).query@.drop_last()
                    } else {
                        old(self).query@
                    }
                    &&& final(self).selected == kept_within(
                        old(self).selected,
                        final(self).view@.len(),
                    )
                },
                Action::Pin => {
                    &&& out == Outcome::Save
                    &&& final(store)@ == match old(self).selected_id(old(store)@.entries) {
                        Some(id) => old(store)@.pin_toggled(id),
                        None => old(store)@,
                    }
                    &&& final(self).query == old(self).query
                    &&& final(self).selected == kept_within(
                        old(self).selected,
                        final(self).view@.len(),
                    )
                },
                Action::Delete => {
                    &&& out == Outcome::Save
                    &&& final(store)@ == match old(self).selected_id(old(store)@.entries) {
                        Some(id) => old(store)@.without(id),
                        None => old(store)@,
                    }
                    &&& final(self).query == old(self).query
                    &&& final(self).selected == kept_within(
                        old(self).selected,
                        final(self).view@.len(),
                    )
                },
            },
    {
        let ghost before = store@;
        match action(key) {
            Action::Cancel => Outcome::Done(None),
            Action::Pick => Outcome::Done(self.chosen(store)),
            Action::Nothing => Outcome::Continue,
            Action::Move(delta) => {
                self.move_selection(delta);
                Outcome::Continue
            },
            Action::Type(c) => {
                self.query.push(c);
                self.refilter(store);
                Outcome::Continue
            },
            Action::Erase => {
                let chars: Vec<char> = chars_of(self.query.as_str());
                if chars.len() > 0 {
                    self.query = collect(&chars, 0, chars.len() - 1);
                    assert(self.query@ =~= old(self).query@.drop_last());
                }
                self.refilter(store);
                Outcome::Continue
            },
            Action::Pin => {
                match self.chosen(store) {
                    Some(id) => {
                        store.toggle_pin(id);
                        proof {
                            crate::store::first_with_id_sound(before.entries, id);
                        }
                        assert(searchable(before.entries) ==> searchable(store@.entries)) by {
                            assert forall|i: int| 0 <= i < store@.entries.len() implies (
                            #[trigger] store@.entries[i]).text == before.entries[i].text by {}
                        }
                        self.refilter(store);
                    },
                    None => {},
                }
                Outcome::Save
            },
            Action::Delete => {
                match self.chosen(store) {
                    Some(id) => {
                        store.delete(id);
                        proof {
                            if searchable(before.entries) {
                                filtered_is_searchable(before.entries, |e: EntryView| e.id != id);
                            }
                        }
                        self.refilter(store);
                    },
                    None => {},
                }
                Outcome::Save
            },
        }
    }
}

proof fn filtered_is_searchable(es: Seq<EntryView>, keep: spec_fn(EntryView) -> bool)
    requires
        searchable(es),
    ensures
        searchable(es.filter(keep)),
    decreases es.len(),
{
    reveal(Seq::filter);
    if es.len() > 0 {
        assert(searchable(es.drop_last())) by {
            assert forall|i: int| 0 <= i < es.drop_last().len() implies fits(
                (#[trigger] es.drop_last()[i]).text.len(),
            ) by {
                assert(es.drop_last()[i] == es[i]);
            }
        }
        filtered_is_searchable(es.drop_last(), keep);
        let head = es.drop_last().filter(keep);
        assert(fits(es[es.len() - 1].text.len()));
        assert(searchable(head.push(es.last()))) by {
            assert forall|i: int| 0 <= i < head.push(es.last()).len() implies fits(
                (#[trigger] head.push(es.last())[i]).text.len(),
            ) by {
                if i < head.len() {
                    assert(head.push(es.last())[i] == head[i]);
                }
            }
        }
    }
}

// ---------------------------------------------------------------------------
// The screen

/// A row of the list.
#[derive(Debug)]
pub struct Row {
    pub pin: String,
    pub head: String,
    pub multi: String,
    pub details: String,
    /// Whether the row is selected.
    pub selected: bool,
}

/// The model of a row.
#[verifier::ext_equal]
pub struct RowView {
    pub pin: Seq<char>,
    pub head: Seq<char>,
    pub multi: Seq<char>,
    pub details: Seq<char>,
    pub selected: bool,
}

impl View for Row {
    type V = RowView;

    open spec fn view(&self) -> RowView {
        RowView {
            pin: self.pin@,
            head: self.head@,
            multi: self.multi@,
            details: self.details@,
            selected: self.selected,
        }
    }
}

/// The row of an entry.
pub open spec fn row_of(e: EntryView, now: i64, selected: bool) -> RowView {
    RowView {
        pin: if e.pinned {
            "📌 "@
        } else {
            "  "@
        },
        head: e.preview(80),
        multi: if e.is_multiline() {
            " ⏎"@
        } else {
            ""@
        },
        details: "  "@ + e.age(now) + " · "@ + e.human_size(),
        selected,
    }
}

/// The models of some rows.
pub open spec fn row_views(rows: Seq<Row>) -> Seq<RowView> {
    Seq::new(rows.len(), |i: int| rows[i]@)
}

/// A line of the preview pane, as it is or dimmed.
#[derive(Debug)]
pub struct PreviewLine {
    pub text: String,
    pub dim: bool,
}

/// The texts and dimming of some lines.
pub open spec fn preview_views(ls: Seq<PreviewLine>) -> Seq<(Seq<char>, bool)> {
    Seq::new(ls.len(), |i: int| (ls[i].text@, ls[i].dim))
}

/// The preview of a text: its first lines and an ellipsis, as far as they fit,
/// with one line more where the text has more lines than fit.
pub open spec fn text_preview(ls: Seq<Seq<char>>, room: nat) -> Seq<(Seq<char>, bool)> {
    let shown = if ls.len() > room {
        room
    } else {
        ls.len()
    };
    let all = Seq::new(shown, |i: int| (ls[i], false)).push(("…"@, true));
    let wanted = if ls.len() > room {
        room + 1
    } else {
        room
    };
    if wanted < all.len() {
        all.take(wanted as int)
    } else {
        all
    }
}

/// The title of the preview pane.
pub open spec fn preview_title(chosen: Option<EntryView>) -> Seq<char> {
    match chosen {
        Some(e) => " preview · #"@ + decimal(e.id as nat) + " · "@ + e.human_size() + " "@,
        None => " preview "@,
    }
}

/// The lines of the preview pane.
pub open spec fn preview_body(chosen: Option<EntryView>, room: nat) -> Seq<(Seq<char>, bool)> {
    match chosen {
        Some(e) => match e.kind {
            Kind::Image => seq![("[image payload]"@, true)],
            Kind::Text => text_preview(lines(e.text), room),
        },
        None => seq![("(no matches)"@, true)],
    }
}

/// The height of the preview pane with its borders, for a number of lines that
/// is taken as a 16-bit one.
pub open spec fn pane_height(room: nat) -> nat {
    room % 0x1_0000 + 2
}

/// Everything the picker draws.
#[derive(Debug)]
pub struct Screen {
    pub prompt: String,
    pub rows: Vec<Row>,
    pub title: String,
    pub body: Vec<PreviewLine>,
    pub pane_height: u16,
}

fn preview_of(e: &Entry, room: usize) -> (body: Vec<PreviewLine>)
    ensures
        preview_views(body@) == preview_body(Some(e@), room as nat),
{
    let mut body: Vec<PreviewLine> = Vec::new();
    match e.kind {
        Kind::Image => {
            body.push(PreviewLine { text: "[image payload]".to_owned(), dim: true });
            assert(preview_views(body@) =~= preview_body(Some(e@), room as nat));
        },
        Kind::Text => {
            let ls: Vec<String> = lines_of(e.text.as_str());
            let ghost v = lines(e.text@);
            assert(v.len() == ls@.len());
            let shown: usize = if ls.len() > room {
                room
            } else {
                ls.len()
            };
            let mut i: usize = 0;
            while i < shown
                invariant
                    v == views(ls@),
                    shown <= ls@.len(),
                    i <= shown,
                    body@.len() == i,
                    forall|k: int|
                        0 <= k < i ==> (#[trigger] body@[k]).text@ == v[k] && !body@[k].dim,
                decreases shown - i,
            {
                assert(v[i as int] == ls@[i as int]@);
                body.push(PreviewLine { text: ls[i].clone(), dim: false });
                i = i + 1;
            }
            if ls.len() > room || shown < room {
                body.push(PreviewLine { text: "…".to_owned(), dim: true });
            }
            assert(preview_views(body@) =~= text_preview(v, room as nat));
        },
    }
    body
}

impl Picker {
    /// The selected entry.
    pub open spec fn selected_entry(self, es: Seq<EntryView>) -> Option<EntryView> {
        match self.selected {
            Some(p) => Some(es[self.view@[p as int] as int]),
            None => None,
        }
    }

    fn row(&self, store: &Store, i: usize, now: i64) -> (row: Row)
        requires
            self.shows(store@.entries),
            i < self.view@.len(),
            i64::MIN <= now - store@.entries[self.view@[i as int] as int].ts <= i64::MAX,
        ensures
            row@ == row_of(
                store@.entries[self.view@[i as int] as int],
                now,
                self.selected == Some(i),
            ),
    {
        let idx: usize = self.view[i];
        assert(store@.entries[idx as int] == store.entries@[idx as int]@);
        let e: &Entry = &store.entries[idx];
        let pin: String = if e.pinned {
            "📌 ".to_owned()
        } else {
            "  ".to_owned()
        };
        let multi: String = if e.is_multiline() {
            " ⏎".to_owned()
        } else {
            "".to_owned()
        };
        let details: String = "  ".to_owned().concat(e.age(now).as_str()).concat(" · ").concat(
            e.human_size().as_str(),
        );
        let selected: bool = match self.selected {
            Some(p) => p == i,
            None => false,
        };
        Row { pin, head: e.preview(80), multi, details, selected }
    }

    /// What to draw.
    pub fn render(&self, store: &Store, now: i64, preview_lines: usize) -> (screen: Screen)
        requires
            self.shows(store@.entries),
            forall|i: int|
                0 <= i < self.view@.len() ==> i64::MIN <= now - store@.entries[(
                #[trigger] self.view@[i]) as int].ts <= i64::MAX,
            pane_height(preview_lines as nat) <= u16::MAX,
        ensures
            screen.prompt@ == "❯ "@ + self.query@,
            row_views(screen.rows@) == Seq::new(
                self.view@.len(),
                |i: int|
                    row_of(
                        store@.entries[self.view@[i] as int],
                        now,
                        self.selected == Some(i as usize),
                    ),
            ),
            screen.title@ == preview_title(self.selected_entry(store@.entries)),
            preview_views(screen.body@) == preview_body(
                self.selected_entry(store@.entries),
                preview_lines as nat,
            ),
            screen.pane_height == pane_height(preview_lines as nat),
    {
        let ghost es = store@.entries;
        let mut rows: Vec<Row> = Vec::new();
        let mut i: usize = 0;
        while i < self.view.len()
            invariant
                es == store@.entries,
                self.shows(es),
                forall|k: int|
                    0 <= k < self.view@.len() ==> i64::MIN <= now - es[(
                    #[trigger] self.view@[k]) as int].ts <= i64::MAX,
                i <= self.view@.len(),
                rows@.len() == i,
                forall|k: int|
                    0 <= k < i ==> (#[trigger] rows@[k])@ == row_of(
                        es[self.view@[k] as int],
                        now,
                        self.selected == Some(k as usize),
                    ),
            decreases self.view@.len() - i,
        {
            assert(self.view@[i as int] < es.len());
            rows.push(self.row(store, i, now));
            i = i + 1;
        }
        let title: String;
        let body: Vec<PreviewLine>;
        match self.selected {
            Some(p) => {
                let idx: usize = self.view[p];
                assert(es[idx as int] == store.entries@[idx as int]@);
                let e: &Entry = &store.entries[idx];
                title = " preview · #".to_owned().concat(decimal_of(e.id).as_str()).concat(
                    " · ",
                ).concat(e.human_size().as_str()).concat(" ");
                body = preview_of(e, preview_lines);
            },
            None => {
                title = " preview ".to_owned();
                let mut none: Vec<PreviewLine> = Vec::new();
                none.push(PreviewLine { text: "(no matches)".to_owned(), dim: true });
                assert(preview_views(none@) =~= preview_body(None, preview_lines as nat));
                body = none;
            },
        }
        let prompt: String = "❯ ".to_owned().concat(self.query.as_str());
        let pane_height: u16 = (preview_lines % 0x1_0000) as u16 + 2;
        let screen = Screen { prompt, rows, title, body, pane_height };
        assert(row_views(screen.rows@) =~= Seq::new(
            self.view@.len(),
            |i: int|
                row_of(
                    store@.entries[self.view@[i] as int],
                    now,
                    self.selected == Some(i as usize),
                ),
        ));
        screen
    }
}

// ---------------------------------------------------------------------------
// Laws of the listing

/// No entry is listed twice.
pub proof fn listed_once(pins: Seq<bool>, scores: Seq<Option<i64>>, view: Seq<usize>, i: int, j: int)
    requires
        is_ranking(pins, scores, view),
        0 <= i < j < view.len(),
    ensures
        view[i] != view[j],
{
}

/// With nothing searched for, every entry is listed; pinned entries stand above
/// all others, and among those alike the newer stands above the older.
pub proof fn unfiltered_lists_all(es: Seq<EntryView>, view: Seq<usize>)
    requires
        is_ranking(pins_of(es), scores_of(es, seq![]), view),
        es.len() < i64::MAX / 2,
    ensures
        forall|k: usize| k < es.len() ==> #[trigger] view.contains(k),
        forall|i: int, j: int|
            #![trigger view[i], view[j]]
            0 <= i < j < view.len() ==> {
                let a = es[view[i] as int];
                let b = es[view[j] as int];
                (a.pinned && !b.pinned) || (a.pinned == b.pinned && view[i] > view[j])
            },
{
    assert forall|k: usize| k < es.len() implies #[trigger] view.contains(k) by {
        assert(scores_of(es, seq![])[k as int] is Some);
    }
    assert forall|i: int, j: int|
        #![trigger view[i], view[j]]
        0 <= i < j < view.len() implies {
        let a = es[view[i] as int];
        let b = es[view[j] as int];
        (a.pinned && !b.pinned) || (a.pinned == b.pinned && view[i] > view[j])
    } by {
        assert(listed_above(
            pins_of(es),
            scores_of(es, seq![]),
            view[i] as int,
            view[j] as int,
        ));
    }
}

/// Pinned entries stand above all others, and among those alike the better match
/// stands above the worse.
pub proof fn ranking_order(pins: Seq<bool>, scores: Seq<Option<i64>>, view: Seq<usize>, i: int, j: int)
    requires
        is_ranking(pins, scores, view),
        pins.len() == scores.len(),
        forall|k: int|
            0 <= k < scores.len() ==> ((#[trigger] scores[k]) matches Some(n) ==> i32::MIN <= n
                <= i32::MAX),
        0 <= i < j < view.len(),
    ensures
        ({
            let a = view[i] as int;
            let b = view[j] as int;
            (pins[a] && !pins[b]) || (pins[a] == pins[b] && scores[a]->0 >= scores[b]->0)
        }),
{
    let a = view[i] as int;
    let b = view[j] as int;
    assert(listed_above(pins, scores, a, b));
    assert(scores[a] is Some && scores[b] is Some);
}

/// The ranking leaves no choice: two listings of the same scores are the same.
pub proof fn ranking_is_unique(
    pins: Seq<bool>,
    scores: Seq<Option<i64>>,
    v: Seq<usize>,
    w: Seq<usize>,
)
    requires
        is_ranking(pins, scores, v),
        is_ranking(pins, scores, w),
    ensures
        v == w,
{
    ranking_prefix(pins, scores, v, w, v.len());
    ranking_prefix(pins, scores, w, v, w.len());
    assert(v =~= w);
}

/// Each row of one listing is the same row of another.
proof fn ranking_prefix(
    pins: Seq<bool>,
    scores: Seq<Option<i64>>,
    v: Seq<usize>,
    w: Seq<usize>,
    n: nat,
)
    requires
        is_ranking(pins, scores, v),
        is_ranking(pins, scores, w),
        n <= v.len(),
    ensures
        n <= w.len(),
        forall|i: int| 0 <= i < n ==> v[i] == w[i],
    decreases n,
{
    if n > 0 {
        ranking_prefix(pins, scores, v, w, (n - 1) as nat);
        let k = n - 1;
        let a = v[k];
        assert(scores[a as int] is Some);
        assert(w.contains(a));
        let p = choose|p: int| 0 <= p < w.len() && w[p] == a;
        if p < k {
            assert(v[p] == w[p]);
            assert(listed_above(pins, scores, v[p] as int, v[k] as int));
        }
        if p > k {
            let b = w[k];
            assert(listed_above(pins, scores, w[k] as int, w[p] as int));
            assert(scores[b as int] is Some);
            assert(v.contains(b));
            let q = choose|q: int| 0 <= q < v.len() && v[q] == b;
            if q < k {
                assert(w[q] == v[q]);
                assert(listed_above(pins, scores, w[q] as int, w[k] as int));
            }
            if q > k {
                assert(listed_above(pins, scores, v[k] as int, v[q] as int));
            }
        }
    }
}

} // verus!
