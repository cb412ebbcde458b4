//! The searchable selector: an incremental-search dropdown over a catalog of
//! items, with keyboard and mouse navigation.
//!
//! The selector is a state container with pure transitions. It never touches
//! the screen: every transition answers with a [`Reaction`] that tells the
//! host what to do (call the selection callback, scroll a row into view, arm
//! the close timer, suppress the key's default action).

use crate::text;
use vstd::prelude::*;

verus! {

/// Number of rows a selector shows unless told otherwise.
pub const DEFAULT_MAX_RESULTS: usize = 30;

/// Grace delay between losing focus and closing the dropdown, in milliseconds.
/// It lets a mouse press on a row be handled before the row disappears.
pub const CLOSE_DELAY_MS: u32 = 150;

/// What the selector asks of the items it searches.
pub trait SearchItem {
    /// Whether the item is a hit for a search term that is already lowercase.
    spec fn matches(&self, term: Seq<char>) -> bool;

    /// The text that identifies the item in a rendered list.
    spec fn key_text(&self) -> Seq<char>;

    /// The number that tells the items of one catalog apart.
    spec fn ident(&self) -> nat;

    /// Items that differ in their number differ in their key.
    proof fn lemma_key_identifies(&self, other: &Self)
        requires
            self.ident() != other.ident(),
        ensures
            self.key_text() != other.key_text(),
    ;

    fn is_match(&self, term: &str) -> (hit: bool)
        ensures
            hit == self.matches(term@),
    ;

    fn key(&self) -> (k: String)
        ensures
            k@ == self.key_text(),
    ;
}

/// The term a query is matched with: its lowercase form. Whitespace is kept.
pub open spec fn search_term(query: Seq<char>) -> Seq<char> {
    if query.len() == 0 {
        query
    } else {
        text::lowercased(query)
    }
}

/// The positions `0, 1, .., n - 1`.
pub open spec fn positions(n: nat) -> Seq<usize> {
    Seq::new(n, |i: int| i as usize)
}

/// The test "the item at this position is a hit for `term`".
pub open spec fn hit_test<T: SearchItem>(items: Seq<T>, term: Seq<char>) -> spec_fn(usize) -> bool {
    |i: usize| items[i as int].matches(term)
}

/// Positions of all hits among the first `n` items, in catalog order.
pub open spec fn hits_among<T: SearchItem>(items: Seq<T>, term: Seq<char>, n: nat) -> Seq<usize> {
    positions(n).filter(hit_test(items, term))
}

/// Positions of all hits in the catalog, in catalog order.
pub open spec fn hits<T: SearchItem>(items: Seq<T>, term: Seq<char>) -> Seq<usize> {
    hits_among(items, term, items.len())
}

/// What the dropdown lists for a query: nothing for the empty query,
/// otherwise the first `max_results` hits in catalog order.
pub open spec fn search_results<T: SearchItem>(
    items: Seq<T>,
    query: Seq<char>,
    max_results: nat,
) -> Seq<usize> {
    let all = hits(items, search_term(query));
    if query.len() == 0 {
        Seq::empty()
    } else if all.len() <= max_results {
        all
    } else {
        all.take(max_results as int)
    }
}

/// Extending the scanned range by one item appends that item's position if it
/// is a hit and changes nothing otherwise.
proof fn lemma_hits_among_step<T: SearchItem>(items: Seq<T>, term: Seq<char>, n: nat)
    requires
        n < items.len(),
        n <= usize::MAX,
    ensures
        hits_among(items, term, n + 1) == if items[n as int].matches(term) {
            hits_among(items, term, n).push(n as usize)
        } else {
            hits_among(items, term, n)
        },
{
    reveal(Seq::filter);
    assert(positions(n + 1).drop_last() =~= positions(n));
    assert(positions(n + 1).last() == n as usize);
}

/// The hits among a shorter range are a prefix of the hits among a longer one.
proof fn lemma_hits_among_prefix<T: SearchItem>(items: Seq<T>, term: Seq<char>, m: nat, n: nat)
    requires
        m <= n <= items.len(),
        n <= usize::MAX,
    ensures
        hits_among(items, term, m).len() <= hits_among(items, term, n).len(),
        hits_among(items, term, n).take(hits_among(items, term, m).len() as int) == hits_among(
            items,
            term,
            m,
        ),
    decreases n - m,
{
    if m < n {
        lemma_hits_among_prefix(items, term, m, (n - 1) as nat);
        lemma_hits_among_step(items, term, (n - 1) as nat);
        let short = hits_among(items, term, m);
        let before = hits_among(items, term, (n - 1) as nat);
        let full = hits_among(items, term, n);
        assert(full.take(short.len() as int) =~= before.take(short.len() as int));
    } else {
        let short = hits_among(items, term, m);
        assert(short.take(short.len() as int) =~= short);
    }
}

/// The hits among the first `n` items are positions below `n` of matching
/// items, in ascending order, and no matching position below `n` is missing.
proof fn lemma_hits_among_shape<T: SearchItem>(items: Seq<T>, term: Seq<char>, n: nat)
    requires
        n <= items.len(),
        n <= usize::MAX,
    ensures
        hits_among(items, term, n).len() <= n,
        forall|k: int|
            0 <= k < hits_among(items, term, n).len() ==> {
                &&& (#[trigger] hits_among(items, term, n)[k]) < n
                &&& items[hits_among(items, term, n)[k] as int].matches(term)
            },
        forall|j: int, k: int|
            0 <= j < k < hits_among(items, term, n).len() ==> (#[trigger] hits_among(
                items,
                term,
                n,
            )[j]) < (#[trigger] hits_among(items, term, n)[k]),
        forall|p: int|
            0 <= p < n && (#[trigger] items[p]).matches(term) ==> hits_among(
                items,
                term,
                n,
            ).contains(p as usize),
    decreases n,
{
    if n == 0 {
        reveal(Seq::filter);
        assert(positions(0) =~= Seq::<usize>::empty());
    } else {
        let m = (n - 1) as nat;
        lemma_hits_among_shape(items, term, m);
        lemma_hits_among_step(items, term, m);
        let before = hits_among(items, term, m);
        let now = hits_among(items, term, n);
        assert forall|p: int| 0 <= p < n && (#[trigger] items[p]).matches(term) implies now.contains(
            p as usize,
        ) by {
            if p < m {
                let k = choose|k: int| 0 <= k < before.len() && before[k] == p as usize;
                assert(now[k] == p as usize);
            } else {
                assert(now[now.len() - 1] == p as usize);
            }
        }
    }
}

/// Law of the result list. It never holds more than `max_results` rows; every
/// row is a catalog position whose item matches the lowercase query; rows
/// come in catalog order; and no hit is passed over: a hit that is not listed
/// lies behind every listed one, and the list is then full.
pub proof fn lemma_search_results<T: SearchItem>(
    items: Seq<T>,
    query: Seq<char>,
    max_results: nat,
)
    requires
        items.len() <= usize::MAX,
    ensures
        search_results(items, query, max_results).len() <= max_results,
        forall|k: int|
            0 <= k < search_results(items, query, max_results).len() ==> {
                &&& (#[trigger] search_results(items, query, max_results)[k]) < items.len()
                &&& items[search_results(items, query, max_results)[k] as int].matches(
                    search_term(query),
                )
            },
        forall|j: int, k: int|
            0 <= j < k < search_results(items, query, max_results).len() ==> (
            #[trigger] search_results(items, query, max_results)[j]) < (#[trigger] search_results(
                items,
                query,
                max_results,
            )[k]),
        forall|p: int|
            0 <= p < items.len() && query.len() > 0 && (#[trigger] items[p]).matches(
                search_term(query),
            ) && !search_results(items, query, max_results).contains(p as usize) ==> {
                &&& search_results(items, query, max_results).len() == max_results
                &&& forall|k: int|
                    0 <= k < search_results(items, query, max_results).len() ==> (
                    #[trigger] search_results(items, query, max_results)[k]) < p
            },
{
    let term = search_term(query);
    let all = hits(items, term);
    let listed = search_results(items, query, max_results);
    lemma_hits_among_shape(items, term, items.len());
    if query.len() > 0 && all.len() > max_results {
        assert forall|p: int|
            0 <= p < items.len() && (#[trigger] items[p]).matches(term) && !listed.contains(
                p as usize,
            ) implies forall|k: int| 0 <= k < listed.len() ==> (#[trigger] listed[k]) < p by {
            let at = choose|at: int| 0 <= at < all.len() && all[at] == p as usize;
            if at < max_results {
                assert(listed[at] == p as usize);
            }
            assert forall|k: int| 0 <= k < listed.len() implies (#[trigger] listed[k]) < p by {
                assert(listed[k] == all[k]);
                assert(all[k] < all[at]);
            }
        }
    }
}

/// Computes what the dropdown lists for `query`: the positions of the first
/// `max_results` items that match the lowercase query, in catalog order.
pub fn filter_items<T: SearchItem>(items: &Vec<T>, query: &str, max_results: usize) -> (found: Vec<
    usize,
>)
    ensures
        found@ == search_results(items@, query@, max_results as nat),
{
    let mut found: Vec<usize> = Vec::new();
    if query.is_empty() {
        return found;
    }
    let term = text::to_lowercase(query);
    let mut i: usize = 0;
    proof {
        reveal(Seq::filter);
        assert(positions(0) =~= Seq::<usize>::empty());
    }
    while i < items.len() && found.len() < max_results
        invariant
            i <= items.len(),
            found@ == hits_among(items@, term@, i as nat),
            found.len() <= max_results,
        decreases items.len() - i,
    {
        proof {
            lemma_hits_among_step(items@, term@, i as nat);
        }
        if items[i].is_match(term.as_str()) {
            found.push(i);
        }
        i += 1;
    }
    proof {
        let all = hits(items@, term@);
        lemma_hits_among_prefix(items@, term@, i as nat, items@.len());
        if i < items.len() && all.len() <= max_results {
            // the list is full and holds a prefix of all hits: it holds them all
            assert(all.take(found.len() as int) =~= all);
        }
    }
    found
}

/// No two items of a catalog carry the same number.
pub open spec fn distinct_idents<T: SearchItem>(items: Seq<T>) -> bool {
    forall|i: int, j: int|
        0 <= i < j < items.len() ==> (#[trigger] items[i]).ident() != (#[trigger] items[j]).ident()
}

/// Law: in a catalog whose items carry distinct numbers, the items at two
/// different positions have different keys. So have any two rows of a
/// result list, which never lists a position twice.
pub proof fn lemma_keys_are_unique<T: SearchItem>(items: Seq<T>, i: int, j: int)
    requires
        distinct_idents(items),
        0 <= i < items.len(),
        0 <= j < items.len(),
        i != j,
    ensures
        items[i].key_text() != items[j].key_text(),
{
    if i < j {
        assert(items[i].ident() != items[j].ident());
    } else {
        assert(items[j].ident() != items[i].ident());
    }
    items[i].lemma_key_identifies(&items[j]);
}

/// Law: picking items out of a catalog by a test keeps their numbers
/// distinct.
pub proof fn lemma_filter_keeps_distinct_idents<T: SearchItem>(
    items: Seq<T>,
    test: spec_fn(T) -> bool,
)
    requires
        distinct_idents(items),
    ensures
        distinct_idents(items.filter(test)),
    decreases items.len(),
{
    reveal(Seq::filter);
    if items.len() > 0 {
        let rest = items.drop_last();
        let kept = rest.filter(test);
        assert(distinct_idents(rest)) by {
            assert forall|i: int, j: int| 0 <= i < j < rest.len() implies (#[trigger] rest[i]).ident()
                != (#[trigger] rest[j]).ident() by {
                assert(rest[i] == items[i] && rest[j] == items[j]);
            }
        }
        lemma_filter_keeps_distinct_idents(rest, test);
        if test(items.last()) {
            let out = items.filter(test);
            assert forall|i: int, j: int| 0 <= i < j < out.len() implies (#[trigger] out[i]).ident()
                != (#[trigger] out[j]).ident() by {
                if j < kept.len() {
                    assert(out[i] == kept[i] && out[j] == kept[j]);
                } else {
                    assert(out[i] == kept[i]);
                    assert(kept.contains(kept[i]));
                    rest.lemma_filter_contains_rev(test, kept[i]);
                    let at = choose|at: int| 0 <= at < rest.len() && rest[at] == kept[i];
                    assert(items[at] == kept[i]);
                    assert(items[items.len() - 1] == out[j]);
                }
            }
        }
    }
}

/// Keys the selector reacts to.
#[derive(Clone, Copy, Debug, PartialEq, Eq)]
pub enum Key {
    ArrowDown,
    ArrowUp,
    Enter,
    Escape,
    Other,
}

/// What can happen to a selector between two renders.
#[derive(Debug)]
pub enum Event {
    /// The text of the input box changed to this value.
    Input(String),
    /// The input box gained focus.
    FocusIn,
    /// The input box lost focus.
    Blur,
    /// The grace delay armed by a `Blur` ran out.
    CloseTimer,
    /// A key went down in the input box.
    Key(Key),
    /// The mouse button went down on the row with this number.
    MouseDown(usize),
    /// The pointer moved onto the row with this number.
    MouseEnter(usize),
}

/// The one thing a transition may ask the host to do.
#[derive(Clone, Copy, Debug, PartialEq, Eq)]
pub enum Command {
    Nothing,
    /// Call the selection callback with the catalog item at this position.
    Select(usize),
    /// Scroll the row with this number into view.
    ScrollTo(usize),
    /// Deliver `Event::CloseTimer` after this many milliseconds.
    CloseAfter(u32),
}

/// The selector's answer to an event.
#[derive(Clone, Copy, Debug, PartialEq, Eq)]
pub struct Reaction {
    /// Whether the host must suppress the default action of the key.
    pub prevent_default: bool,
    pub command: Command,
}

/// The answer that asks nothing of the host.
pub open spec fn quiet() -> Reaction {
    Reaction { prevent_default: false, command: Command::Nothing }
}

/// The row an ArrowDown moves the highlight to, in a list of `len > 0` rows.
pub open spec fn row_below(highlighted: Option<usize>, len: nat) -> usize {
    match highlighted {
        Some(row) => if row + 1 >= len {
            0
        } else {
            (row + 1) as usize
        },
        None => 0,
    }
}

/// The row an ArrowUp moves the highlight to, in a list of `len > 0` rows.
pub open spec fn row_above(highlighted: Option<usize>, len: nat) -> usize {
    match highlighted {
        Some(row) => if row == 0 {
            (len - 1) as usize
        } else {
            (row - 1) as usize
        },
        None => (len - 1) as usize,
    }
}

/// Configuration of a selector.
pub struct SearchBarProps<T> {
    /// The catalog to search, in display order.
    pub items: Vec<T>,
    /// Hint shown in the empty input box.
    pub placeholder: String,
    /// Upper bound on the number of rows in the dropdown.
    pub max_results: usize,
    /// Whether the input box is inert.
    pub disabled: bool,
}

impl<T> SearchBarProps<T> {
    /// Configuration with the default hint, the default row limit, enabled.
    pub fn new(items: Vec<T>) -> (props: Self)
        ensures
            props.items == items,
            props.placeholder@ == "Search..."@,
            props.max_results == DEFAULT_MAX_RESULTS,
            !props.disabled,
    {
        SearchBarProps {
            items,
            placeholder: String::from_str("Search..."),
            max_results: DEFAULT_MAX_RESULTS,
            disabled: false,
        }
    }
}

/// The mathematical state of a selector: its configuration and its session.
pub struct Selector<T> {
    pub items: Seq<T>,
    pub placeholder: Seq<char>,
    pub max_results: nat,
    pub disabled: bool,
    /// The text in the input box.
    pub query: Seq<char>,
    /// Whether the dropdown is meant to be shown.
    pub open: bool,
    /// The highlighted row of the result list, if any.
    pub highlighted: Option<usize>,
}

/// The coarse states of a session.
#[derive(Clone, Copy, Debug, PartialEq, Eq)]
pub enum Phase {
    /// Nothing typed, dropdown closed.
    Idle,
    /// Text typed, dropdown meant to be shown, but nothing matches.
    Typing,
    /// Text typed and the dropdown shows results.
    Open,
    /// Text typed, dropdown hidden.
    ClosedWithQuery,
}

impl<T: SearchItem> Selector<T> {
    /// The result list: derived from catalog and query, never stored apart.
    pub open spec fn results(self) -> Seq<usize> {
        search_results(self.items, self.query, self.max_results)
    }

    /// Whether the dropdown is on screen. An empty list is never shown.
    pub open spec fn dropdown_visible(self) -> bool {
        self.open && self.results().len() > 0
    }

    /// The invariant of a selector. An open dropdown has a query; a highlight
    /// is a row of the current result list; a visible dropdown has a highlight.
    pub open spec fn valid(self) -> bool {
        &&& self.items.len() <= usize::MAX
        &&& self.max_results <= usize::MAX
        &&& self.open ==> self.query.len() > 0
        &&& match self.highlighted {
            Some(row) => row < self.results().len(),
            None => !self.dropdown_visible(),
        }
    }

    pub open spec fn phase(self) -> Phase {
        if self.query.len() == 0 {
            Phase::Idle
        } else if !self.open {
            Phase::ClosedWithQuery
        } else if self.results().len() > 0 {
            Phase::Open
        } else {
            Phase::Typing
        }
    }

    /// The highlight after the result list or the open flag changed: kept
    /// while it is a row of a visible list, row 0 if a visible list has no
    /// such highlight, none if nothing is visible.
    pub open spec fn reconciled_highlight(self) -> Option<usize> {
        if !self.dropdown_visible() {
            None
        } else {
            match self.highlighted {
                Some(row) => if row < self.results().len() {
                    Some(row)
                } else {
                    Some(0)
                },
                None => Some(0),
            }
        }
    }

    pub open spec fn reconciled(self) -> Self {
        Selector { highlighted: self.reconciled_highlight(), ..self }
    }

    /// The state every selection leaves behind.
    pub open spec fn cleared(self) -> Self {
        Selector { query: Seq::empty(), open: false, highlighted: None, ..self }
    }

    /// The state with the dropdown closed and the query kept.
    pub open spec fn closed(self) -> Self {
        Selector { open: false, highlighted: None, ..self }
    }

    /// The catalog position that Enter selects, if any.
    pub open spec fn enter_target(self) -> Option<usize> {
        match self.highlighted {
            Some(row) => if row < self.results().len() {
                Some(self.results()[row as int])
            } else {
                None
            },
            None => None,
        }
    }

    /// The catalog position that a mouse press on `row` selects, if any.
    pub open spec fn press_target(self, row: usize) -> Option<usize> {
        if self.dropdown_visible() && row < self.results().len() {
            Some(self.results()[row as int])
        } else {
            None
        }
    }

    pub open spec fn after_input(self, text: Seq<char>) -> Self {
        if self.disabled {
            self
        } else {
            Selector { query: text, open: text.len() > 0, ..self }.reconciled()
        }
    }

    pub open spec fn after_focus_in(self) -> Self {
        if !self.disabled && self.query.len() > 0 && self.results().len() > 0 {
            Selector { open: true, ..self }.reconciled()
        } else {
            self
        }
    }

    pub open spec fn after_key(self, key: Key) -> Self {
        if self.disabled {
            self
        } else {
            match key {
                Key::ArrowDown => if self.results().len() == 0 {
                    self
                } else {
                    Selector {
                        highlighted: Some(row_below(self.highlighted, self.results().len())),
                        ..self
                    }
                },
                Key::ArrowUp => if self.results().len() == 0 {
                    self
                } else {
                    Selector {
                        highlighted: Some(row_above(self.highlighted, self.results().len())),
                        ..self
                    }
                },
                Key::Enter => if self.enter_target() is Some {
                    self.cleared()
                } else {
                    self
                },
                Key::Escape => self.closed(),
                Key::Other => self,
            }
        }
    }

    pub open spec fn after_mouse_down(self, row: usize) -> Self {
        if self.press_target(row) is Some {
            self.cleared()
        } else {
            self
        }
    }

    pub open spec fn after_mouse_enter(self, row: usize) -> Self {
        if self.dropdown_visible() && row < self.results().len() {
            Selector { highlighted: Some(row), ..self }
        } else {
            self
        }
    }

    /// The state after the host handed over a new configuration.
    pub open spec fn after_props(
        self,
        items: Seq<T>,
        placeholder: Seq<char>,
        max_results: nat,
        disabled: bool,
    ) -> Self {
        Selector { items, placeholder, max_results, disabled, ..self }.reconciled()
    }

    /// The state an event leads to.
    pub open spec fn after(self, event: Event) -> Self {
        match event {
            Event::Input(text) => self.after_input(text@),
            Event::FocusIn => self.after_focus_in(),
            Event::Blur => self,
            Event::CloseTimer => self.closed(),
            Event::Key(key) => self.after_key(key),
            Event::MouseDown(row) => self.after_mouse_down(row),
            Event::MouseEnter(row) => self.after_mouse_enter(row),
        }
    }

    pub open spec fn key_reaction(self, key: Key) -> Reaction {
        if self.disabled {
            quiet()
        } else {
            match key {
                Key::ArrowDown => if self.results().len() == 0 {
                    quiet()
                } else {
                    Reaction {
                        prevent_default: true,
                        command: Command::ScrollTo(
                            row_below(self.highlighted, self.results().len()),
                        ),
                    }
                },
                Key::ArrowUp => if self.results().len() == 0 {
                    quiet()
                } else {
                    Reaction {
                        prevent_default: true,
                        command: Command::ScrollTo(
                            row_above(self.highlighted, self.results().len()),
                        ),
                    }
                },
                Key::Enter => Reaction {
                    prevent_default: true,
                    command: match self.enter_target() {
                        Some(position) => Command::Select(position),
                        None => Command::Nothing,
                    },
                },
                Key::Escape => quiet(),
                Key::Other => quiet(),
            }
        }
    }

    /// What an event asks of the host.
    pub open spec fn reaction(self, event: Event) -> Reaction {
        match event {
            Event::Input(_) => quiet(),
            Event::FocusIn => quiet(),
            Event::Blur => if self.disabled {
                quiet()
            } else {
                Reaction { prevent_default: false, command: Command::CloseAfter(CLOSE_DELAY_MS) }
            },
            Event::CloseTimer => quiet(),
            Event::Key(key) => self.key_reaction(key),
            Event::MouseDown(row) => match self.press_target(row) {
                Some(position) => Reaction {
                    prevent_default: false,
                    command: Command::Select(position),
                },
                None => quiet(),
            },
            Event::MouseEnter(_) => quiet(),
        }
    }
}

/// Law: every event keeps a valid selector valid. In particular the highlight
/// is always a row of the current result list, and there is none once the
/// list is empty.
pub proof fn lemma_event_keeps_valid<T: SearchItem>(s: Selector<T>, event: Event)
    requires
        s.valid(),
    ensures
        s.after(event).valid(),
        s.after(event).highlighted matches Some(row) ==> row < s.after(event).results().len(),
        s.after(event).results().len() == 0 ==> s.after(event).highlighted is None,
{
}

/// Law: a new configuration keeps a valid selector valid, however the
/// catalog changed under the highlight.
pub proof fn lemma_props_keep_valid<T: SearchItem>(
    s: Selector<T>,
    items: Seq<T>,
    placeholder: Seq<char>,
    max_results: nat,
    disabled: bool,
)
    requires
        s.valid(),
        items.len() <= usize::MAX,
        max_results <= usize::MAX,
    ensures
        s.after_props(items, placeholder, max_results, disabled).valid(),
{
}

/// Law: reconciling the highlight twice is the same as reconciling it once,
/// and it changes nothing while a valid selector shows its dropdown.
pub proof fn lemma_reconcile_idempotent<T: SearchItem>(s: Selector<T>)
    ensures
        s.reconciled().reconciled() == s.reconciled(),
        s.valid() && s.dropdown_visible() ==> s.reconciled() == s,
{
}

/// Law: an open dropdown always has a query behind it.
pub proof fn lemma_open_has_query<T: SearchItem>(s: Selector<T>)
    requires
        s.valid(),
        s.open,
    ensures
        s.query.len() > 0,
        s.phase() == Phase::Open || s.phase() == Phase::Typing,
{
}

/// Law: ArrowDown on the last row wraps to row 0, ArrowUp on row 0 wraps to
/// the last row, and from no highlight they enter the list at its first and
/// last row. On an empty list both keys change nothing and ask nothing.
pub proof fn lemma_arrows_wrap<T: SearchItem>(s: Selector<T>)
    requires
        s.valid(),
        !s.disabled,
    ensures
        s.results().len() == 0 ==> {
            &&& s.after_key(Key::ArrowDown) == s
            &&& s.after_key(Key::ArrowUp) == s
            &&& s.key_reaction(Key::ArrowDown) == quiet()
            &&& s.key_reaction(Key::ArrowUp) == quiet()
        },
        s.highlighted matches Some(row) ==> s.after_key(Key::ArrowDown).highlighted == Some(
            if row + 1 == s.results().len() {
                0usize
            } else {
                (row + 1) as usize
            },
        ),
        s.highlighted matches Some(row) ==> s.after_key(Key::ArrowUp).highlighted == Some(
            if row == 0 {
                (s.results().len() - 1) as usize
            } else {
                (row - 1) as usize
            },
        ),
        s.highlighted is None && s.results().len() > 0 ==> {
            &&& s.after_key(Key::ArrowDown).highlighted == Some(0usize)
            &&& s.after_key(Key::ArrowUp).highlighted == Some((s.results().len() - 1) as usize)
        },
{
}

/// Law: in a list of more than zero rows, ArrowUp undoes ArrowDown and
/// ArrowDown undoes ArrowUp.
pub proof fn lemma_arrows_are_inverse<T: SearchItem>(s: Selector<T>)
    requires
        s.valid(),
        !s.disabled,
        s.highlighted is Some,
    ensures
        s.after_key(Key::ArrowDown).after_key(Key::ArrowUp) == s,
        s.after_key(Key::ArrowUp).after_key(Key::ArrowDown) == s,
{
}

/// Law: Enter without a highlight changes nothing and selects nothing. Enter
/// with a highlight asks for exactly one selection, that of the highlighted
/// item, and leaves the query empty, the dropdown closed and no highlight.
pub proof fn lemma_enter<T: SearchItem>(s: Selector<T>)
    requires
        s.valid(),
        !s.disabled,
    ensures
        s.highlighted is None ==> {
            &&& s.after_key(Key::Enter) == s
            &&& s.key_reaction(Key::Enter).command == Command::Nothing
        },
        s.highlighted matches Some(row) ==> {
            &&& s.key_reaction(Key::Enter).command == Command::Select(s.results()[row as int])
            &&& s.after_key(Key::Enter).query.len() == 0
            &&& !s.after_key(Key::Enter).open
            &&& s.after_key(Key::Enter).highlighted is None
            &&& s.after_key(Key::Enter).results().len() == 0
            &&& s.after_key(Key::Enter).phase() == Phase::Idle
        },
{
}

/// Law: pressing the mouse on the highlighted row and pressing Enter select
/// the same item and lead to the same state.
pub proof fn lemma_mouse_down_is_enter<T: SearchItem>(s: Selector<T>, row: usize)
    requires
        s.valid(),
        !s.disabled,
        s.dropdown_visible(),
        s.highlighted == Some(row),
    ensures
        s.after(Event::MouseDown(row)) == s.after(Event::Key(Key::Enter)),
        s.reaction(Event::MouseDown(row)).command == s.reaction(Event::Key(Key::Enter)).command,
        s.reaction(Event::MouseDown(row)).command == Command::Select(s.results()[row as int]),
{
}

/// Law: a mouse press on any row of the visible dropdown selects that row's
/// item and leaves the same state as every other selection.
pub proof fn lemma_mouse_down<T: SearchItem>(s: Selector<T>, row: usize)
    requires
        s.valid(),
    ensures
        s.dropdown_visible() && row < s.results().len() ==> {
            &&& s.reaction(Event::MouseDown(row)).command == Command::Select(
                s.results()[row as int],
            )
            &&& s.after(Event::MouseDown(row)) == s.cleared()
        },
        !(s.dropdown_visible() && row < s.results().len()) ==> {
            &&& s.reaction(Event::MouseDown(row)) == quiet()
            &&& s.after(Event::MouseDown(row)) == s
        },
{
}

/// Law: Escape keeps the typed query, closes the dropdown and drops the
/// highlight.
pub proof fn lemma_escape<T: SearchItem>(s: Selector<T>)
    requires
        !s.disabled,
    ensures
        s.after_key(Key::Escape).query == s.query,
        !s.after_key(Key::Escape).open,
        s.after_key(Key::Escape).highlighted is None,
        s.key_reaction(Key::Escape) == quiet(),
{
}

/// Law: the close timer may fire late. After a selection or a second time it
/// changes nothing, and it never touches the query.
pub proof fn lemma_close_timer<T: SearchItem>(s: Selector<T>)
    ensures
        s.after(Event::CloseTimer).query == s.query,
        !s.after(Event::CloseTimer).open,
        s.after(Event::CloseTimer).after(Event::CloseTimer) == s.after(Event::CloseTimer),
        s.cleared().after(Event::CloseTimer) == s.cleared(),
{
}

/// Law: typing decides the open flag. An empty text closes the dropdown and
/// drops the highlight whatever went before.
pub proof fn lemma_input<T: SearchItem>(s: Selector<T>, text: Seq<char>)
    requires
        !s.disabled,
    ensures
        s.after_input(text).query == text,
        s.after_input(text).open == (text.len() > 0),
        text.len() == 0 ==> s.after_input(text).highlighted is None && s.after_input(
            text,
        ).phase() == Phase::Idle,
        s.after_input(text).dropdown_visible() ==> s.after_input(text).highlighted is Some,
        text.len() > 0 ==> s.after_input(text).phase() == if s.after_input(text).results().len()
            > 0 {
            Phase::Open
        } else {
            Phase::Typing
        },
{
}

/// Law: focus brings back a hidden list of results, with a highlight; with
/// an empty query or nothing to list it changes nothing.
pub proof fn lemma_focus_in<T: SearchItem>(s: Selector<T>)
    requires
        s.valid(),
        !s.disabled,
    ensures
        s.query.len() > 0 && s.results().len() > 0 ==> {
            &&& s.after_focus_in().phase() == Phase::Open
            &&& s.after_focus_in().query == s.query
            &&& s.after_focus_in().highlighted is Some
            &&& s.highlighted is Some ==> s.after_focus_in().highlighted == s.highlighted
        },
        !(s.query.len() > 0 && s.results().len() > 0) ==> s.after_focus_in() == s,
{
}

/// Law: the pointer on a row of the visible dropdown takes the highlight to
/// that row and changes nothing else.
pub proof fn lemma_mouse_enter<T: SearchItem>(s: Selector<T>, row: usize)
    requires
        s.valid(),
        s.dropdown_visible(),
        row < s.results().len(),
    ensures
        s.after_mouse_enter(row).highlighted == Some(row),
        s.after_mouse_enter(row).query == s.query,
        s.after_mouse_enter(row).open,
        s.reaction(Event::MouseEnter(row)) == quiet(),
{
}

/// Law: a disabled selector ignores its input box, and while its dropdown is
/// closed no event opens it or selects anything.
pub proof fn lemma_disabled<T: SearchItem>(s: Selector<T>, event: Event)
    requires
        s.valid(),
        s.disabled,
    ensures
        event is Input || event is FocusIn || event is Blur || event is Key ==> s.after(event) == s
            && s.reaction(event) == quiet(),
        !s.open ==> !s.after(event).open && !(s.reaction(event).command is Select),
{
}

/// The session of a selector with its cached result list.
struct Session {
    query: String,
    open: bool,
    highlighted: Option<usize>,
    results: Vec<usize>,
}

/// A selector: its configuration and its session. Its state is always valid
/// and its cached result list is always that of its catalog and query.
pub struct SearchBar<T: SearchItem> {
    props: SearchBarProps<T>,
    session: Session,
}

impl<T: SearchItem> View for SearchBar<T> {
    type V = Selector<T>;

    closed spec fn view(&self) -> Selector<T> {
        Selector {
            items: self.props.items@,
            placeholder: self.props.placeholder@,
            max_results: self.props.max_results as nat,
            disabled: self.props.disabled,
            query: self.session.query@,
            open: self.session.open,
            highlighted: self.session.highlighted,
        }
    }
}

/// The highlight that fits a list of `len` rows which is shown iff `open`.
fn reconcile(open: bool, highlighted: Option<usize>, len: usize) -> (fitted: Option<usize>)
    ensures
        fitted == if !(open && len > 0) {
            None
        } else {
            match highlighted {
                Some(row) => if row < len {
                    Some(row)
                } else {
                    Some(0)
                },
                None => Some(0),
            }
        },
{
    if open && len > 0 {
        match highlighted {
            Some(row) => if row < len {
                highlighted
            } else {
                Some(0)
            },
            None => Some(0),
        }
    } else {
        None
    }
}

impl<T: SearchItem> SearchBar<T> {
    #[verifier::type_invariant]
    spec fn well_formed(&self) -> bool {
        &&& self.session.results@ == self@.results()
        &&& self@.valid()
    }

    /// A selector in its initial session: empty query, closed, no highlight.
    pub fn new(props: SearchBarProps<T>) -> (bar: Self)
        ensures
            bar@.valid(),
            bar@ == (Selector {
                items: props.items@,
                placeholder: props.placeholder@,
                max_results: props.max_results as nat,
                disabled: props.disabled,
                query: Seq::empty(),
                open: false,
                highlighted: None,
            }),
    {
        assert(props.items@.len() == props.items.len());
        SearchBar {
            props,
            session: Session {
                query: String::new(),
                open: false,
                highlighted: None,
                results: Vec::new(),
            },
        }
    }

    /// Takes a new configuration. The result list is recomputed and the
    /// highlight reconciled with it; query and open flag stay.
    pub fn set_props(&mut self, props: SearchBarProps<T>)
        ensures
            final(self)@.valid(),
            final(self)@ == old(self)@.after_props(
                props.items@,
                props.placeholder@,
                props.max_results as nat,
                props.disabled,
            ),
    {
        proof {
            use_type_invariant(&*self);
        }
        assert(props.items@.len() == props.items.len());
        let query = self.session.query.clone();
        let open = self.session.open;
        let highlighted = self.session.highlighted;
        // an empty session fits every configuration
        self.session = Session {
            query: String::new(),
            open: false,
            highlighted: None,
            results: Vec::new(),
        };
        self.props = props;
        let results = filter_items(&self.props.items, query.as_str(), self.props.max_results);
        let highlighted = reconcile(open, highlighted, results.len());
        self.session = Session { query, open, highlighted, results };
    }

    /// The text of the input box changed.
    pub fn on_input(&mut self, text: String)
        ensures
            final(self)@.valid(),
            final(self)@ == old(self)@.after_input(text@),
    {
        proof {
            use_type_invariant(&*self);
        }
        if self.props.disabled {
            return ;
        }
        let results = filter_items(&self.props.items, text.as_str(), self.props.max_results);
        let open = !text.as_str().is_empty();
        let highlighted = reconcile(open, self.session.highlighted, results.len());
        self.session = Session { query: text, open, highlighted, results };
    }

    /// The input box gained focus: a hidden list of results comes back.
    pub fn on_focus_in(&mut self)
        ensures
            final(self)@.valid(),
            final(self)@ == old(self)@.after_focus_in(),
    {
        proof {
            use_type_invariant(&*self);
        }
        if !self.props.disabled && !self.session.query.as_str().is_empty()
            && self.session.results.len() > 0 {
            self.session.highlighted =
            reconcile(true, self.session.highlighted, self.session.results.len());
            self.session.open = true;
        }
    }

    /// The input box lost focus: nothing changes yet, the host arms the
    /// close timer.
    pub fn on_blur(&self) -> (reaction: Reaction)
        ensures
            reaction == self@.reaction(Event::Blur),
    {
        if self.props.disabled {
            Reaction { prevent_default: false, command: Command::Nothing }
        } else {
            Reaction { prevent_default: false, command: Command::CloseAfter(CLOSE_DELAY_MS) }
        }
    }

    /// The close timer ran out: the dropdown closes, the query stays.
    pub fn on_close_timer(&mut self)
        ensures
            final(self)@.valid(),
            final(self)@ == old(self)@.closed(),
    {
        proof {
            use_type_invariant(&*self);
        }
        self.session.open = false;
        self.session.highlighted = None;
    }

    /// The state every selection leaves behind.
    fn clear(&mut self)
        ensures
            final(self)@.valid(),
            final(self)@ == old(self)@.cleared(),
    {
        proof {
            use_type_invariant(&*self);
        }
        self.session = Session {
            query: String::new(),
            open: false,
            highlighted: None,
            results: Vec::new(),
        };
    }

    /// A key went down in the input box.
    pub fn on_key(&mut self, key: Key) -> (reaction: Reaction)
        ensures
            final(self)@.valid(),
            final(self)@ == old(self)@.after_key(key),
            reaction == old(self)@.key_reaction(key),
    {
        proof {
            use_type_invariant(&*self);
        }
        let nothing = Reaction { prevent_default: false, command: Command::Nothing };
        if self.props.disabled {
            return nothing;
        }
        let len = self.session.results.len();
        match key {
            Key::ArrowDown => {
                if len == 0 {
                    return nothing;
                }
                let row = match self.session.highlighted {
                    Some(row) => if row + 1 >= len {
                        0
                    } else {
                        row + 1
                    },
                    None => 0,
                };
                self.session.highlighted = Some(row);
                Reaction { prevent_default: true, command: Command::ScrollTo(row) }
            },
            Key::ArrowUp => {
                if len == 0 {
                    return nothing;
                }
                let row = match self.session.highlighted {
                    Some(row) => if row == 0 {
                        len - 1
                    } else {
                        row - 1
                    },
                    None => len - 1,
                };
                self.session.highlighted = Some(row);
                Reaction { prevent_default: true, command: Command::ScrollTo(row) }
            },
            Key::Enter => {
                match self.session.highlighted {
                    Some(row) => {
                        if row < len {
                            let position = self.session.results[row];
                            self.clear();
                            Reaction { prevent_default: true, command: Command::Select(position) }
                        } else {
                            Reaction { prevent_default: true, command: Command::Nothing }
                        }
                    },
                    None => Reaction { prevent_default: true, command: Command::Nothing },
                }
            },
            Key::Escape => {
                self.session.open = false;
                self.session.highlighted = None;
                nothing
            },
            Key::Other => nothing,
        }
    }

    /// The mouse button went down on a row of the dropdown.
    pub fn on_mouse_down(&mut self, row: usize) -> (reaction: Reaction)
        ensures
            final(self)@.valid(),
            final(self)@ == old(self)@.after_mouse_down(row),
            reaction == old(self)@.reaction(Event::MouseDown(row)),
    {
        proof {
            use_type_invariant(&*self);
        }
        if self.session.open && row < self.session.results.len() {
            let position = self.session.results[row];
            self.clear();
            Reaction { prevent_default: false, command: Command::Select(position) }
        } else {
            Reaction { prevent_default: false, command: Command::Nothing }
        }
    }

    /// The pointer moved onto a row of the dropdown: hover takes the highlight.
    pub fn on_mouse_enter(&mut self, row: usize)
        ensures
            final(self)@.valid(),
            final(self)@ == old(self)@.after_mouse_enter(row),
    {
        proof {
            use_type_invariant(&*self);
        }
        if self.session.open && row < self.session.results.len() {
            self.session.highlighted = Some(row);
        }
    }

    /// The text in the input box.
    pub fn query(&self) -> (text: &str)
        ensures
            text@ == self@.query,
    {
        self.session.query.as_str()
    }

    /// Whether the dropdown is meant to be shown.
    pub fn is_open(&self) -> (open: bool)
        ensures
            open == self@.open,
    {
        self.session.open
    }

    /// The highlighted row, if any.
    pub fn highlighted(&self) -> (row: Option<usize>)
        ensures
            row == self@.highlighted,
            self@.valid(),
    {
        proof {
            use_type_invariant(self);
        }
        self.session.highlighted
    }

    /// Whether `row` is the highlighted row.
    pub fn is_highlighted(&self, row: usize) -> (yes: bool)
        ensures
            yes == (self@.highlighted == Some(row)),
    {
        match self.session.highlighted {
            Some(current) => current == row,
            None => false,
        }
    }

    /// The result list: catalog positions in the order of the rows.
    pub fn results(&self) -> (rows: &Vec<usize>)
        ensures
            rows@ == self@.results(),
            self@.valid(),
    {
        proof {
            use_type_invariant(self);
        }
        &self.session.results
    }

    /// Whether the dropdown is on screen.
    pub fn dropdown_visible(&self) -> (visible: bool)
        ensures
            visible == self@.dropdown_visible(),
    {
        proof {
            use_type_invariant(self);
        }
        self.session.open && self.session.results.len() > 0
    }

    /// The catalog item shown in `row`, if there is such a row.
    pub fn item_at(&self, row: usize) -> (item: Option<&T>)
        ensures
            item == if row < self@.results().len() {
                Some(&self@.items[self@.results()[row as int] as int])
            } else {
                None
            },
    {
        proof {
            use_type_invariant(self);
        }
        if row < self.session.results.len() {
            proof {
                lemma_search_results(self@.items, self@.query, self@.max_results);
            }
            Some(&self.props.items[self.session.results[row]])
        } else {
            None
        }
    }

    /// The catalog.
    pub fn items(&self) -> (items: &Vec<T>)
        ensures
            items@ == self@.items,
    {
        &self.props.items
    }

    /// The hint shown in the empty input box.
    pub fn placeholder(&self) -> (hint: &str)
        ensures
            hint@ == self@.placeholder,
    {
        self.props.placeholder.as_str()
    }

    /// The upper bound on the number of rows.
    pub fn max_results(&self) -> (limit: usize)
        ensures
            limit == self@.max_results,
    {
        self.props.max_results
    }

    /// Whether the input box is inert.
    pub fn is_disabled(&self) -> (disabled: bool)
        ensures
            disabled == self@.disabled,
    {
        self.props.disabled
    }

    /// The coarse state of the session.
    pub fn phase(&self) -> (phase: Phase)
        ensures
            phase == self@.phase(),
    {
        proof {
            use_type_invariant(self);
        }
        if self.session.query.as_str().is_empty() {
            Phase::Idle
        } else if !self.session.open {
            Phase::ClosedWithQuery
        } else if self.session.results.len() > 0 {
            Phase::Open
        } else {
            Phase::Typing
        }
    }

    /// Applies one event and says what the host has to do.
    pub fn handle(&mut self, event: Event) -> (reaction: Reaction)
        ensures
            final(self)@.valid(),
            final(self)@ == old(self)@.after(event),
            reaction == old(self)@.reaction(event),
    {
        proof {
            use_type_invariant(&*self);
        }
        let nothing = Reaction { prevent_default: false, command: Command::Nothing };
        match event {
            Event::Input(text) => {
                self.on_input(text);
                nothing
            },
            Event::FocusIn => {
                self.on_focus_in();
                nothing
            },
            Event::Blur => self.on_blur(),
            Event::CloseTimer => {
                self.on_close_timer();
                nothing
            },
            Event::Key(key) => self.on_key(key),
            Event::MouseDown(row) => self.on_mouse_down(row),
            Event::MouseEnter(row) => {
                self.on_mouse_enter(row);
                nothing
            },
        }
    }
}

/// The document identifier of a row of the dropdown, the anchor that a
/// `Command::ScrollTo` refers to.
pub open spec fn row_element_id_text(row: usize) -> Seq<char> {
    "search-item-"@ + text::decimal(row as nat)
}

/// Writes the document identifier of a row of the dropdown.
pub fn row_element_id(row: usize) -> (id: String)
    ensures
        id@ == row_element_id_text(row),
{
    let number = text::decimal_string(row);
    text::join2("search-item-", number.as_str())
}

} // verus!
