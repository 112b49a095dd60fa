//! The session engine's decision logic: the keyboard transition table
//! over the session state, the refresh-timer rule, and the render-step
//! clamping of the cursor. The surrounding loop only polls, fetches
//! snapshots and renders; every decision is made here.

use vstd::prelude::*;

use crate::model::{SessionState, SortField, SortOrder, StateV};
use crate::select::{clamp_selection, clamp_spec};

verus! {

/// One keyboard event, as the terminal toolkit reports it.
#[derive(Clone, Copy, PartialEq, Eq, Structural, Debug)]
pub enum InputEvent {
    /// A printable character (also carries the command keys).
    Chr(char),
    Backspace,
    Esc,
    Up,
    Down,
    /// Any key the table does not recognise.
    Other,
}

/// Whether an event terminates the loop: only the quit key does,
/// whatever the mode.
pub open spec fn step_quit(ev: InputEvent) -> bool {
    ev == InputEvent::Chr('q')
}

/// The transition table over the session state. Rows are tried in
/// precedence order: quit, open search, cancel, then — only while
/// search is active — appending or erasing query characters, then the
/// sort and navigation commands; anything else is ignored.
pub open spec fn step_state(st: StateV, ev: InputEvent, displayed_len: usize) -> StateV {
    match ev {
        InputEvent::Chr(c) => if c == 'q' {
            st
        } else if c == '/' {
            StateV {
                search_active: true,
                search_query: Seq::empty(),
                sort_field: st.sort_field,
                sort_order: st.sort_order,
                selected: st.selected,
                last_refresh_ms: st.last_refresh_ms,
            }
        } else if st.search_active {
            StateV {
                search_active: st.search_active,
                search_query: st.search_query.push(c),
                sort_field: st.sort_field,
                sort_order: st.sort_order,
                selected: st.selected,
                last_refresh_ms: st.last_refresh_ms,
            }
        } else if c == 'c' {
            StateV {
                search_active: st.search_active,
                search_query: st.search_query,
                sort_field: SortField::Cpu,
                sort_order: st.sort_order,
                selected: st.selected,
                last_refresh_ms: st.last_refresh_ms,
            }
        } else if c == 'm' {
            StateV {
                search_active: st.search_active,
                search_query: st.search_query,
                sort_field: SortField::Memory,
                sort_order: st.sort_order,
                selected: st.selected,
                last_refresh_ms: st.last_refresh_ms,
            }
        } else if c == 'n' {
            StateV {
                search_active: st.search_active,
                search_query: st.search_query,
                sort_field: SortField::Name,
                sort_order: st.sort_order,
                selected: st.selected,
                last_refresh_ms: st.last_refresh_ms,
            }
        } else if c == 'r' {
            StateV {
                search_active: st.search_active,
                search_query: st.search_query,
                sort_field: st.sort_field,
                sort_order: flipped(st.sort_order),
                selected: st.selected,
                last_refresh_ms: st.last_refresh_ms,
            }
        } else {
            st
        },
        InputEvent::Backspace => if st.search_active {
            StateV {
                search_active: st.search_active,
                search_query: if st.search_query.len() > 0 {
                    st.search_query.drop_last()
                } else {
                    st.search_query
                },
                sort_field: st.sort_field,
                sort_order: st.sort_order,
                selected: st.selected,
                last_refresh_ms: st.last_refresh_ms,
            }
        } else {
            st
        },
        InputEvent::Esc => StateV {
            search_active: false,
            search_query: Seq::empty(),
            sort_field: st.sort_field,
            sort_order: st.sort_order,
            selected: st.selected,
            last_refresh_ms: st.last_refresh_ms,
        },
        InputEvent::Up => StateV {
            search_active: st.search_active,
            search_query: st.search_query,
            sort_field: st.sort_field,
            sort_order: st.sort_order,
            selected: clamp_spec(st.selected, -1, displayed_len),
            last_refresh_ms: st.last_refresh_ms,
        },
        InputEvent::Down => StateV {
            search_active: st.search_active,
            search_query: st.search_query,
            sort_field: st.sort_field,
            sort_order: st.sort_order,
            selected: clamp_spec(st.selected, 1, displayed_len),
            last_refresh_ms: st.last_refresh_ms,
        },
        InputEvent::Other => st,
    }
}

/// The opposite direction.
pub open spec fn flipped(o: SortOrder) -> SortOrder {
    match o {
        SortOrder::Ascending => SortOrder::Descending,
        SortOrder::Descending => SortOrder::Ascending,
    }
}

/// Applies one keyboard event to the session state, following the
/// transition table, and reports whether the loop must terminate.
/// `displayed_len` is the length of the currently displayed row list,
/// against which the navigation keys clamp the cursor.
pub fn handle_key(state: &mut SessionState, ev: InputEvent, displayed_len: usize) -> (quit: bool)
    ensures
        final(state)@ == step_state(old(state)@, ev, displayed_len),
        quit == step_quit(ev),
{
    match ev {
        InputEvent::Chr(c) => {
            if c == 'q' {
                return true;
            }
            if c == '/' {
                state.search_active = true;
                state.search_query = Vec::new();
            } else if state.search_active {
                state.search_query.push(c);
            } else if c == 'c' {
                state.sort_field = SortField::Cpu;
            } else if c == 'm' {
                state.sort_field = SortField::Memory;
            } else if c == 'n' {
                state.sort_field = SortField::Name;
            } else if c == 'r' {
                state.sort_order = match state.sort_order {
                    SortOrder::Ascending => SortOrder::Descending,
                    SortOrder::Descending => SortOrder::Ascending,
                };
            }
            false
        },
        InputEvent::Backspace => {
            if state.search_active {
                state.search_query.pop();
            }
            false
        },
        InputEvent::Esc => {
            state.search_active = false;
            state.search_query = Vec::new();
            false
        },
        InputEvent::Up => {
            state.selected = clamp_selection(state.selected, -1, displayed_len);
            false
        },
        InputEvent::Down => {
            state.selected = clamp_selection(state.selected, 1, displayed_len);
            false
        },
        InputEvent::Other => false,
    }
}

/// The state after a whole sequence of keyboard events, applied left
/// to right against a fixed displayed length.
pub open spec fn run_events(st: StateV, evs: Seq<InputEvent>, displayed_len: usize) -> StateV
    decreases evs.len(),
{
    if evs.len() == 0 {
        st
    } else {
        run_events(step_state(st, evs.first(), displayed_len), evs.drop_first(), displayed_len)
    }
}

/// Law: every step keeps the session invariant — a non-empty query
/// only ever exists while search is active.
pub proof fn lemma_step_preserves_wf(st: StateV, ev: InputEvent, displayed_len: usize)
    requires
        crate::model::wf_state(st),
    ensures
        crate::model::wf_state(step_state(st, ev, displayed_len)),
{
}

/// Law: the sort axes are independent of searching — no search key
/// (opening, cancelling, typing, erasing) ever touches the sort field
/// or the sort order.
pub proof fn lemma_search_keys_preserve_sort(st: StateV, ev: InputEvent, displayed_len: usize)
    requires
        ev == InputEvent::Chr('/') || ev == InputEvent::Esc || ev == InputEvent::Backspace || (
        st.search_active && ev matches InputEvent::Chr(_)),
    ensures
        step_state(st, ev, displayed_len).sort_field == st.sort_field,
        step_state(st, ev, displayed_len).sort_order == st.sort_order,
{
}

/// Law: opening search and later cancelling always leaves the query
/// empty and search inactive, whatever was typed in between.
pub proof fn lemma_search_round_trip(st: StateV, between: Seq<InputEvent>, displayed_len: usize)
    ensures
        ({
            let opened = step_state(st, InputEvent::Chr('/'), displayed_len);
            let typed = run_events(opened, between, displayed_len);
            let closed = step_state(typed, InputEvent::Esc, displayed_len);
            closed.search_query.len() == 0 && !closed.search_active
        }),
{
}

impl SessionState {
    /// Whether enough wall-clock time has passed since the last refresh
    /// to pull a new snapshot.
    pub fn refresh_due(&self, now_ms: u64, interval_ms: u64) -> (r: bool)
        ensures
            r == (now_ms as int - self.last_refresh_ms as int >= interval_ms as int),
    {
        if now_ms < self.last_refresh_ms {
            false
        } else {
            now_ms - self.last_refresh_ms >= interval_ms
        }
    }

    /// Records that a snapshot was just pulled, at `now_ms`.
    pub fn mark_refreshed(&mut self, now_ms: u64)
        ensures
            final(self)@ == (StateV { last_refresh_ms: now_ms, ..old(self)@ }),
    {
        self.last_refresh_ms = now_ms;
    }

    /// The render-step clamp: after the pipeline recomputed the
    /// displayed list (whose length may have changed), pulls the cursor
    /// back into range without moving it otherwise.
    pub fn clamp_to_view(&mut self, displayed_len: usize)
        ensures
            final(self)@ == (StateV {
                selected: clamp_spec(old(self)@.selected, 0, displayed_len),
                ..old(self)@
            }),
            final(self).selected is None <==> displayed_len == 0,
            final(self).selected is Some ==> final(self).selected.unwrap() < displayed_len,
    {
        self.selected = clamp_selection(self.selected, 0, displayed_len);
    }
}

} // verus!
