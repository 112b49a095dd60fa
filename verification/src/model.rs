//! Value types of the monitor: configuration, sort axes, one displayed
//! process record, and the mutable session state, together with their
//! mathematical views and the state invariant.

use vstd::prelude::*;

verus! {

/// The column a snapshot is ordered by.
#[derive(Clone, Copy, PartialEq, Eq, Structural, Debug)]
pub enum SortField {
    Cpu,
    Memory,
    Name,
}

/// Direction of the ordering.
#[derive(Clone, Copy, PartialEq, Eq, Structural, Debug)]
pub enum SortOrder {
    Ascending,
    Descending,
}

/// Settings fixed at startup; immutable afterwards.
pub struct Config {
    /// Milliseconds between two snapshot refreshes.
    pub refresh_ms: u64,
    /// Sort column selected before any key is pressed.
    pub default_sort: SortField,
}

impl Config {
    /// The hard-coded fallback used when the settings source is missing
    /// or malformed: refresh every second, sorted by CPU.
    pub fn fallback() -> (c: Config)
        ensures
            c.refresh_ms == 1000,
            c.default_sort == SortField::Cpu,
    {
        Config { refresh_ms: 1000, default_sort: SortField::Cpu }
    }
}

/// One process as shown in the table, rebuilt fresh on every refresh
/// tick. CPU load is held in hundredths of a percent so that ordering
/// is exact.
pub struct ProcessRecord {
    pub pid: u64,
    pub name: Vec<char>,
    /// CPU load in hundredths of a percent.
    pub cpu_centi: u64,
    /// Resident memory in bytes.
    pub memory: u64,
}

/// Which sort column a name of the settings source selects: `mem` and
/// `name` are recognised, anything else falls back to CPU.
pub open spec fn sort_field_of(s: Seq<char>) -> SortField {
    if s == seq!['m', 'e', 'm'] {
        SortField::Memory
    } else if s == seq!['n', 'a', 'm', 'e'] {
        SortField::Name
    } else {
        SortField::Cpu
    }
}

/// Maps a sort-column name from the settings source to the column it
/// selects; unrecognised names select CPU.
pub fn sort_field_from_name(name: &Vec<char>) -> (f: SortField)
    ensures
        f == sort_field_of(name@),
{
    let is_mem = name.len() == 3 && name[0] == 'm' && name[1] == 'e' && name[2] == 'm';
    let is_name = name.len() == 4 && name[0] == 'n' && name[1] == 'a' && name[2] == 'm'
        && name[3] == 'e';
    proof {
        if is_mem {
            assert(name@ =~= seq!['m', 'e', 'm']);
        } else {
            assert(name@ != seq!['m', 'e', 'm']) by {
                if name@ == seq!['m', 'e', 'm'] {
                    assert(name@.len() == 3);
                    assert(name@[0] == 'm' && name@[1] == 'e' && name@[2] == 'm');
                }
            }
        }
        if is_name {
            assert(name@ =~= seq!['n', 'a', 'm', 'e']);
        } else {
            assert(name@ != seq!['n', 'a', 'm', 'e']) by {
                if name@ == seq!['n', 'a', 'm', 'e'] {
                    assert(name@.len() == 4);
                    assert(name@[0] == 'n' && name@[1] == 'a' && name@[2] == 'm'
                        && name@[3] == 'e');
                }
            }
        }
    }
    if is_mem {
        SortField::Memory
    } else if is_name {
        SortField::Name
    } else {
        SortField::Cpu
    }
}

/// Mathematical view of the session state.
pub ghost struct StateV {
    pub search_active: bool,
    pub search_query: Seq<char>,
    pub sort_field: SortField,
    pub sort_order: SortOrder,
    pub selected: Option<usize>,
    pub last_refresh_ms: u64,
}

/// The session invariant: a non-empty query exists only while search is
/// active; leaving search always clears it.
pub open spec fn wf_state(st: StateV) -> bool {
    st.search_query.len() > 0 ==> st.search_active
}

/// The mutable heart of the monitor, owned exclusively by the event
/// loop.
pub struct SessionState {
    pub search_active: bool,
    pub search_query: Vec<char>,
    pub sort_field: SortField,
    pub sort_order: SortOrder,
    /// Cursor into the currently displayed (filtered and sorted) list;
    /// `None` exactly while that list is empty.
    pub selected: Option<usize>,
    /// Wall-clock instant of the last snapshot refresh, in
    /// milliseconds.
    pub last_refresh_ms: u64,
}

impl View for SessionState {
    type V = StateV;

    open spec fn view(&self) -> StateV {
        StateV {
            search_active: self.search_active,
            search_query: self.search_query@,
            sort_field: self.sort_field,
            sort_order: self.sort_order,
            selected: self.selected,
            last_refresh_ms: self.last_refresh_ms,
        }
    }
}

impl SessionState {
    /// The state at startup: no search, nothing selected, descending
    /// order on the configured column, refresh clock set to `now_ms`.
    pub fn new(config: &Config, now_ms: u64) -> (st: SessionState)
        ensures
            st@ == (StateV {
                search_active: false,
                search_query: Seq::<char>::empty(),
                sort_field: config.default_sort,
                sort_order: SortOrder::Descending,
                selected: None::<usize>,
                last_refresh_ms: now_ms,
            }),
            wf_state(st@),
    {
        SessionState {
            search_active: false,
            search_query: Vec::new(),
            sort_field: config.default_sort,
            sort_order: SortOrder::Descending,
            selected: None,
            last_refresh_ms: now_ms,
        }
    }
}

} // verus!
