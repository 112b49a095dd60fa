//! The filter-sort pipeline: turns a raw metrics snapshot into the
//! ordered row list that is displayed. Filtering keeps the records the
//! search query matches, sorting is stable on the selected column, and
//! a descending order reverses the ascending result.

use vstd::prelude::*;

use crate::model::{ProcessRecord, SessionState, SortField, SortOrder, StateV};
use crate::text::{
    contains_chars, contains_seq, decimal_digits, decimal_of, lex_le, lex_le_chars, lower_of,
    lowercase_chars,
};

verus! {

/// The query (already lowercased) matches a record: it occurs in the
/// lowercased name or in the decimal form of the process identifier.
pub open spec fn record_matches_spec(p: ProcessRecord, query_lower: Seq<char>) -> bool {
    contains_seq(lower_of(p.name@), query_lower) || contains_seq(
        decimal_of(p.pid as int),
        query_lower,
    )
}

/// Decides whether the lowercased query matches a record.
pub fn record_matches(p: &ProcessRecord, query_lower: &Vec<char>) -> (r: bool)
    ensures
        r == record_matches_spec(*p, query_lower@),
{
    let name_lower = lowercase_chars(&p.name);
    if contains_chars(&name_lower, query_lower) {
        return true;
    }
    let digits = decimal_digits(p.pid);
    contains_chars(&digits, query_lower)
}

/// The subsequence of records the lowercased query matches, in snapshot
/// order.
pub open spec fn matching(s: Seq<ProcessRecord>, query_lower: Seq<char>) -> Seq<ProcessRecord>
    decreases s.len(),
{
    if s.len() == 0 {
        s
    } else if record_matches_spec(s.first(), query_lower) {
        seq![s.first()] + matching(s.drop_first(), query_lower)
    } else {
        matching(s.drop_first(), query_lower)
    }
}

fn filter_records(v: Vec<ProcessRecord>, query_lower: &Vec<char>) -> (r: Vec<ProcessRecord>)
    ensures
        r@ == matching(v@, query_lower@),
{
    let ghost q = query_lower@;
    let ghost orig = v@;
    let mut v = v;
    let mut out: Vec<ProcessRecord> = Vec::new();
    proof {
        assert(out@ + matching(v@, q) =~= matching(v@, q));
    }
    while v.len() > 0
        invariant
            out@ + matching(v@, q) == matching(orig, q),
            q == query_lower@,
        decreases v@.len(),
    {
        let ghost v_before = v@;
        let x = v.remove(0);
        proof {
            assert(v_before.first() == x);
            assert(v@ =~= v_before.drop_first());
        }
        if record_matches(&x, query_lower) {
            proof {
                assert(matching(v_before, q) == seq![x] + matching(v@, q));
                assert(out@ + (seq![x] + matching(v@, q)) =~= (out@.push(x)) + matching(v@, q));
            }
            out.push(x);
        } else {
            assert(matching(v_before, q) == matching(v@, q));
        }
    }
    proof {
        assert(matching(v@, q) =~= Seq::<ProcessRecord>::empty());
        assert(out@ + matching(v@, q) =~= out@);
    }
    out
}

/// The order the selected column gives two records; ties on the key are
/// broken later by snapshot order.
pub open spec fn key_le(a: ProcessRecord, b: ProcessRecord, f: SortField) -> bool {
    match f {
        SortField::Cpu => a.cpu_centi <= b.cpu_centi,
        SortField::Memory => a.memory <= b.memory,
        SortField::Name => lex_le(a.name@, b.name@),
    }
}

/// Decides the order of the selected column between two records.
pub fn record_le(a: &ProcessRecord, b: &ProcessRecord, f: SortField) -> (r: bool)
    ensures
        r == key_le(*a, *b, f),
{
    match f {
        SortField::Cpu => a.cpu_centi <= b.cpu_centi,
        SortField::Memory => a.memory <= b.memory,
        SortField::Name => lex_le_chars(&a.name, &b.name),
    }
}

/// Inserts `x` behind every record of the sorted sequence `s` whose key
/// is at most the key of `x`; since `x` always arrives last, equal keys
/// keep their snapshot order.
pub open spec fn insert_sorted(x: ProcessRecord, s: Seq<ProcessRecord>, f: SortField) -> Seq<
    ProcessRecord,
>
    decreases s.len(),
{
    if s.len() == 0 {
        seq![x]
    } else if key_le(s.last(), x, f) {
        s.push(x)
    } else {
        insert_sorted(x, s.drop_last(), f).push(s.last())
    }
}

/// The stable ascending sort of `s` on the selected column: records
/// with equal keys stay in snapshot order.
pub open spec fn stable_sorted(s: Seq<ProcessRecord>, f: SortField) -> Seq<ProcessRecord>
    decreases s.len(),
{
    if s.len() == 0 {
        s
    } else {
        insert_sorted(s.last(), stable_sorted(s.drop_last(), f), f)
    }
}

fn insert_record(s: Vec<ProcessRecord>, x: ProcessRecord, f: SortField) -> (r: Vec<ProcessRecord>)
    ensures
        r@ == insert_sorted(x, s@, f),
    decreases s@.len(),
{
    let mut s = s;
    if s.len() == 0 {
        s.push(x);
        proof {
            assert(s@ =~= seq![x]);
        }
        s
    } else if record_le(&s[s.len() - 1], &x, f) {
        s.push(x);
        s
    } else {
        let ghost s_before = s@;
        let y = s.pop().unwrap();
        proof {
            assert(s@ =~= s_before.drop_last());
            assert(y == s_before.last());
        }
        let mut r = insert_record(s, x, f);
        r.push(y);
        r
    }
}

fn sort_records(v: Vec<ProcessRecord>, f: SortField) -> (r: Vec<ProcessRecord>)
    ensures
        r@ == stable_sorted(v@, f),
    decreases v@.len(),
{
    let mut v = v;
    let ghost v_before = v@;
    match v.pop() {
        None => v,
        Some(x) => {
            proof {
                assert(v@ =~= v_before.drop_last());
                assert(x == v_before.last());
            }
            let sorted = sort_records(v, f);
            insert_record(sorted, x, f)
        },
    }
}

fn reverse_records(v: Vec<ProcessRecord>) -> (r: Vec<ProcessRecord>)
    ensures
        r@ == v@.reverse(),
{
    let ghost orig = v@;
    let mut v = v;
    let mut out: Vec<ProcessRecord> = Vec::new();
    while v.len() > 0
        invariant
            out@.len() + v@.len() == orig.len(),
            v@ == orig.subrange(0, v@.len() as int),
            forall|i: int| 0 <= i < out@.len() ==> out@[i] == orig[orig.len() - 1 - i],
        decreases v@.len(),
    {
        let ghost v_before = v@;
        let x = v.pop().unwrap();
        proof {
            assert(v_before[v_before.len() - 1] == orig[v_before.len() - 1]);
            assert(v@ =~= orig.subrange(0, v@.len() as int));
        }
        out.push(x);
    }
    proof {
        assert(out@ =~= orig.reverse());
    }
    out
}

/// What filtering leaves of the snapshot: everything, unless search is
/// active with a non-empty query.
pub open spec fn filtered(s: Seq<ProcessRecord>, st: StateV) -> Seq<ProcessRecord> {
    if st.search_active && st.search_query.len() > 0 {
        matching(s, lower_of(st.search_query))
    } else {
        s
    }
}

/// Applies the sort direction: ascending keeps the stable sort,
/// descending reverses it.
pub open spec fn directed(s: Seq<ProcessRecord>, o: SortOrder) -> Seq<ProcessRecord> {
    match o {
        SortOrder::Ascending => s,
        SortOrder::Descending => s.reverse(),
    }
}

/// The displayed view: the snapshot filtered by the query, stably
/// sorted ascending on the selected column, then directed.
pub open spec fn view_spec(s: Seq<ProcessRecord>, st: StateV) -> Seq<ProcessRecord> {
    directed(stable_sorted(filtered(s, st), st.sort_field), st.sort_order)
}

/// Law: filtering is sound — every record it keeps matches the query
/// and comes from the snapshot.
pub proof fn lemma_matching_sound(s: Seq<ProcessRecord>, q: Seq<char>)
    ensures
        forall|i: int|
            0 <= i < matching(s, q).len() ==> record_matches_spec(matching(s, q)[i], q)
                && s.contains(matching(s, q)[i]),
    decreases s.len(),
{
    if s.len() > 0 {
        let tail = s.drop_first();
        lemma_matching_sound(tail, q);
        assert forall|i: int| 0 <= i < matching(s, q).len() implies record_matches_spec(
            matching(s, q)[i],
            q,
        ) && s.contains(matching(s, q)[i]) by {
            let m = matching(s, q);
            if record_matches_spec(s.first(), q) && i == 0 {
                assert(m[0] == s.first());
                assert(s[0] == s.first());
            } else {
                let mt = matching(tail, q);
                let j = if record_matches_spec(s.first(), q) {
                    i - 1
                } else {
                    i
                };
                assert(m[i] == mt[j]);
                let k = choose|k: int| 0 <= k < tail.len() && tail[k] == mt[j];
                assert(s[k + 1] == tail[k]);
            }
        }
    }
}

/// Law: filtering is complete — every record of the snapshot the query
/// matches is kept.
pub proof fn lemma_matching_complete(s: Seq<ProcessRecord>, q: Seq<char>, j: int)
    requires
        0 <= j < s.len(),
        record_matches_spec(s[j], q),
    ensures
        matching(s, q).contains(s[j]),
    decreases s.len(),
{
    let tail = s.drop_first();
    if j == 0 {
        assert(matching(s, q)[0] == s.first());
    } else {
        lemma_matching_complete(tail, q, j - 1);
        let m = matching(s, q);
        let mt = matching(tail, q);
        let k = choose|k: int| 0 <= k < mt.len() && mt[k] == tail[j - 1];
        if record_matches_spec(s.first(), q) {
            assert(m[k + 1] == mt[k]);
        } else {
            assert(m[k] == mt[k]);
        }
        assert(s[j] == tail[j - 1]);
    }
}

/// `s` is ordered ascending on the selected column.
pub open spec fn sorted_on(s: Seq<ProcessRecord>, f: SortField) -> bool {
    forall|i: int, j: int| 0 <= i < j < s.len() ==> key_le(s[i], s[j], f)
}

/// The column order is total: of any two records, one comes first.
proof fn lemma_key_le_total(a: ProcessRecord, b: ProcessRecord, f: SortField)
    ensures
        key_le(a, b, f) || key_le(b, a, f),
{
    if f == SortField::Name {
        crate::text::lemma_lex_le_total(a.name@, b.name@);
    }
}

/// The column order is transitive.
proof fn lemma_key_le_trans(a: ProcessRecord, b: ProcessRecord, c: ProcessRecord, f: SortField)
    requires
        key_le(a, b, f),
        key_le(b, c, f),
    ensures
        key_le(a, c, f),
{
    if f == SortField::Name {
        crate::text::lemma_lex_le_trans(a.name@, b.name@, c.name@);
    }
}

/// Every record of the insertion result is the inserted one or one of
/// the sequence inserted into.
proof fn lemma_insert_sorted_elems(x: ProcessRecord, s: Seq<ProcessRecord>, f: SortField)
    ensures
        forall|i: int|
            0 <= i < insert_sorted(x, s, f).len() ==> insert_sorted(x, s, f)[i] == x
                || s.contains(insert_sorted(x, s, f)[i]),
    decreases s.len(),
{
    if s.len() == 0 {
    } else if key_le(s.last(), x, f) {
    } else {
        let dl = s.drop_last();
        lemma_insert_sorted_elems(x, dl, f);
        assert forall|i: int| 0 <= i < insert_sorted(x, s, f).len() implies insert_sorted(
            x,
            s,
            f,
        )[i] == x || s.contains(insert_sorted(x, s, f)[i]) by {
            let r = insert_sorted(x, s, f);
            let t = insert_sorted(x, dl, f);
            if i < t.len() {
                if t[i] != x {
                    let k = choose|k: int| 0 <= k < dl.len() && dl[k] == t[i];
                    assert(s[k] == t[i]);
                }
            } else {
                assert(r[i] == s.last());
                assert(s[s.len() - 1] == s.last());
            }
        }
    }
}

/// Inserting into an ordered sequence keeps it ordered.
proof fn lemma_insert_sorted_ordered(x: ProcessRecord, s: Seq<ProcessRecord>, f: SortField)
    requires
        sorted_on(s, f),
    ensures
        sorted_on(insert_sorted(x, s, f), f),
    decreases s.len(),
{
    if s.len() == 0 {
    } else if key_le(s.last(), x, f) {
        assert forall|i: int| 0 <= i < s.len() implies key_le(s[i], x, f) by {
            if i < s.len() - 1 {
                assert(key_le(s[i], s[s.len() - 1], f));
                lemma_key_le_trans(s[i], s.last(), x, f);
            }
        }
    } else {
        let dl = s.drop_last();
        let t = insert_sorted(x, dl, f);
        assert(sorted_on(dl, f));
        lemma_insert_sorted_ordered(x, dl, f);
        lemma_insert_sorted_elems(x, dl, f);
        lemma_key_le_total(s.last(), x, f);
        assert forall|i: int| 0 <= i < t.len() implies key_le(t[i], s.last(), f) by {
            if t[i] == x {
            } else {
                let k = choose|k: int| 0 <= k < dl.len() && dl[k] == t[i];
                assert(s[k] == t[i]);
                assert(key_le(s[k], s[s.len() - 1], f));
            }
        }
        assert(sorted_on(t.push(s.last()), f));
    }
}

/// Law: the stable sort orders the records ascending on the selected
/// column.
pub proof fn lemma_stable_sorted_ordered(s: Seq<ProcessRecord>, f: SortField)
    ensures
        sorted_on(stable_sorted(s, f), f),
    decreases s.len(),
{
    if s.len() > 0 {
        lemma_stable_sorted_ordered(s.drop_last(), f);
        lemma_insert_sorted_ordered(s.last(), stable_sorted(s.drop_last(), f), f);
    }
}

/// Law: the displayed view is ordered on the selected column —
/// ascending with the ascending direction, descending with the
/// descending one.
pub proof fn lemma_view_ordered(s: Seq<ProcessRecord>, st: StateV)
    ensures
        st.sort_order == SortOrder::Ascending ==> sorted_on(view_spec(s, st), st.sort_field),
        st.sort_order == SortOrder::Descending ==> forall|i: int, j: int|
            0 <= i < j < view_spec(s, st).len() ==> key_le(
                view_spec(s, st)[j],
                view_spec(s, st)[i],
                st.sort_field,
            ),
{
    let t = stable_sorted(filtered(s, st), st.sort_field);
    lemma_stable_sorted_ordered(filtered(s, st), st.sort_field);
    match st.sort_order {
        SortOrder::Ascending => {},
        SortOrder::Descending => {
            assert forall|i: int, j: int| 0 <= i < j < t.reverse().len() implies key_le(
                t.reverse()[j],
                t.reverse()[i],
                st.sort_field,
            ) by {
                assert(t.reverse()[i] == t[t.len() - 1 - i]);
                assert(t.reverse()[j] == t[t.len() - 1 - j]);
                assert(key_le(t[t.len() - 1 - j], t[t.len() - 1 - i], st.sort_field));
            }
        },
    }
}

/// Inserting into the stable sort adds exactly the inserted record to
/// the contents.
proof fn lemma_insert_sorted_multiset(x: ProcessRecord, s: Seq<ProcessRecord>, f: SortField)
    ensures
        insert_sorted(x, s, f).to_multiset() == s.to_multiset().insert(x),
    decreases s.len(),
{
    broadcast use vstd::seq_lib::group_to_multiset_ensures;

    if s.len() == 0 {
        assert(seq![x] =~= s.push(x));
        assert(s.push(x).to_multiset() =~= s.to_multiset().insert(x));
    } else if key_le(s.last(), x, f) {
        assert(s.push(x).to_multiset() =~= s.to_multiset().insert(x));
    } else {
        let dl = s.drop_last();
        lemma_insert_sorted_multiset(x, dl, f);
        assert(insert_sorted(x, dl, f).push(s.last()).to_multiset() =~= insert_sorted(x, dl, f)
            .to_multiset()
            .insert(s.last()));
        assert(s =~= dl.push(s.last()));
        assert(dl.push(s.last()).to_multiset() =~= dl.to_multiset().insert(s.last()));
        assert(dl.to_multiset().insert(x).insert(s.last()) =~= dl.to_multiset().insert(
            s.last(),
        ).insert(x));
    }
}

/// The stable sort is a permutation: it rearranges the records and
/// keeps the contents.
pub proof fn lemma_stable_sorted_multiset(s: Seq<ProcessRecord>, f: SortField)
    ensures
        stable_sorted(s, f).to_multiset() == s.to_multiset(),
    decreases s.len(),
{
    broadcast use vstd::seq_lib::group_to_multiset_ensures;

    if s.len() > 0 {
        let dl = s.drop_last();
        lemma_stable_sorted_multiset(dl, f);
        lemma_insert_sorted_multiset(s.last(), stable_sorted(dl, f), f);
        assert(s =~= dl.push(s.last()));
        assert(dl.push(s.last()).to_multiset() =~= dl.to_multiset().insert(s.last()));
    }
}

/// Law: with an empty search query the filter is a no-op, whatever the
/// search mode — the displayed view is the whole snapshot sorted on the
/// selected column and directed, and so holds exactly the snapshot's
/// records.
pub proof fn lemma_empty_query_shows_all(s: Seq<ProcessRecord>, st: StateV)
    requires
        st.search_query.len() == 0,
    ensures
        view_spec(s, st) == directed(stable_sorted(s, st.sort_field), st.sort_order),
        view_spec(s, st).to_multiset() == s.to_multiset(),
{
    lemma_stable_sorted_multiset(s, st.sort_field);
    match st.sort_order {
        SortOrder::Ascending => {},
        SortOrder::Descending => {
            stable_sorted(s, st.sort_field).lemma_reverse_to_multiset();
            assert(stable_sorted(s, st.sort_field).reverse().to_multiset() == stable_sorted(
                s,
                st.sort_field,
            ).to_multiset()) by {
                assert(stable_sorted(s, st.sort_field).reverse().to_multiset() =~= stable_sorted(
                    s,
                    st.sort_field,
                ).to_multiset());
            }
        },
    }
}

/// Law: the pipeline is deterministic — two computations over the same
/// snapshot and the same state yield the identical row sequence, in
/// content and in order.
pub proof fn lemma_view_deterministic(
    r1: Seq<ProcessRecord>,
    r2: Seq<ProcessRecord>,
    s: Seq<ProcessRecord>,
    st: StateV,
)
    requires
        r1 == view_spec(s, st),
        r2 == view_spec(s, st),
    ensures
        r1 == r2,
{
}

/// Computes the displayed row list from a snapshot and the session
/// state. Pure: no error, no side effect, always a (possibly empty)
/// fresh sequence.
pub fn compute_view(snapshot: Vec<ProcessRecord>, state: &SessionState) -> (r: Vec<ProcessRecord>)
    ensures
        r@ == view_spec(snapshot@, state@),
{
    let kept = if state.search_active && state.search_query.len() > 0 {
        let ql = lowercase_chars(&state.search_query);
        filter_records(snapshot, &ql)
    } else {
        snapshot
    };
    let sorted = sort_records(kept, state.sort_field);
    match state.sort_order {
        SortOrder::Ascending => sorted,
        SortOrder::Descending => reverse_records(sorted),
    }
}

} // verus!
