use procmon::engine::{handle_key, InputEvent};
use procmon::model::{ProcessRecord, SessionState, SortField, SortOrder};
use procmon::pipeline::compute_view;

fn rec(pid: u64, name: &str, cpu_centi: u64, memory: u64) -> ProcessRecord {
    ProcessRecord { pid, name: name.chars().collect(), cpu_centi, memory }
}

fn state(
    search_active: bool,
    query: &str,
    sort_field: SortField,
    sort_order: SortOrder,
) -> SessionState {
    SessionState {
        search_active,
        search_query: query.chars().collect(),
        sort_field,
        sort_order,
        selected: None,
        last_refresh_ms: 0,
    }
}

fn names(rows: &[ProcessRecord]) -> Vec<String> {
    rows.iter().map(|r| r.name.iter().collect()).collect()
}

fn pids(rows: &[ProcessRecord]) -> Vec<u64> {
    rows.iter().map(|r| r.pid).collect()
}

#[test]
fn query_filters_by_name() {
    let snapshot = vec![rec(1, "bash", 0, 0), rec(2, "chrome", 0, 0), rec(42, "init", 0, 0)];
    let st = state(true, "ch", SortField::Cpu, SortOrder::Ascending);
    let rows = compute_view(snapshot, &st);
    assert_eq!(names(&rows), vec!["chrome".to_string()]);
}

#[test]
fn matching_is_case_insensitive() {
    let snapshot = vec![rec(1, "bash", 0, 0), rec(2, "Chrome", 0, 0), rec(42, "init", 0, 0)];
    let st = state(true, "CH", SortField::Cpu, SortOrder::Ascending);
    let rows = compute_view(snapshot, &st);
    assert_eq!(names(&rows), vec!["Chrome".to_string()]);
}

#[test]
fn query_matches_pid_digits() {
    let snapshot = vec![rec(1, "bash", 0, 0), rec(2, "chrome", 0, 0), rec(42, "init", 0, 0)];
    let st = state(true, "4", SortField::Cpu, SortOrder::Ascending);
    let rows = compute_view(snapshot, &st);
    assert_eq!(names(&rows), vec!["init".to_string()]);
}

#[test]
fn empty_query_filters_nothing_even_while_searching() {
    let snapshot = vec![rec(3, "c", 0, 0), rec(1, "a", 0, 0), rec(2, "b", 0, 0)];
    let st = state(true, "", SortField::Name, SortOrder::Ascending);
    let rows = compute_view(snapshot, &st);
    assert_eq!(names(&rows), vec!["a".to_string(), "b".to_string(), "c".to_string()]);
    assert_eq!(rows.len(), 3);
}

#[test]
fn cpu_sort_is_stable_and_direction_reverses() {
    // CPU loads 5.00 %, 5.00 %, 2.00 % in snapshot order.
    let snapshot = vec![rec(1, "first", 500, 0), rec(2, "second", 500, 0), rec(3, "third", 200, 0)];
    let st = state(false, "", SortField::Cpu, SortOrder::Ascending);
    let rows = compute_view(snapshot, &st);
    // Ascending: the tied pair keeps its snapshot order.
    assert_eq!(pids(&rows), vec![3, 1, 2]);

    let snapshot = vec![rec(1, "first", 500, 0), rec(2, "second", 500, 0), rec(3, "third", 200, 0)];
    let st = state(false, "", SortField::Cpu, SortOrder::Descending);
    let rows = compute_view(snapshot, &st);
    // Descending reverses the ascending result, tied pair reversed too.
    assert_eq!(pids(&rows), vec![2, 1, 3]);
}

#[test]
fn memory_sort_orders_numerically() {
    let snapshot = vec![rec(1, "a", 0, 100), rec(2, "b", 0, 50), rec(3, "c", 0, 200)];
    let st = state(false, "", SortField::Memory, SortOrder::Ascending);
    let rows = compute_view(snapshot, &st);
    assert_eq!(pids(&rows), vec![2, 1, 3]);
}

#[test]
fn name_sort_is_codepoint_order_case_sensitive() {
    let snapshot = vec![rec(1, "beta", 0, 0), rec(2, "Zeta", 0, 0), rec(3, "alpha", 0, 0)];
    let st = state(false, "", SortField::Name, SortOrder::Ascending);
    let rows = compute_view(snapshot, &st);
    // Uppercase codepoints precede lowercase ones.
    assert_eq!(names(&rows), vec!["Zeta".to_string(), "alpha".to_string(), "beta".to_string()]);
}

#[test]
fn identical_inputs_give_identical_views() {
    let make = || vec![rec(9, "svc", 120, 64), rec(4, "cron", 120, 512), rec(7, "sshd", 30, 64)];
    let st = state(false, "", SortField::Cpu, SortOrder::Descending);
    let first = compute_view(make(), &st);
    let second = compute_view(make(), &st);
    assert_eq!(pids(&first), pids(&second));
    assert_eq!(names(&first), names(&second));
}

#[test]
fn scenario_memory_descending_then_filter_reclamps() {
    // Memory 100, 50, 200: descending shows 200, 100, 50.
    let snapshot =
        vec![rec(1, "ant", 0, 100), rec(2, "bear", 0, 50), rec(3, "antelope", 0, 200)];
    let mut st = state(false, "", SortField::Memory, SortOrder::Descending);
    let rows = compute_view(snapshot, &st);
    let mems: Vec<u64> = rows.iter().map(|r| r.memory).collect();
    assert_eq!(mems, vec![200, 100, 50]);

    // Move down twice from no selection.
    assert!(!handle_key(&mut st, InputEvent::Down, rows.len()));
    assert!(!handle_key(&mut st, InputEvent::Down, rows.len()));
    assert_eq!(st.selected, Some(2));

    // Filter to a query only the first two displayed rows match.
    st.search_active = true;
    st.search_query = "an".chars().collect();
    let snapshot =
        vec![rec(1, "ant", 0, 100), rec(2, "bear", 0, 50), rec(3, "antelope", 0, 200)];
    let rows = compute_view(snapshot, &st);
    assert_eq!(rows.len(), 2);
    let mems: Vec<u64> = rows.iter().map(|r| r.memory).collect();
    assert_eq!(mems, vec![200, 100]);
    st.clamp_to_view(rows.len());
    assert_eq!(st.selected, Some(1));
}

#[test]
fn filtered_out_everything_gives_empty_view() {
    let snapshot = vec![rec(1, "bash", 0, 0)];
    let st = state(true, "zzz", SortField::Cpu, SortOrder::Ascending);
    let rows = compute_view(snapshot, &st);
    assert_eq!(rows.len(), 0);
}
