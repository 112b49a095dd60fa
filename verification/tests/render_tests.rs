use procmon::model::{Config, SessionState, SortField};
use procmon::render::{banner_chars, net_summary_chars, NetCounters};

fn as_string(chars: Vec<char>) -> String {
    chars.into_iter().collect()
}

#[test]
fn banner_shows_hint_while_not_searching() {
    let st = SessionState::new(&Config { refresh_ms: 1000, default_sort: SortField::Cpu }, 0);
    assert_eq!(as_string(banner_chars(&st)), "Press '/' to search, 'q' to quit");
}

#[test]
fn banner_shows_prompt_and_query_while_searching() {
    let mut st = SessionState::new(&Config { refresh_ms: 1000, default_sort: SortField::Cpu }, 0);
    st.search_active = true;
    assert_eq!(as_string(banner_chars(&st)), "Search: ");
    st.search_query = "fire".chars().collect();
    assert_eq!(as_string(banner_chars(&st)), "Search: fire");
}

#[test]
fn net_summary_lists_interfaces_in_kilobytes() {
    let counters = vec![
        NetCounters { name: "eth0".chars().collect(), received: 5 * 1024, transmitted: 2048 },
        NetCounters { name: "lo".chars().collect(), received: 1023, transmitted: 1025 },
    ];
    assert_eq!(
        as_string(net_summary_chars(&counters)),
        "eth0 \u{2193}5 KB \u{2191}2 KB | lo \u{2193}0 KB \u{2191}1 KB"
    );
}

#[test]
fn net_summary_empty_without_interfaces() {
    let counters: Vec<NetCounters> = Vec::new();
    assert_eq!(as_string(net_summary_chars(&counters)), "");
}
