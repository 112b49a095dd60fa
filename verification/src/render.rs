//! The textual content the render step hands to the terminal toolkit:
//! the banner line (search prompt or key hint) and the network summary
//! line. Layout, colours and the table widget stay at the rendering
//! boundary; the text itself is computed here.

use vstd::prelude::*;

use crate::model::StateV;
use crate::text::decimal_of;

verus! {

/// One network interface's counters, as plain values.
pub struct NetCounters {
    pub name: Vec<char>,
    /// Total bytes received.
    pub received: u64,
    /// Total bytes transmitted.
    pub transmitted: u64,
}

/// Appends `src` to `dst`.
fn append_chars(dst: &mut Vec<char>, src: &Vec<char>)
    ensures
        final(dst)@ == old(dst)@ + src@,
{
    let mut i: usize = 0;
    while i < src.len()
        invariant
            i <= src@.len(),
            dst@ == old(dst)@ + src@.subrange(0, i as int),
        decreases src@.len() - i,
    {
        proof {
            assert(old(dst)@ + src@.subrange(0, i + 1) =~= (old(dst)@ + src@.subrange(
                0,
                i as int,
            )).push(src@[i as int]));
        }
        dst.push(src[i]);
        i = i + 1;
    }
    proof {
        assert(src@.subrange(0, src@.len() as int) =~= src@);
    }
}

/// The prompt shown while search is active, before the query.
pub open spec fn search_prefix() -> Seq<char> {
    seq!['S', 'e', 'a', 'r', 'c', 'h', ':', ' ']
}

/// The key hint shown while search is inactive.
pub open spec fn hint_text() -> Seq<char> {
    seq![
        'P', 'r', 'e', 's', 's', ' ', '\'', '/', '\'', ' ', 't', 'o', ' ', 's', 'e', 'a', 'r',
        'c', 'h', ',', ' ', '\'', 'q', '\'', ' ', 't', 'o', ' ', 'q', 'u', 'i', 't',
    ]
}

/// The banner line: the search prompt followed by the query while
/// search is active, the key hint otherwise.
pub open spec fn banner_spec(st: StateV) -> Seq<char> {
    if st.search_active {
        search_prefix() + st.search_query
    } else {
        hint_text()
    }
}

fn push_search_prefix(out: &mut Vec<char>)
    ensures
        final(out)@ == old(out)@ + search_prefix(),
{
    out.push('S');
    out.push('e');
    out.push('a');
    out.push('r');
    out.push('c');
    out.push('h');
    out.push(':');
    out.push(' ');
    proof {
        assert(out@ =~= old(out)@ + search_prefix());
    }
}

fn push_hint(out: &mut Vec<char>)
    ensures
        final(out)@ == old(out)@ + hint_text(),
{
    out.push('P');
    out.push('r');
    out.push('e');
    out.push('s');
    out.push('s');
    out.push(' ');
    out.push('\'');
    out.push('/');
    out.push('\'');
    out.push(' ');
    out.push('t');
    out.push('o');
    out.push(' ');
    out.push('s');
    out.push('e');
    out.push('a');
    out.push('r');
    out.push('c');
    out.push('h');
    out.push(',');
    out.push(' ');
    out.push('\'');
    out.push('q');
    out.push('\'');
    out.push(' ');
    out.push('t');
    out.push('o');
    out.push(' ');
    out.push('q');
    out.push('u');
    out.push('i');
    out.push('t');
    proof {
        assert(out@ =~= old(out)@ + hint_text());
    }
}

/// Computes the banner line for the current session state.
pub fn banner_chars(state: &crate::model::SessionState) -> (r: Vec<char>)
    ensures
        r@ == banner_spec(state@),
{
    let mut out: Vec<char> = Vec::new();
    if state.search_active {
        push_search_prefix(&mut out);
        append_chars(&mut out, &state.search_query);
        proof {
            assert(out@ =~= banner_spec(state@));
        }
    } else {
        push_hint(&mut out);
        proof {
            assert(out@ =~= banner_spec(state@));
        }
    }
    out
}

/// One interface's summary: name, received and transmitted totals in
/// whole kilobytes.
pub open spec fn net_entry_spec(n: NetCounters) -> Seq<char> {
    n.name@ + seq![' ', '\u{2193}'] + decimal_of((n.received / 1024) as int) + seq![
        ' ', 'K', 'B', ' ', '\u{2191}',
    ] + decimal_of((n.transmitted / 1024) as int) + seq![' ', 'K', 'B']
}

/// The network summary line: every interface's entry, pipe-separated,
/// in the order given.
pub open spec fn net_summary_spec(s: Seq<NetCounters>) -> Seq<char>
    decreases s.len(),
{
    if s.len() == 0 {
        Seq::empty()
    } else if s.len() == 1 {
        net_entry_spec(s[0])
    } else {
        net_summary_spec(s.drop_last()) + seq![' ', '|', ' '] + net_entry_spec(s.last())
    }
}

fn push_net_entry(out: &mut Vec<char>, n: &NetCounters)
    ensures
        final(out)@ == old(out)@ + net_entry_spec(*n),
{
    append_chars(out, &n.name);
    out.push(' ');
    out.push('\u{2193}');
    let rx = crate::text::decimal_digits(n.received / 1024);
    append_chars(out, &rx);
    out.push(' ');
    out.push('K');
    out.push('B');
    out.push(' ');
    out.push('\u{2191}');
    let tx = crate::text::decimal_digits(n.transmitted / 1024);
    append_chars(out, &tx);
    out.push(' ');
    out.push('K');
    out.push('B');
    proof {
        assert(out@ =~= old(out)@ + net_entry_spec(*n));
    }
}

/// Computes the network summary line from the interface counters.
pub fn net_summary_chars(interfaces: &Vec<NetCounters>) -> (r: Vec<char>)
    ensures
        r@ == net_summary_spec(interfaces@),
{
    let mut out: Vec<char> = Vec::new();
    let mut i: usize = 0;
    while i < interfaces.len()
        invariant
            i <= interfaces@.len(),
            out@ == net_summary_spec(interfaces@.subrange(0, i as int)),
        decreases interfaces@.len() - i,
    {
        let ghost prefix = interfaces@.subrange(0, i as int);
        let ghost prefix1 = interfaces@.subrange(0, i + 1);
        if i > 0 {
            out.push(' ');
            out.push('|');
            out.push(' ');
        }
        push_net_entry(&mut out, &interfaces[i]);
        proof {
            assert(prefix1.drop_last() =~= prefix);
            assert(prefix1.last() == interfaces@[i as int]);
            if i == 0 {
                assert(out@ =~= net_summary_spec(prefix1));
            } else {
                assert(out@ =~= net_summary_spec(prefix) + seq![' ', '|', ' ']
                    + net_entry_spec(interfaces@[i as int]));
                assert(out@ =~= net_summary_spec(prefix1));
            }
        }
        i = i + 1;
    }
    proof {
        assert(interfaces@.subrange(0, interfaces@.len() as int) =~= interfaces@);
    }
    out
}

} // verus!
