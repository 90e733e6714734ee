//! Port inspector: reads the OS socket table through the output of a probe
//! tool and answers which process ids hold a listener on a port.
//!
//! Two probing strategies exist, with one normalized result shape:
//!
//! - a POSIX-like socket-list utility, invoked restricted to the port,
//!   prints one process id per line;
//! - a connection-table dump prints one connection per line; the lines
//!   that carry the port's textual suffix and a listening marker end in
//!   the owning process id.
//!
//! A failed probe is read as "no listener found": absence of evidence is
//! deliberately biased toward "not running".

use vstd::prelude::*;

verus! {

use crate::bytes::contains_seq;
use crate::bytes::contains_bytes;
use crate::bytes::dec_digits_of;
use crate::bytes::last_token;
use crate::bytes::last_token_spec;
use crate::bytes::parse_u32;
use crate::bytes::parse_u32_spec;
use crate::bytes::split_lines;
use crate::bytes::split_lines_spec;
use crate::bytes::trim_bytes;
use crate::bytes::trim_spec;
use crate::bytes::u32_to_dec;

/// The textual port suffix looked for in a connection-table line: a colon
/// followed by the port in decimal.
pub open spec fn port_pattern(port: u16) -> Seq<u8> {
    seq![58u8] + dec_digits_of(port as nat)
}

/// The marker of a listening socket in a connection-table line.
pub open spec fn listening_marker() -> Seq<u8> {
    seq![76u8, 73u8, 83u8, 84u8, 69u8, 78u8, 73u8, 78u8, 71u8]
}

/// Builds the textual port suffix.
pub fn build_port_pattern(port: u16) -> (r: Vec<u8>)
    ensures
        r@ == port_pattern(port),
{
    let mut r: Vec<u8> = Vec::new();
    r.push(58);
    let mut digits = u32_to_dec(port as u32);
    r.append(&mut digits);
    proof {
        assert(r@ =~= port_pattern(port));
    }
    r
}

fn build_listening_marker() -> (r: Vec<u8>)
    ensures
        r@ == listening_marker(),
{
    let mut r: Vec<u8> = Vec::new();
    r.push(76);
    r.push(73);
    r.push(83);
    r.push(84);
    r.push(69);
    r.push(78);
    r.push(73);
    r.push(78);
    r.push(71);
    proof {
        assert(r@ =~= listening_marker());
    }
    r
}

/// What the socket-list utility's output names: the id on the first line.
pub open spec fn list_first_pid(out: Seq<u8>) -> Option<u32> {
    let ls = split_lines_spec(out);
    if ls.len() == 0 {
        None
    } else {
        parse_u32_spec(trim_spec(ls[0]))
    }
}

/// Reads a single listener's id from the socket-list utility's output: the
/// first line, trimmed and parsed. A failed invocation reads as no
/// listener.
pub fn list_probe(success: bool, out: &Vec<u8>) -> (r: Option<u32>)
    ensures
        r == (if success {
            list_first_pid(out@)
        } else {
            None::<u32>
        }),
{
    if !success {
        return None;
    }
    let lines = split_lines(out);
    if lines.len() == 0 {
        return None;
    }
    let t = trim_bytes(&lines[0]);
    proof {
        assert(lines.deep_view()[0] == lines@[0]@);
    }
    parse_u32(&t)
}

/// The ids collected from the socket-list utility's output: each line,
/// trimmed and parsed; zero and repeated ids are dropped, first occurrence
/// order is kept.
pub open spec fn collect_list_pids(lines: Seq<Seq<u8>>, acc: Seq<u32>) -> Seq<u32>
    decreases lines.len(),
{
    if lines.len() == 0 {
        acc
    } else {
        let p = parse_u32_spec(trim_spec(lines[0]));
        let acc2 = match p {
            Some(v) => if v > 0 && !acc.contains(v) {
                acc.push(v)
            } else {
                acc
            },
            None => acc,
        };
        collect_list_pids(lines.drop_first(), acc2)
    }
}

/// All listener ids in the socket-list utility's output.
pub open spec fn list_all_pids(out: Seq<u8>) -> Seq<u32> {
    collect_list_pids(split_lines_spec(out), Seq::empty())
}

fn contains_u32(v: &Vec<u32>, x: u32) -> (r: bool)
    ensures
        r == v@.contains(x),
{
    let mut k: usize = 0;
    while k < v.len()
        invariant
            k <= v@.len(),
            forall|j: int| 0 <= j < k ==> v@[j] != x,
        decreases v@.len() - k,
    {
        if v[k] == x {
            return true;
        }
        k = k + 1;
    }
    false
}

/// Reads every listener id from the socket-list utility's output, without
/// stopping at the first: the data source for the bulk-kill operation.
pub fn list_all_probe(success: bool, out: &Vec<u8>) -> (r: Vec<u32>)
    ensures
        r@ == (if success {
            list_all_pids(out@)
        } else {
            Seq::<u32>::empty()
        }),
{
    let mut pids: Vec<u32> = Vec::new();
    if !success {
        return pids;
    }
    let lines = split_lines(out);
    let ghost ls = lines.deep_view();
    proof {
        assert(ls.skip(0) =~= ls);
    }
    let mut k: usize = 0;
    while k < lines.len()
        invariant
            k <= lines@.len(),
            ls == lines.deep_view(),
            ls.len() == lines@.len(),
            collect_list_pids(ls.skip(k as int), pids@) == collect_list_pids(
                ls,
                Seq::empty(),
            ),
        decreases lines@.len() - k,
    {
        proof {
            assert(ls.skip(k as int).drop_first() =~= ls.skip(k + 1));
            assert(ls.skip(k as int)[0] == ls[k as int]);
            assert(ls[k as int] == lines@[k as int]@);
        }
        let t = trim_bytes(&lines[k]);
        if let Some(v) = parse_u32(&t) {
            if v > 0 {
                if !contains_u32(&pids, v) {
                    pids.push(v);
                }
            }
        }
        k = k + 1;
    }
    proof {
        assert(ls.skip(k as int) =~= Seq::<Seq<u8>>::empty());
    }
    pids
}

/// A connection-table line that names a listener on the port: it carries
/// the port's textual suffix and the listening marker.
pub open spec fn table_line_listens(l: Seq<u8>, port: u16) -> bool {
    contains_seq(l, port_pattern(port)) && contains_seq(l, listening_marker())
}

/// What the connection-table dump names as the single listener: in the
/// first listening line whose last token parses, that token's value.
pub open spec fn table_first(lines: Seq<Seq<u8>>, port: u16) -> Option<u32>
    decreases lines.len(),
{
    if lines.len() == 0 {
        None
    } else {
        let cand = if table_line_listens(lines[0], port) {
            parse_u32_spec(last_token_spec(lines[0]))
        } else {
            None
        };
        if cand is Some {
            cand
        } else {
            table_first(lines.drop_first(), port)
        }
    }
}

/// The single listener named by a connection-table dump.
pub open spec fn table_first_pid(out: Seq<u8>, port: u16) -> Option<u32> {
    table_first(split_lines_spec(out), port)
}

/// Reads a single listener's id from a connection-table dump: the first
/// line that carries the port suffix and the listening marker and whose
/// last token is an id. A failed invocation reads as no listener.
pub fn table_probe(success: bool, out: &Vec<u8>, port: u16) -> (r: Option<u32>)
    ensures
        r == (if success {
            table_first_pid(out@, port)
        } else {
            None::<u32>
        }),
{
    if !success {
        return None;
    }
    let pat = build_port_pattern(port);
    let marker = build_listening_marker();
    let lines = split_lines(out);
    let ghost ls = lines.deep_view();
    proof {
        assert(ls.skip(0) =~= ls);
    }
    let mut k: usize = 0;
    while k < lines.len()
        invariant
            k <= lines@.len(),
            ls == lines.deep_view(),
            ls.len() == lines@.len(),
            pat@ == port_pattern(port),
            marker@ == listening_marker(),
            success,
            ls == split_lines_spec(out@),
            table_first(ls.skip(k as int), port) == table_first(ls, port),
        decreases lines@.len() - k,
    {
        proof {
            assert(ls.skip(k as int).drop_first() =~= ls.skip(k + 1));
            assert(ls.skip(k as int)[0] == ls[k as int]);
            assert(ls[k as int] == lines@[k as int]@);
        }
        let in_port = contains_bytes(&lines[k], &pat);
        let listening = contains_bytes(&lines[k], &marker);
        if in_port && listening {
            let t = last_token(&lines[k]);
            if let Some(v) = parse_u32(&t) {
                proof {
                    assert(table_first(ls.skip(k as int), port) == parse_u32_spec(
                        last_token_spec(ls[k as int]),
                    ));
                }
                return Some(v);
            }
        }
        k = k + 1;
    }
    proof {
        assert(ls.skip(k as int) =~= Seq::<Seq<u8>>::empty());
    }
    None
}

/// The ids collected from a connection-table dump: every listening line —
/// one carrying the port suffix and the listening marker — contributes its
/// last token; zero and repeated ids are dropped, first occurrence order
/// is kept.
pub open spec fn collect_table_pids(lines: Seq<Seq<u8>>, port: u16, acc: Seq<u32>) -> Seq<
    u32,
>
    decreases lines.len(),
{
    if lines.len() == 0 {
        acc
    } else {
        let p = if table_line_listens(lines[0], port) {
            parse_u32_spec(last_token_spec(lines[0]))
        } else {
            None
        };
        let acc2 = match p {
            Some(v) => if v > 0 && !acc.contains(v) {
                acc.push(v)
            } else {
                acc
            },
            None => acc,
        };
        collect_table_pids(lines.drop_first(), port, acc2)
    }
}

/// All listening ids in a connection-table dump.
pub open spec fn table_all_pids(out: Seq<u8>, port: u16) -> Seq<u32> {
    collect_table_pids(split_lines_spec(out), port, Seq::empty())
}

/// Reads every listener's id from a connection-table dump, without
/// stopping at the first: only lines that carry both the port suffix and
/// the listening marker count, as when a single listener is asked for.
pub fn table_all_probe(success: bool, out: &Vec<u8>, port: u16) -> (r: Vec<u32>)
    ensures
        r@ == (if success {
            table_all_pids(out@, port)
        } else {
            Seq::<u32>::empty()
        }),
{
    let mut pids: Vec<u32> = Vec::new();
    if !success {
        return pids;
    }
    let pat = build_port_pattern(port);
    let marker = build_listening_marker();
    let lines = split_lines(out);
    let ghost ls = lines.deep_view();
    proof {
        assert(ls.skip(0) =~= ls);
    }
    let mut k: usize = 0;
    while k < lines.len()
        invariant
            k <= lines@.len(),
            ls == lines.deep_view(),
            ls.len() == lines@.len(),
            pat@ == port_pattern(port),
            marker@ == listening_marker(),
            collect_table_pids(ls.skip(k as int), port, pids@) == collect_table_pids(
                ls,
                port,
                Seq::empty(),
            ),
        decreases lines@.len() - k,
    {
        proof {
            assert(ls.skip(k as int).drop_first() =~= ls.skip(k + 1));
            assert(ls.skip(k as int)[0] == ls[k as int]);
            assert(ls[k as int] == lines@[k as int]@);
        }
        let in_port = contains_bytes(&lines[k], &pat);
        let listening = contains_bytes(&lines[k], &marker);
        if in_port && listening {
            let t = last_token(&lines[k]);
            if let Some(v) = parse_u32(&t) {
                if v > 0 {
                    if !contains_u32(&pids, v) {
                        pids.push(v);
                    }
                }
            }
        }
        k = k + 1;
    }
    proof {
        assert(ls.skip(k as int) =~= Seq::<Seq<u8>>::empty());
    }
    pids
}

} // verus!
