//! Choices of the bandwidth monitor: which interface to watch and how a
//! byte counter is read. Reading the counters and averaging the rates
//! belong to the program that runs the monitor.

use vstd::prelude::*;
use crate::numfmt::{parse_unsigned, parse_unsigned_u64};
use crate::text::{chars_of, str_eq, trim, trimmed};

verus! {

/// The value of a counter file's text: the trimmed decimal number, or 0
/// when it is not one.
pub open spec fn counter_value(text: Seq<char>) -> nat {
    match parse_unsigned(trimmed(text), 0xffff_ffff_ffff_ffff) {
        Some(v) => v,
        None => 0,
    }
}

/// Reads a byte counter from the text of its file.
pub fn read_counter(text: &str) -> (res: u64)
    ensures
        res == counter_value(text@),
{
    let t = trim(text);
    let cs = chars_of(t.as_str());
    match parse_unsigned_u64(cs.as_slice(), 0xffff_ffff_ffff_ffff) {
        Some(v) => v,
        None => 0,
    }
}

/// The index of the candidate with the most received bytes, the first
/// among equals (-1 when there is none).
pub open spec fn busiest_index(rx: Seq<u64>) -> int
    decreases rx.len(),
{
    if rx.len() == 0 {
        -1
    } else {
        let p = busiest_index(rx.drop_last());
        if p >= 0 && rx[p] >= rx.last() {
            p
        } else {
            rx.len() - 1
        }
    }
}

/// The received-byte counts of the candidates.
pub open spec fn rx_counts(cands: Seq<(String, u64)>) -> Seq<u64> {
    cands.map_values(|c: (String, u64)| c.1)
}

/// The name of the interface with the most received bytes, the first
/// among equals; none without candidates.
pub fn busiest_interface(cands: &[(String, u64)]) -> (res: Option<String>)
    ensures
        match res {
            Some(name) => {
                let k = busiest_index(rx_counts(cands@));
                0 <= k < cands@.len() && name@ == cands@[k].0@
            },
            None => cands@.len() == 0,
        },
{
    if cands.len() == 0 {
        return None;
    }
    let ghost rx = rx_counts(cands@);
    let mut best: usize = 0;
    let mut i: usize = 1;
    proof {
        assert(rx.take(1).drop_last() =~= Seq::<u64>::empty());
        assert(busiest_index(rx.take(1).drop_last()) == -1);
        assert(busiest_index(rx.take(1)) == 0);
    }
    while i < cands.len()
        invariant
            1 <= i <= cands@.len(),
            rx == rx_counts(cands@),
            rx.len() == cands@.len(),
            best < i,
            best as int == busiest_index(rx.take(i as int)),
        decreases cands@.len() - i,
    {
        proof {
            assert(rx.take(i + 1).drop_last() =~= rx.take(i as int));
            assert(rx.take(i + 1).last() == rx[i as int]);
            assert(rx.take(i as int)[best as int] == rx[best as int]);
            assert(rx[i as int] == cands@[i as int].1);
            assert(rx[best as int] == cands@[best as int].1);
        }
        if cands[i].1 > cands[best].1 {
            best = i;
        }
        i = i + 1;
    }
    proof {
        assert(rx.take(cands@.len() as int) =~= rx);
    }
    Some(cands[best].0.clone())
}

/// The candidates that are not the loopback interface `lo`, in order.
pub open spec fn non_loopback(cands: Seq<(String, u64)>) -> Seq<(String, u64)> {
    cands.filter(|c: (String, u64)| c.0@ != "lo"@)
}

/// The interface to watch: the busiest candidate (the first among equals)
/// other than `lo`; none when only `lo` or nothing is left.
pub fn primary_interface(cands: &[(String, u64)]) -> (res: Option<String>)
    ensures
        match res {
            Some(name) => {
                let kept = non_loopback(cands@);
                let k = busiest_index(rx_counts(kept));
                &&& 0 <= k < kept.len()
                &&& name@ == kept[k].0@
                &&& name@ != "lo"@
            },
            None => non_loopback(cands@).len() == 0,
        },
{
    let ghost pred = |c: (String, u64)| c.0@ != "lo"@;
    let mut kept: Vec<(String, u64)> = Vec::new();
    let mut i: usize = 0;
    proof {
        reveal(Seq::filter);
        assert(cands@.take(0) =~= Seq::<(String, u64)>::empty());
    }
    while i < cands.len()
        invariant
            0 <= i <= cands@.len(),
            pred == (|c: (String, u64)| c.0@ != "lo"@),
            kept@ == cands@.take(i as int).filter(pred),
        decreases cands@.len() - i,
    {
        proof {
            reveal(Seq::filter);
            assert(cands@.take(i + 1).drop_last() =~= cands@.take(i as int));
            assert(cands@.take(i + 1).last() == cands@[i as int]);
        }
        if !str_eq(cands[i].0.as_str(), "lo") {
            let c = (cands[i].0.clone(), cands[i].1);
            assert(c == cands@[i as int]);
            kept.push(c);
        }
        i = i + 1;
    }
    proof {
        assert(cands@.take(cands@.len() as int) =~= cands@);
    }
    let res = busiest_interface(kept.as_slice());
    proof {
        if res is Some {
            let k = busiest_index(rx_counts(kept@));
            cands@.lemma_filter_pred(pred, k);
        }
    }
    res
}

} // verus!
