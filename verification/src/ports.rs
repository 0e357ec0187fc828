//! Choosing a port within the configured range. Whether a port is free is
//! learned by binding it, which is done around the library.

use vstd::prelude::*;

use crate::text::{chars_of, decimal, push_decimal, push_str, string_of};

verus! {

/// The ports of `range` that are not reserved, in order: the candidates to
/// try, first to last.
pub fn candidate_ports(range: &Vec<u16>, reserved: &Vec<u16>) -> (r: Vec<u16>)
    ensures
        r@ == range@.filter(|p: u16| !reserved@.contains(p)),
{
    let ghost pred = |p: u16| !reserved@.contains(p);
    let mut out: Vec<u16> = Vec::new();
    let mut i: usize = 0;
    assert(range@.take(0).filter(pred) =~= Seq::<u16>::empty()) by {
        reveal(Seq::filter);
    }
    while i < range.len()
        invariant
            i <= range.len(),
            pred == (|p: u16| !reserved@.contains(p)),
            out@ == range@.take(i as int).filter(pred),
        decreases range.len() - i,
    {
        let p = range[i];
        let mut seen = false;
        let mut j: usize = 0;
        while j < reserved.len()
            invariant
                j <= reserved.len(),
                seen == exists|k: int| 0 <= k < j && reserved@[k] == p,
            decreases reserved.len() - j,
        {
            if reserved[j] == p {
                seen = true;
            }
            j = j + 1;
        }
        proof {
            reveal(Seq::filter);
            assert(range@.take(i + 1).drop_last() =~= range@.take(i as int));
            assert(range@.take(i + 1).last() == p);
        }
        if !seen {
            out.push(p);
        }
        i = i + 1;
    }
    assert(range@.take(i as int) =~= range@);
    out
}

/// The error when no port of the range can be used.
pub fn no_free_port_message(range: &Vec<u16>) -> (r: String)
    ensures
        r@ == "no free port in "@ + decimal(
            (if range@.len() > 0 {
                range@[0]
            } else {
                0u16
            }) as nat,
        ) + "-"@ + decimal(
            (if range@.len() > 0 {
                range@.last()
            } else {
                0u16
            }) as nat,
        ) + ". Free one up, or widen the range with `showme config --ports LOW-HIGH`"@,
{
    let low = if range.len() > 0 {
        range[0]
    } else {
        0
    };
    let high = if range.len() > 0 {
        range[range.len() - 1]
    } else {
        0
    };
    let mut msg = chars_of("no free port in ");
    push_decimal(&mut msg, low as u64);
    push_str(&mut msg, "-");
    push_decimal(&mut msg, high as u64);
    push_str(&mut msg, ". Free one up, or widen the range with `showme config --ports LOW-HIGH`");
    string_of(&msg)
}

} // verus!
