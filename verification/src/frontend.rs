//! Formatting helpers for a command-line front end.  The menu loop itself,
//! input reading and the clipboard are a caller's concern.

use vstd::prelude::*;

use crate::num::{push_u64_digits, spec_u64_digits};
use crate::text::{chars_to_string, str_to_chars};

verus! {

/// The listing of `symbols` from position `i` on: each symbol on a line of
/// its own as `<position>. <symbol>`, numbered from one.
pub open spec fn spec_indexed_from(symbols: Seq<String>, i: int) -> Seq<char>
    decreases symbols.len() - i,
{
    if i < 0 || i >= symbols.len() {
        Seq::empty()
    } else {
        spec_u64_digits((i + 1) as nat) + seq!['.', ' '] + symbols[i]@ + seq!['\n']
            + spec_indexed_from(symbols, i + 1)
    }
}

/// Enumerates the symbols, one numbered line each, numbering from one.
pub fn get_indexed_symbols(symbols: &Vec<String>) -> (r: String)
    ensures
        r@ == spec_indexed_from(symbols@, 0),
{
    let mut acc: Vec<char> = Vec::new();
    let n = symbols.len();
    let mut i: usize = 0;
    assert(acc@ + spec_indexed_from(symbols@, 0) =~= spec_indexed_from(symbols@, 0));
    while i < n
        invariant
            n == symbols@.len(),
            i <= n,
            spec_indexed_from(symbols@, 0) == acc@ + spec_indexed_from(symbols@, i as int),
        decreases n - i,
    {
        let ghost acc0 = acc@;
        push_u64_digits((i + 1) as u64, &mut acc);
        acc.push('.');
        acc.push(' ');
        let sym = str_to_chars(symbols[i].as_str());
        let ghost acc1 = acc@;
        let mut k: usize = 0;
        while k < sym.len()
            invariant
                k <= sym@.len(),
                acc@ == acc1 + sym@.take(k as int),
            decreases sym@.len() - k,
        {
            acc.push(sym[k]);
            k += 1;
        }
        acc.push('\n');
        proof {
            assert(sym@.take(sym@.len() as int) =~= sym@);
            assert(acc@ =~= acc0 + (spec_u64_digits((i + 1) as nat) + seq!['.', ' ']
                + symbols@[i as int]@ + seq!['\n']));
            assert(acc@ + spec_indexed_from(symbols@, i + 1) =~= acc0 + spec_indexed_from(
                symbols@,
                i as int,
            ));
        }
        i += 1;
    }
    assert(acc@ =~= acc@ + spec_indexed_from(symbols@, i as int));
    chars_to_string(&acc)
}

} // verus!
