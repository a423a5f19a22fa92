use vstd::prelude::*;
use vstd::string::StringExecFns;

verus! {

/// The character for a single decimal digit value.
pub open spec fn dec_digit(d: nat) -> char {
    if d == 0 {
        '0'
    } else if d == 1 {
        '1'
    } else if d == 2 {
        '2'
    } else if d == 3 {
        '3'
    } else if d == 4 {
        '4'
    } else if d == 5 {
        '5'
    } else if d == 6 {
        '6'
    } else if d == 7 {
        '7'
    } else if d == 8 {
        '8'
    } else {
        '9'
    }
}

/// Decimal rendering of a natural number, most significant digit first,
/// without leading zeros (except for the number zero itself).
pub open spec fn dec_str(n: nat) -> Seq<char>
    decreases n,
{
    if n < 10 {
        seq![dec_digit(n)]
    } else {
        dec_str(n / 10) + seq![dec_digit(n % 10)]
    }
}

/// The synthetic rule name an allocator with counter value `n` produces
/// for the owning rule name `prefix`.
pub open spec fn fresh_name(prefix: Seq<char>, n: nat) -> Seq<char> {
    prefix + seq!['_'] + dec_str(n)
}

/// The counter value after one name has been generated: it advances by one
/// and saturates at the largest machine integer.
pub open spec fn next_counter(c: nat) -> nat {
    if c < usize::MAX as nat {
        c + 1
    } else {
        c
    }
}

/// Allocator for synthetic rule names: a counter, advanced once per
/// generated name, so that names produced over one generation run differ
/// from one another. One allocator is created per run.
pub struct NameGen {
    idx: usize,
}

impl NameGen {
    /// The current counter value: the index the next generated name carries.
    pub closed spec fn counter(&self) -> nat {
        self.idx as nat
    }

    pub fn new() -> (r: Self)
        ensures
            r.counter() == 0,
    {
        NameGen { idx: 0 }
    }

    /// Returns `prefix + "_" + <counter>` and advances the counter.
    /// The counter saturates at `usize::MAX`; from that point names repeat,
    /// which the rule store reports as a name collision rather than
    /// accepting a duplicate rule name.
    pub fn get_fresh_name(&mut self, prefix: &str) -> (r: String)
        ensures
            r@ == fresh_name(prefix@, old(self).counter()),
            final(self).counter() == next_counter(old(self).counter()),
    {
        let mut name = prefix.to_owned();
        name.append("_");
        proof {
            reveal_strlit("_");
            assert(name@ =~= prefix@ + seq!['_']);
        }
        push_dec(self.idx, &mut name);
        proof {
            assert(name@ =~= fresh_name(prefix@, self.idx as nat));
        }
        if self.idx < usize::MAX {
            self.idx = self.idx + 1;
        }
        name
    }
}

/// Appends the decimal rendering of `n` to `out`.
pub(crate) fn push_dec(n: usize, out: &mut String)
    ensures
        final(out)@ == old(out)@ + dec_str(n as nat),
    decreases n,
{
    if n < 10 {
        out.append(digit_str(n));
    } else {
        assert(n / 10 < n) by (nonlinear_arith)
            requires
                n >= 10,
        ;
        push_dec(n / 10, out);
        out.append(digit_str(n % 10));
        proof {
            assert(out@ =~= old(out)@ + dec_str(n as nat));
        }
    }
}

/// The one-character string for a decimal digit value.
fn digit_str(d: usize) -> (r: &'static str)
    requires
        d < 10,
    ensures
        r@ == seq![dec_digit(d as nat)],
{
    proof {
        reveal_strlit("0");
        reveal_strlit("1");
        reveal_strlit("2");
        reveal_strlit("3");
        reveal_strlit("4");
        reveal_strlit("5");
        reveal_strlit("6");
        reveal_strlit("7");
        reveal_strlit("8");
        reveal_strlit("9");
    }
    let r = if d == 0 {
        "0"
    } else if d == 1 {
        "1"
    } else if d == 2 {
        "2"
    } else if d == 3 {
        "3"
    } else if d == 4 {
        "4"
    } else if d == 5 {
        "5"
    } else if d == 6 {
        "6"
    } else if d == 7 {
        "7"
    } else if d == 8 {
        "8"
    } else {
        "9"
    };
    proof {
        assert(r@ =~= seq![dec_digit(d as nat)]);
    }
    r
}

} // verus!
