//! Fresh identifiers: a caller-supplied seed and a running number.

use vstd::prelude::*;

use crate::naturals::{natural, shown, successor, written_out};
use crate::text::{all_digits, decimal, digit_char, digits_value};

verus! {

/// Where fresh identifiers come from. Two sources with the same seed issue the
/// same identifiers, so the seed has to be unique to the stream it serves. The
/// running number has no end.
#[derive(Debug)]
pub struct IdSource {
    seed: String,
    issued: Vec<u8>,
}

pub ghost struct IdsView {
    pub seed: Seq<char>,
    pub issued: nat,
}

impl IdsView {
    /// The identifier that comes next.
    pub open spec fn fresh(self) -> Seq<char> {
        (self.seed.push('-')) + decimal(self.issued)
    }

    /// The source after it has issued one more.
    pub open spec fn advanced(self) -> IdsView {
        IdsView { seed: self.seed, issued: self.issued + 1 }
    }
}

impl IdSource {
    pub closed spec fn view(&self) -> IdsView {
        IdsView { seed: self.seed@, issued: natural(self.issued@) }
    }

    #[verifier::type_invariant]
    spec fn well_formed(self) -> bool {
        written_out(self.issued@)
    }

    pub fn new(seed: &str) -> (ids: IdSource)
        ensures
            ids@ == (IdsView { seed: seed@, issued: 0 }),
    {
        let mut issued: Vec<u8> = Vec::new();
        issued.push(0);
        assert(natural(issued@) == 0) by {
            assert(issued@.drop_first() =~= Seq::empty());
            assert(natural(issued@.drop_first()) == 0);
        }
        IdSource { seed: seed.to_owned(), issued }
    }

    pub fn mint(&mut self) -> (id: String)
        ensures
            id@ == old(self)@.fresh(),
            final(self)@ == old(self)@.advanced(),
    {
        proof {
            use_type_invariant(&*self);
        }
        let mut id = self.seed.clone();
        id.push('-');
        id.append(&shown(&self.issued));
        self.issued = successor(&self.issued);
        id
    }
}

pub proof fn lemma_decimal_reads_back(n: nat)
    ensures
        all_digits(decimal(n)),
        digits_value(decimal(n)) == n,
    decreases n,
{
    if n < 10 {
        assert(decimal(n).drop_last() =~= Seq::empty());
        assert(decimal(n).last() == digit_char(n));
        assert(digits_value(Seq::<char>::empty()) == 0);
    } else {
        lemma_decimal_reads_back(n / 10);
        assert(decimal(n).drop_last() =~= decimal(n / 10));
        assert(decimal(n).last() == digit_char(n % 10));
    }
}

/// Two different numbers have different decimal texts.
pub proof fn law_decimal_is_injective(a: nat, b: nat)
    requires
        decimal(a) == decimal(b),
    ensures
        a == b,
{
    lemma_decimal_reads_back(a);
    lemma_decimal_reads_back(b);
}

/// A source never issues the same identifier under two different numbers.
pub proof fn law_fresh_ids_differ(seed: Seq<char>, a: nat, b: nat)
    requires
        a != b,
    ensures
        (IdsView { seed, issued: a }).fresh() != (IdsView { seed, issued: b }).fresh(),
{
    let first = (IdsView { seed, issued: a }).fresh();
    let second = (IdsView { seed, issued: b }).fresh();
    let start = seed.len() as int + 1;
    assert(first.subrange(start, first.len() as int) =~= decimal(a));
    assert(second.subrange(start, second.len() as int) =~= decimal(b));
    if first == second {
        law_decimal_is_injective(a, b);
    }
}

} // verus!
