//! The radix converter: positional base conversion of an unsigned 128-bit
//! integer into a string over a corpus of digit characters. The radix is the
//! corpus length; digit values are produced least significant first by
//! repeated division, then mapped to corpus characters and reversed so the
//! most significant digit comes first.
use vstd::prelude::*;

verus! {

use vstd::arithmetic::div_mod::{
    lemma_div_decreases, lemma_div_multiples_vanish, lemma_fundamental_div_mod, lemma_mod_bound,
};
use vstd::arithmetic::mul::{lemma_mul_inequality, lemma_mul_is_distributive_add};
use vstd::arithmetic::power::{lemma_pow1, lemma_pow_adds, lemma_pow_increases, pow};
use crate::alphabet::{corpus_spec, valid_corpus, RadixSettings};

/// The digit values of `v` in base `base`, least significant digit first.
/// A value below the base is a single digit; otherwise the lowest digit is
/// `v % base` and the remaining digits are those of `v / base`.
pub open spec fn digits_of(v: nat, base: nat) -> Seq<nat>
    recommends
        2 <= base,
    decreases v,
    when 2 <= base
{
    if v < base {
        seq![v]
    } else {
        proof {
            lemma_div_decreases(v as int, base as int);
        }
        seq![v % base] + digits_of(v / base, base)
    }
}

/// Every digit value is below the base, so each one is a valid corpus index.
pub proof fn lemma_digits_of_bounded(v: nat, base: nat)
    requires
        2 <= base,
    ensures
        forall|i: int| 0 <= i < digits_of(v, base).len() ==> digits_of(v, base)[i] < base,
    decreases v,
{
    if v < base {
    } else {
        lemma_div_decreases(v as int, base as int);
        lemma_digits_of_bounded(v / base, base);
        lemma_mod_bound(v as int, base as int);
        assert forall|i: int| 0 <= i < digits_of(v, base).len() implies digits_of(
            v,
            base,
        )[i] < base by {
            if i > 0 {
                assert(digits_of(v, base)[i] == digits_of(v / base, base)[i - 1]);
            }
        }
    }
}

/// The value a digit sequence denotes: the first digit is the units place,
/// and each later digit weighs `base` times the one before it.
pub open spec fn digits_value(digits: Seq<nat>, base: nat) -> nat
    decreases digits.len(),
{
    if digits.len() == 0 {
        0
    } else {
        digits[0] + base * digits_value(digits.drop_first(), base)
    }
}

/// The digit sequence of `v` denotes `v` itself: repeated division loses
/// nothing.
pub proof fn lemma_digits_of_value(v: nat, base: nat)
    requires
        2 <= base,
    ensures
        digits_value(digits_of(v, base), base) == v,
    decreases v,
{
    if v < base {
        assert(digits_value(Seq::<nat>::empty(), base) == 0);
        assert(seq![v].drop_first() =~= Seq::<nat>::empty());
        assert(digits_value(seq![v], base) == seq![v][0] + base * digits_value(
            seq![v].drop_first(),
            base,
        ));
    } else {
        lemma_div_decreases(v as int, base as int);
        lemma_digits_of_value(v / base, base);
        let ds = digits_of(v, base);
        assert(ds.drop_first() =~= digits_of(v / base, base));
        assert(digits_value(ds, base) == v % base + base * (v / base));
        lemma_fundamental_div_mod(v as int, base as int);
    }
}

/// The digit count of `v` in base `base` is the positional one: a single
/// digit exactly for values below the base, `v` always below
/// `base^count`, and — past one digit — at least `base^(count-1)`. Those
/// bounds say `count` is the least number of base-`base` places that can
/// hold `v`, that is `⌈log_base(v+1)⌉`, with one place for `v == 0`.
pub proof fn lemma_digits_of_len(v: nat, base: nat)
    requires
        2 <= base,
    ensures
        1 <= digits_of(v, base).len(),
        (v as int) < pow(base as int, digits_of(v, base).len()),
        digits_of(v, base).len() == 1 <==> v < base,
        1 < digits_of(v, base).len() ==> pow(
            base as int,
            (digits_of(v, base).len() - 1) as nat,
        ) <= v as int,
    decreases v,
{
    let n = digits_of(v, base).len();
    if v < base {
        lemma_pow1(base as int);
    } else {
        lemma_div_decreases(v as int, base as int);
        lemma_mod_bound(v as int, base as int);
        lemma_fundamental_div_mod(v as int, base as int);
        let v2 = v / base;
        lemma_digits_of_len(v2, base);
        let n2 = digits_of(v2, base).len();
        assert(n == n2 + 1);
        lemma_pow1(base as int);
        // upper bound: v < base * (v2 + 1) <= base * pow(base, n2) == pow(base, n)
        lemma_pow_adds(base as int, n2, 1);
        assert(pow(base as int, n) == pow(base as int, n2) * (base as int));
        lemma_mul_is_distributive_add(base as int, v2 as int, 1);
        assert((v as int) < (base as int) * (v2 as int + 1));
        lemma_mul_inequality(v2 as int + 1, pow(base as int, n2), base as int);
        // lower bound: pow(base, n - 1) == pow(base, n2) <= v
        if n2 > 1 {
            lemma_pow_adds(base as int, (n2 - 1) as nat, 1);
            assert(pow(base as int, n2) == pow(base as int, (n2 - 1) as nat) * (base as int));
            lemma_mul_inequality(pow(base as int, (n2 - 1) as nat), v2 as int, base as int);
            assert((v2 as int) * (base as int) <= v as int);
        }
    }
}

/// The converted string has exactly the positional digit count of
/// `lemma_digits_of_len`: length `⌈log_radix(v+1)⌉`, and length 1 for
/// `v == 0`.
pub proof fn lemma_convert_len(corpus: Seq<char>, v: nat)
    requires
        2 <= corpus.len(),
    ensures
        convert_spec(corpus, v).len() == digits_of(v, corpus.len()).len(),
        1 <= convert_spec(corpus, v).len(),
        (v as int) < pow(corpus.len() as int, convert_spec(corpus, v).len()),
        convert_spec(corpus, v).len() == 1 <==> v < corpus.len(),
        1 < convert_spec(corpus, v).len() ==> pow(
            corpus.len() as int,
            (convert_spec(corpus, v).len() - 1) as nat,
        ) <= v as int,
{
    lemma_digits_of_len(v, corpus.len());
}

/// Output length never shrinks as the value grows, at a fixed corpus.
pub proof fn lemma_convert_len_monotonic(corpus: Seq<char>, v1: nat, v2: nat)
    requires
        2 <= corpus.len(),
        v1 <= v2,
    ensures
        convert_spec(corpus, v1).len() <= convert_spec(corpus, v2).len(),
{
    lemma_convert_len(corpus, v1);
    lemma_convert_len(corpus, v2);
    let base = corpus.len();
    let n1 = convert_spec(corpus, v1).len();
    let n2 = convert_spec(corpus, v2).len();
    if n1 > n2 {
        lemma_pow_increases(base, n2, (n1 - 1) as nat);
        assert(false);
    }
}

/// Conversion is deterministic: any two results of converting the same
/// value over the same corpus are identical, because each is pinned to
/// `convert_spec` of the inputs alone.
pub proof fn lemma_convert_deterministic(corpus: Seq<char>, v: nat, r1: Seq<char>, r2: Seq<char>)
    requires
        r1 == convert_spec(corpus, v),
        r2 == convert_spec(corpus, v),
    ensures
        r1 == r2,
{
}

/// One step of base conversion: starts loaded with a number and yields its
/// digit values in base `base`, least significant first, until none remain.
#[derive(Clone, Copy, PartialEq, Eq, Structural, Debug)]
pub struct BaseConvertIter {
    // `Some` while digits remain; the final step takes it to `None`.
    number: Option<u128>,
    base: usize,
}

impl BaseConvertIter {
    /// The base is large enough to divide by.
    pub closed spec fn wf(self) -> bool {
        2 <= self.base
    }

    /// The base this iterator divides by.
    pub closed spec fn base_spec(self) -> nat {
        self.base as nat
    }

    /// The digit values this iterator has yet to yield.
    pub closed spec fn remaining(self) -> Seq<nat> {
        match self.number {
            Option::Some(n) => digits_of(n as nat, self.base as nat),
            Option::None => Seq::empty(),
        }
    }

    pub fn new(number: u128, base: usize) -> (r: Self)
        requires
            2 <= base,
        ensures
            r.wf(),
            r.base_spec() == base as nat,
            r.remaining() == digits_of(number as nat, base as nat),
    {
        Self { number: Some(number), base }
    }

    /// Yields the next digit value, or `None` once all digits are out.
    pub fn next(&mut self) -> (r: Option<usize>)
        requires
            old(self).wf(),
        ensures
            final(self).wf(),
            final(self).base_spec() == old(self).base_spec(),
            match r {
                Option::Some(digit) => {
                    &&& (digit as nat) < old(self).base_spec()
                    &&& old(self).remaining() == seq![digit as nat] + final(self).remaining()
                },
                Option::None => {
                    &&& old(self).remaining().len() == 0
                    &&& *final(self) == *old(self)
                },
            },
    {
        match self.number {
            Some(number) => {
                let base = self.base as u128;
                if number < base {
                    self.number = None;
                    proof {
                        assert(seq![number as nat] =~= seq![number as nat] + Seq::<nat>::empty());
                    }
                    Some(number as usize)
                } else {
                    let left = number % base;
                    proof {
                        lemma_mod_bound(number as int, base as int);
                        lemma_fundamental_div_mod(number as int, base as int);
                        lemma_div_multiples_vanish((number as int) / (base as int), base as int);
                    }
                    self.number = Some((number - left) / base);
                    Some(left as usize)
                }
            },
            None => None,
        }
    }
}

/// The conversion of `v` into a string over `corpus`: its digit values in
/// base `corpus.len()`, each replaced by the corpus character at that index,
/// most significant digit first.
pub open spec fn convert_spec(corpus: Seq<char>, v: nat) -> Seq<char>
    recommends
        2 <= corpus.len(),
{
    digits_of(v, corpus.len()).reverse().map_values(|d: nat| corpus[d as int])
}

/// A converter holding a corpus; the corpus length is the radix.
#[derive(Clone, Debug)]
pub struct AsciiConverter {
    corpus: String,
}

impl View for AsciiConverter {
    type V = Seq<char>;

    closed spec fn view(&self) -> Seq<char> {
        self.corpus@
    }
}

impl AsciiConverter {
    /// The held corpus is one the alphabet builder could have produced:
    /// at least two pairwise-distinct ASCII characters.
    pub open spec fn wf(&self) -> bool {
        valid_corpus(self@)
    }

    pub fn new(settings: &RadixSettings) -> (r: Self)
        ensures
            r.wf(),
            r@ == corpus_spec(*settings),
    {
        Self { corpus: settings.corpus() }
    }

    /// Expresses `decimal` positionally in the radix the corpus defines,
    /// most significant digit first, one corpus character per digit.
    pub fn convert(&self, decimal: u128) -> (r: String)
        requires
            self.wf(),
        ensures
            r@ == convert_spec(self@, decimal as nat),
    {
        let ghost target = digits_of(decimal as nat, self@.len());
        let radix = self.corpus.as_str().unicode_len();
        let mut iter = BaseConvertIter::new(decimal, radix);
        let mut digits: Vec<usize> = Vec::new();
        loop
            invariant
                iter.wf(),
                iter.base_spec() == radix as nat,
                radix as nat == self@.len(),
                2 <= radix,
                digits@.map_values(|d: usize| d as nat) + iter.remaining() == target,
                target == digits_of(decimal as nat, self@.len()),
                forall|k: int| 0 <= k < digits@.len() ==> (digits@[k] as nat) < radix as nat,
            ensures
                digits@.map_values(|d: usize| d as nat) == target,
                forall|k: int| 0 <= k < digits@.len() ==> (digits@[k] as nat) < radix as nat,
            decreases iter.remaining().len(),
        {
            let ghost before = digits@;
            match iter.next() {
                Some(digit) => {
                    digits.push(digit);
                    proof {
                        assert(digits@.map_values(|d: usize| d as nat) =~= before.map_values(
                            |d: usize| d as nat,
                        ).push(digit as nat));
                        assert(digits@.map_values(|d: usize| d as nat) + iter.remaining()
                            =~= before.map_values(|d: usize| d as nat) + (seq![digit as nat]
                            + iter.remaining()));
                    }
                },
                None => {
                    proof {
                        assert(digits@.map_values(|d: usize| d as nat) + iter.remaining()
                            =~= digits@.map_values(|d: usize| d as nat));
                    }
                    break ;
                },
            }
        }
        let ghost result = convert_spec(self@, decimal as nat);
        let n = digits.len();
        let mut out = String::new();
        let mut i = n;
        proof {
            assert(result.len() == n);
        }
        while i > 0
            invariant
                i <= n,
                n == digits@.len(),
                self.wf(),
                digits@.map_values(|d: usize| d as nat) == target,
                target == digits_of(decimal as nat, self@.len()),
                result == convert_spec(self@, decimal as nat),
                result.len() == n,
                self@.len() <= usize::MAX,
                forall|k: int| 0 <= k < digits@.len() ==> (digits@[k] as nat) < self@.len(),
                out@ =~= result.subrange(0, n - i),
            decreases i,
        {
            i = i - 1;
            let digit = digits[i];
            let piece = self.corpus.as_str().substring_ascii(digit, digit + 1);
            out.append(piece);
            proof {
                assert(piece@ =~= seq![self@[digit as int]]);
                assert(result[n - 1 - i as int] == self@[
                    target.reverse()[n - 1 - i as int] as int
                ]);
                assert(target.reverse()[n - 1 - i as int] == target[i as int]);
                assert(out@ =~= result.subrange(0, n - i));
            }
        }
        proof {
            assert(out@ =~= result);
        }
        out
    }
}

} // verus!

