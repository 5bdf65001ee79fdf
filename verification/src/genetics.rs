use vstd::prelude::*;

verus! {

use crate::types::{DispatchError, DotLogoOvalPosition, DotLogoOvalPositionBoost, Gender, PetId};

/// Males have an even leading DNA byte, females an odd one.
pub open spec fn gender_of(dna: Seq<u8>) -> Gender {
    if dna[0] % 2 == 0 {
        Gender::Male
    } else {
        Gender::Female
    }
}

/// The oval position that a random byte selects.
pub open spec fn oval_of(b: u8) -> DotLogoOvalPosition {
    let r = b % 6;
    if r == 0 {
        DotLogoOvalPosition::Up
    } else if r == 1 {
        DotLogoOvalPosition::RightUp
    } else if r == 2 {
        DotLogoOvalPosition::LeftUp
    } else if r == 3 {
        DotLogoOvalPosition::RightDown
    } else if r == 4 {
        DotLogoOvalPosition::LeftDown
    } else {
        DotLogoOvalPosition::Down
    }
}

/// The DNA byte a child inherits: the first parent's for an even random byte, else the second's.
pub open spec fn inherited(fragment1: u8, fragment2: u8, random_value: u8) -> u8 {
    if random_value % 2 == 0 {
        fragment1
    } else {
        fragment2
    }
}

/// DNA of a child: each byte inherited from one parent, chosen by a random byte.
pub open spec fn mixed_dna(parent1: Seq<u8>, parent2: Seq<u8>, random: Seq<u8>) -> Seq<u8> {
    Seq::new(16, |i: int| inherited(parent1[i], parent2[i], random[i]))
}

/// The boost of each oval position drawn from a random hash: a value in `1..=6`.
pub open spec fn boost_of(hash: Seq<u8>) -> DotLogoOvalPositionBoost {
    DotLogoOvalPositionBoost {
        up: (hash[0] % 6 + 1) as u8,
        right_up: (hash[1] % 6 + 1) as u8,
        left_up: (hash[2] % 6 + 1) as u8,
        right_down: (hash[3] % 6 + 1) as u8,
        left_down: (hash[4] % 6 + 1) as u8,
        down: (hash[5] % 6 + 1) as u8,
    }
}

/// The boost that a table grants to an oval position.
pub open spec fn boost_for(boost: DotLogoOvalPositionBoost, position: DotLogoOvalPosition) -> u8 {
    match position {
        DotLogoOvalPosition::Up => boost.up,
        DotLogoOvalPosition::RightUp => boost.right_up,
        DotLogoOvalPosition::LeftUp => boost.left_up,
        DotLogoOvalPosition::RightDown => boost.right_down,
        DotLogoOvalPosition::LeftDown => boost.left_down,
        DotLogoOvalPosition::Down => boost.down,
    }
}

/// Takes a random hash as DNA and reads the gender from its leading byte.
pub fn dna_and_gender(hash: [u8; 16]) -> (r: ([u8; 16], Gender))
    ensures
        r.0 == hash,
        r.1 == gender_of(hash@),
{
    if hash[0] % 2 == 0 {
        (hash, Gender::Male)
    } else {
        (hash, Gender::Female)
    }
}

/// The oval position that a random hash selects by its leading byte.
pub fn oval_position_of(hash: &[u8; 16]) -> (r: DotLogoOvalPosition)
    ensures
        r == oval_of(hash@[0]),
{
    match hash[0] % 6 {
        0 => DotLogoOvalPosition::Up,
        1 => DotLogoOvalPosition::RightUp,
        2 => DotLogoOvalPosition::LeftUp,
        3 => DotLogoOvalPosition::RightDown,
        4 => DotLogoOvalPosition::LeftDown,
        _ => DotLogoOvalPosition::Down,
    }
}

/// One byte of a child's DNA.
pub fn mutate_dna_fragment(dna_fragment1: u8, dna_fragment2: u8, random_value: u8) -> (r: u8)
    ensures
        r == inherited(dna_fragment1, dna_fragment2, random_value),
{
    if random_value % 2 == 0 {
        dna_fragment1
    } else {
        dna_fragment2
    }
}

/// A child's DNA, byte by byte from the parents as a random DNA chooses.
pub fn mix_dna(parent1: &[u8; 16], parent2: &[u8; 16], random: [u8; 16]) -> (r: [u8; 16])
    ensures
        r@ == mixed_dna(parent1@, parent2@, random@),
{
    let mut new_dna = random;
    let mut i: usize = 0;
    while i < 16
        invariant
            0 <= i <= 16,
            forall|j: int| 0 <= j < i ==> new_dna@[j] == inherited(parent1@[j], parent2@[j], random@[j]),
            forall|j: int| i <= j < 16 ==> new_dna@[j] == random@[j],
        decreases 16 - i,
    {
        let fragment = mutate_dna_fragment(parent1[i], parent2[i], new_dna[i]);
        new_dna[i] = fragment;
        i = i + 1;
    }
    assert(new_dna@ =~= mixed_dna(parent1@, parent2@, random@));
    new_dna
}

/// The oval boost table drawn from a random hash.
pub fn boost_from_hash(hash: &[u8; 16]) -> (r: DotLogoOvalPositionBoost)
    ensures
        r == boost_of(hash@),
{
    DotLogoOvalPositionBoost {
        up: hash[0] % 6 + 1,
        right_up: hash[1] % 6 + 1,
        left_up: hash[2] % 6 + 1,
        right_down: hash[3] % 6 + 1,
        left_down: hash[4] % 6 + 1,
        down: hash[5] % 6 + 1,
    }
}

/// The boost a table grants to an oval position.
pub fn boost_value(boost: &DotLogoOvalPositionBoost, position: DotLogoOvalPosition) -> (r: u8)
    ensures
        r == boost_for(*boost, position),
{
    match position {
        DotLogoOvalPosition::Up => boost.up,
        DotLogoOvalPosition::RightUp => boost.right_up,
        DotLogoOvalPosition::LeftUp => boost.left_up,
        DotLogoOvalPosition::RightDown => boost.right_down,
        DotLogoOvalPosition::LeftDown => boost.left_down,
        DotLogoOvalPosition::Down => boost.down,
    }
}

/// `10` to the power `n`.
pub open spec fn pow10(n: nat) -> nat
    decreases n,
{
    if n == 0 {
        1
    } else {
        10 * pow10((n - 1) as nat)
    }
}

/// Decimal digits of `n`, least significant first; none for `0`.
pub open spec fn rev_digits(n: nat) -> Seq<u64>
    decreases n,
{
    if n == 0 {
        Seq::empty()
    } else {
        seq![(n % 10) as u64] + rev_digits(n / 10)
    }
}

/// Digit `idx` of a random death number: below `digits[idx] + 1` for the most significant one,
/// below `10` for the others.
pub open spec fn death_digit(hash: Seq<u8>, digits: Seq<u64>, idx: int) -> nat {
    if idx == digits.len() - 1 {
        ((hash[idx] as int) % (digits[idx] + 1)) as nat
    } else {
        ((hash[idx] as int) % 10) as nat
    }
}

/// Sum of the first `k` random digits, each at its decimal place.
pub open spec fn death_sum(hash: Seq<u8>, digits: Seq<u64>, k: nat) -> nat
    decreases k,
{
    if k == 0 {
        0
    } else {
        death_sum(hash, digits, (k - 1) as nat) + death_digit(hash, digits, k - 1) * pow10(
            (k - 1) as nat,
        )
    }
}

/// The random pet number drawn from a hash for a population of `count` pets.
pub open spec fn death_number_of(hash: Seq<u8>, count: u64) -> nat {
    let digits = rev_digits(count as nat);
    death_sum(hash, digits, digits.len())
}

proof fn lemma_rev_digits_len(n: nat, k: nat)
    requires
        n < pow10(k),
    ensures
        rev_digits(n).len() <= k,
        forall|i: int| 0 <= i < rev_digits(n).len() ==> rev_digits(n)[i] <= 9,
    decreases n,
{
    if n > 0 {
        assert(k > 0);
        lemma_rev_digits_len(n / 10, (k - 1) as nat);
    }
}

proof fn lemma_pow10_mono(a: nat, b: nat)
    requires
        a <= b,
    ensures
        pow10(a) <= pow10(b),
        pow10(a) >= 1,
    decreases b,
{
    if a < b {
        lemma_pow10_mono(a, (b - 1) as nat);
    } else if a > 0 {
        lemma_pow10_mono((a - 1) as nat, (a - 1) as nat);
    }
}

proof fn lemma_death_sum_bound(hash: Seq<u8>, digits: Seq<u64>, k: nat)
    requires
        k <= digits.len(),
        forall|i: int| 0 <= i < digits.len() ==> digits[i] <= 9,
    ensures
        death_sum(hash, digits, k) < pow10(k),
    decreases k,
{
    if k > 0 {
        lemma_death_sum_bound(hash, digits, (k - 1) as nat);
        let d = death_digit(hash, digits, k - 1);
        assert(d <= 9);
        assert(d * pow10((k - 1) as nat) <= 9 * pow10((k - 1) as nat)) by (nonlinear_arith)
            requires
                d <= 9,
        ;
    }
}

/// Decimal digits of `num`, least significant first.
pub fn generate_vec_reverse_digits_from_num(num: u64) -> (r: Result<Vec<u64>, DispatchError>)
    ensures
        r matches Ok(digits) && digits@ == rev_digits(num as nat),
{
    let mut digits = Vec::<u64>::new();
    let mut n = num;
    while n > 0
        invariant
            digits@ + rev_digits(n as nat) == rev_digits(num as nat),
        decreases n,
    {
        let ghost before = digits@;
        assert(rev_digits(n as nat) =~= seq![(n % 10) as u64] + rev_digits((n / 10) as nat));
        digits.push(n % 10);
        assert(before + rev_digits(n as nat) =~= digits@ + rev_digits((n / 10) as nat));
        n = n / 10;
    }
    assert(digits@ =~= digits@ + rev_digits(0));
    Ok(digits)
}

/// The random pet number drawn from a hash: a number with as many decimal digits as `count`,
/// whose most significant digit is at most that of `count`.
pub fn death_number_from_hash(hash: &[u8; 16], count: u64) -> (r: Result<PetId, DispatchError>)
    requires
        count < 10_000_000_000_000_000,
    ensures
        r matches Ok(n) && n == death_number_of(hash@, count),
{
    let count_in_vec_reverse = match generate_vec_reverse_digits_from_num(count) {
        Ok(d) => d,
        Err(e) => return Err(e),
    };
    proof {
        assert(pow10(16) == 10_000_000_000_000_000) by {
            reveal_with_fuel(pow10, 17);
        }
        lemma_rev_digits_len(count as nat, 16);
    }
    let ghost digits = count_in_vec_reverse@;
    let len = count_in_vec_reverse.len();
    let mut result: u64 = 0;
    let mut pow: u64 = 1;
    let mut idx: usize = 0;
    while idx < len
        invariant
            len == digits.len(),
            digits == count_in_vec_reverse@,
            len <= 16,
            forall|i: int| 0 <= i < digits.len() ==> digits[i] <= 9,
            0 <= idx <= len,
            idx < len ==> pow == pow10(idx as nat),
            result == death_sum(hash@, digits, idx as nat),
        decreases len - idx,
    {
        let ch = count_in_vec_reverse[idx];
        let ran_num: u64 = if idx == len - 1 {
            (hash[idx] as u64) % (ch + 1)
        } else {
            (hash[idx] as u64) % 10
        };
        proof {
            lemma_death_sum_bound(hash@, digits, (idx + 1) as nat);
            lemma_pow10_mono((idx + 1) as nat, 16);
            lemma_pow10_mono(idx as nat, 15);
            assert(pow10(15) == 1_000_000_000_000_000) by {
                reveal_with_fuel(pow10, 16);
            }
            assert(pow10((idx + 1) as nat) == 10 * pow10(idx as nat));
            assert(ran_num == death_digit(hash@, digits, idx as int));
            assert(ran_num * pow <= 9 * pow) by (nonlinear_arith)
                requires
                    ran_num <= 9,
            ;
            assert(death_sum(hash@, digits, (idx + 1) as nat) == result + ran_num * pow);
        }
        let term = ran_num * pow;
        result = result + term;
        if idx + 1 < len {
            pow = pow * 10;
        }
        idx = idx + 1;
        proof {
            if idx < len {
                assert(pow == pow10(idx as nat));
            }
        }
    }
    Ok(result)
}

} // verus!
