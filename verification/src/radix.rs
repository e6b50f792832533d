//! Least-significant-digit radix pass over 128 pseudo-random numbers.
//!
//! Each pass looks at one decimal digit. It counts how many entries have a
//! digit of at most `d`, for every `d`, and then writes each entry to the
//! slot just below that count. The counts are not decremented as entries are
//! placed, so all entries with the same digit land on one slot and the one
//! with the lowest index stays there; every other slot keeps what the
//! previous pass left in it.

use vstd::prelude::*;

verus! {

/// Number of entries in the array.
pub const ARRAY_LENGTH: usize = 128;

/// Entries are below this bound, so that every digit weight fits in `i32`.
pub const VALUE_BOUND: i32 = 1_000_000_000;

/// First state of the generator.
pub const SEED: u32 = 7525;

/// One step of the linear congruential generator, modulo 2^32.
pub open spec fn lcg_next(state: u32) -> u32 {
    ((state * 6253729 + 4396403) % 0x1_0000_0000) as u32
}

/// The generator's state after `steps` steps from `SEED`.
pub open spec fn lcg_state(steps: nat) -> u32
    decreases steps,
{
    if steps == 0 {
        SEED
    } else {
        lcg_next(lcg_state((steps - 1) as nat))
    }
}

/// The number that the generator emits in a given state.
pub open spec fn lcg_output(state: u32) -> i32 {
    (state % 32767) as i32
}

/// The 128 numbers that the generator emits after it has made `done` steps.
pub open spec fn generated(done: nat) -> Seq<i32> {
    Seq::new(128, |b: int| lcg_output(lcg_state((done + b + 1) as nat)))
}

/// Every entry is non-negative and below `VALUE_BOUND`.
pub open spec fn in_range(array: Seq<i32>) -> bool {
    forall|i: int| 0 <= i < array.len() ==> 0 <= #[trigger] array[i] < VALUE_BOUND
}

/// The largest of the first `n` entries, and -1 if all are smaller or `n` is 0.
pub open spec fn largest_of(array: Seq<i32>, n: nat) -> int
    decreases n,
{
    if n == 0 {
        -1
    } else {
        let rest = largest_of(array, (n - 1) as nat);
        if array[n - 1] > rest {
            array[n - 1] as int
        } else {
            rest
        }
    }
}

/// The decimal digit of `value` that has the weight `weight`.
pub open spec fn digit(value: int, weight: int) -> int {
    (value / weight) % 10
}

/// How many of the first `n` entries have the digit `d`.
pub open spec fn count_digit(array: Seq<i32>, weight: int, d: int, n: nat) -> int
    decreases n,
{
    if n == 0 {
        0
    } else {
        count_digit(array, weight, d, (n - 1) as nat) + if digit(array[n - 1] as int, weight)
            == d {
            1int
        } else {
            0int
        }
    }
}

/// How many of the first `n` entries have a digit of at most `d`.
pub open spec fn count_upto(array: Seq<i32>, weight: int, d: int, n: nat) -> int
    decreases n,
{
    if n == 0 {
        0
    } else {
        count_upto(array, weight, d, (n - 1) as nat) + if digit(array[n - 1] as int, weight)
            <= d {
            1int
        } else {
            0int
        }
    }
}

/// The slot that entry `j` is written to in the pass on `weight`.
pub open spec fn slot(array: Seq<i32>, weight: int, j: int) -> int {
    (count_upto(array, weight, digit(array[j] as int, weight), 128) - 1) % 128
}

/// The scratch array after entries 127 down to `from` were placed.
pub open spec fn scatter(array: Seq<i32>, scratch: Seq<i32>, weight: int, from: int) -> Seq<i32>
    decreases 128 - from,
{
    if from >= 128 {
        scratch
    } else {
        scatter(array, scratch, weight, from + 1).update(slot(array, weight, from), array[from])
    }
}

/// The array after the passes on `weight`, `10 * weight`, .. up to the last
/// weight that does not exceed `largest`.
pub open spec fn passes(array: Seq<i32>, scratch: Seq<i32>, weight: int, largest: int) -> Seq<i32>
    decreases (if weight <= largest { largest - weight + 1 } else { 0 }),
{
    if 1 <= weight <= largest {
        let next = scatter(array, scratch, weight, 0);
        passes(next, next, 10 * weight, largest)
    } else {
        array
    }
}

/// What the radix passes make of `array`.
pub open spec fn sorted(array: Seq<i32>) -> Seq<i32> {
    passes(array, Seq::new(128, |i: int| 0i32), 1, largest_of(array, 128))
}

/// The decimal digits of `n` in ASCII, most significant first.
pub open spec fn decimal(n: nat) -> Seq<u8>
    decreases n,
{
    if n < 10 {
        seq![(48 + n) as u8]
    } else {
        decimal(n / 10).push((48 + n % 10) as u8)
    }
}

/// The ASCII text `Loop `.
pub open spec fn text_loop() -> Seq<u8> {
    seq![0x4Cu8, 0x6F, 0x6F, 0x70, 0x20]
}

/// The ASCII text `, Index `.
pub open spec fn text_index() -> Seq<u8> {
    seq![0x2Cu8, 0x20, 0x49, 0x6E, 0x64, 0x65, 0x78, 0x20]
}

/// The ASCII text ` = `.
pub open spec fn text_equals() -> Seq<u8> {
    seq![0x20u8, 0x3D, 0x20]
}

/// Carriage return and line feed.
pub open spec fn text_end() -> Seq<u8> {
    seq![0x0Du8, 0x0A]
}

/// One line of the report: `Loop {pass}, Index {index} = {value}` and CRLF.
pub open spec fn report_line(pass: nat, index: nat, value: nat) -> Seq<u8> {
    text_loop() + decimal(pass) + text_index() + decimal(index) + text_equals() + decimal(value)
        + text_end()
}

/// The report lines of the first `n` entries of `array`.
pub open spec fn report_lines(pass: nat, array: Seq<i32>, n: nat) -> Seq<u8>
    decreases n,
{
    if n == 0 {
        Seq::empty()
    } else {
        report_lines(pass, array, (n - 1) as nat) + report_line(
            pass,
            (n - 1) as nat,
            array[n - 1] as nat,
        )
    }
}

/// The report of the passes from number `pass` on: 128 lines for each of
/// the first two passes, nothing for later ones.
pub open spec fn report_from(
    array: Seq<i32>,
    scratch: Seq<i32>,
    weight: int,
    largest: int,
    pass: nat,
) -> Seq<u8>
    decreases (if weight <= largest { largest - weight + 1 } else { 0 }),
{
    if 1 <= weight <= largest && pass <= 2 {
        let next = scatter(array, scratch, weight, 0);
        report_lines(pass, next, 128) + report_from(next, next, 10 * weight, largest, pass + 1)
    } else {
        Seq::empty()
    }
}

/// The report that sorting `array` gives.
pub open spec fn report(array: Seq<i32>) -> Seq<u8> {
    report_from(array, Seq::new(128, |i: int| 0i32), 1, largest_of(array, 128), 1)
}

/// 10 to the power `k`.
pub open spec fn pow10(k: nat) -> int
    decreases k,
{
    if k == 0 {
        1
    } else {
        10 * pow10((k - 1) as nat)
    }
}

/// Returns the largest entry of `array`, or -1 where every entry is below -1.
pub fn benchmark_radix_find_largest(array: [i32; ARRAY_LENGTH]) -> (largest: i32)
    ensures
        largest == largest_of(array@, 128),
        largest >= -1,
        forall|i: int| 0 <= i < 128 ==> array@[i] <= largest,
        largest == -1 || exists|i: int| 0 <= i < 128 && array@[i] == largest,
{
    let mut largest: i32 = -1;
    let mut i: usize = 0;
    while i < ARRAY_LENGTH
        invariant
            i <= 128,
            largest == largest_of(array@, i as nat),
            largest >= -1,
            forall|k: int| 0 <= k < i ==> array@[k] <= largest,
            largest == -1 || exists|k: int| 0 <= k < i && array@[k] == largest,
        decreases 128 - i,
    {
        if array[i] > largest {
            largest = array[i];
        }
        i += 1;
    }
    largest
}

/// Advances the generator by one step and returns the number it emits.
pub fn benchmark_radix_random(classic_random: &mut u32) -> (result: i32)
    ensures
        *final(classic_random) == lcg_next(*old(classic_random)),
        result == lcg_output(lcg_next(*old(classic_random))),
        0 <= result < 32767,
{
    *classic_random = (*classic_random).wrapping_mul(6253729).wrapping_add(4396403);
    (*classic_random % 32767) as i32
}

/// The first powers of ten.
proof fn lemma_pow10_values()
    ensures
        pow10(0) == 1,
        pow10(1) == 10,
        pow10(2) == 100,
        pow10(3) == 1_000,
        pow10(4) == 10_000,
        pow10(5) == 100_000,
        pow10(6) == 1_000_000,
        pow10(7) == 10_000_000,
        pow10(8) == 100_000_000,
        pow10(9) == 1_000_000_000,
{
    reveal_with_fuel(pow10, 11);
}

/// Every digit is one of 0 to 9.
proof fn lemma_digit_range(value: int, weight: int)
    ensures
        0 <= digit(value, weight) <= 9,
{
}

/// A positive weight divides into `largest` at least once exactly when it
/// does not exceed it.
pub proof fn lemma_quotient_positive(largest: int, weight: int)
    requires
        weight >= 1,
        largest >= 0,
    ensures
        (largest / weight > 0) <==> weight <= largest,
{
    assert((largest / weight > 0) <==> weight <= largest) by (nonlinear_arith)
        requires
            weight >= 1,
            largest >= 0,
    ;
}

/// The counts are between 0 and `n`, and the entries with the digit `d`
/// are those with a digit of at most `d` but not of at most `d - 1`.
proof fn lemma_counts(array: Seq<i32>, weight: int, d: int, n: nat)
    ensures
        0 <= count_digit(array, weight, d, n) <= count_upto(array, weight, d, n) <= n,
        count_upto(array, weight, d, n) == count_upto(array, weight, d - 1, n) + count_digit(
            array,
            weight,
            d,
            n,
        ),
        d < 0 ==> count_upto(array, weight, d, n) == 0,
    decreases n,
{
    if n > 0 {
        lemma_counts(array, weight, d, (n - 1) as nat);
        lemma_counts(array, weight, d - 1, (n - 1) as nat);
        lemma_digit_range(array[n - 1] as int, weight);
    }
}

/// An entry among the first `n` is counted under every digit from its own
/// upwards.
proof fn lemma_counted(array: Seq<i32>, weight: int, d: int, n: nat, j: int)
    requires
        0 <= j < n,
        digit(array[j] as int, weight) <= d,
    ensures
        1 <= count_upto(array, weight, d, n) <= n,
    decreases n,
{
    lemma_counts(array, weight, d, n);
    lemma_counts(array, weight, d, (n - 1) as nat);
    if j < n - 1 {
        lemma_counted(array, weight, d, (n - 1) as nat, j);
    }
}

/// Appends the decimal digits of `n` to `out`.
pub fn push_decimal(out: &mut Vec<u8>, n: u32)
    ensures
        final(out)@ == old(out)@ + decimal(n as nat),
    decreases n,
{
    if n >= 10 {
        push_decimal(out, n / 10);
    }
    out.push((48 + n % 10) as u8);
}

/// Appends the line `Loop {pass}, Index {index} = {value}` and CRLF to `out`.
pub fn push_report_line(out: &mut Vec<u8>, pass: u32, index: u32, value: u32)
    ensures
        final(out)@ == old(out)@ + report_line(pass as nat, index as nat, value as nat),
{
    out.push(0x4C);
    out.push(0x6F);
    out.push(0x6F);
    out.push(0x70);
    out.push(0x20);
    push_decimal(out, pass);
    out.push(0x2C);
    out.push(0x20);
    out.push(0x49);
    out.push(0x6E);
    out.push(0x64);
    out.push(0x65);
    out.push(0x78);
    out.push(0x20);
    push_decimal(out, index);
    out.push(0x20);
    out.push(0x3D);
    out.push(0x20);
    push_decimal(out, value);
    out.push(0x0D);
    out.push(0x0A);
}

/// Runs the radix passes over `array`, one for each decimal digit of its
/// largest entry. Returns the report of the first two passes if
/// `print_done` is set, and nothing otherwise.
pub fn benchmark_radix_sort(array: &mut [i32; ARRAY_LENGTH], print_done: bool) -> (values: Vec<u8>)
    requires
        in_range(old(array)@),
    ensures
        final(array)@ == sorted(old(array)@),
        in_range(final(array)@),
        print_done ==> values@ == report(old(array)@),
        !print_done ==> values@ == Seq::<u8>::empty(),
{
    let ghost input = array@;
    let mut semi_sorted: [i32; ARRAY_LENGTH] = [0; ARRAY_LENGTH];
    let mut significant_digit: i32 = 1;
    let largest: i32 = benchmark_radix_find_largest(*array);
    let mut values: Vec<u8> = Vec::new();
    let mut loops: i32 = 0;

    proof {
        lemma_pow10_values();
        assert(semi_sorted@ =~= Seq::new(128, |i: int| 0i32));
        lemma_quotient_positive(largest as int, significant_digit as int);
    }

    while largest / significant_digit > 0
        invariant
            0 <= loops <= 9,
            significant_digit == pow10(loops as nat),
            1 <= significant_digit <= VALUE_BOUND,
            0 <= largest < VALUE_BOUND,
            in_range(array@),
            in_range(semi_sorted@),
            (largest / significant_digit > 0) <==> significant_digit <= largest,
            passes(array@, semi_sorted@, significant_digit as int, largest as int) == sorted(input),
            print_done ==> values@ + report_from(
                array@,
                semi_sorted@,
                significant_digit as int,
                largest as int,
                (loops + 1) as nat,
            ) == report(input),
            !print_done ==> values@ == Seq::<u8>::empty(),
        decreases VALUE_BOUND - significant_digit,
    {
        let ghost before = array@;
        let ghost scratch = semi_sorted@;
        let ghost weight = significant_digit as int;
        let ghost printed = values@;
        proof {
            lemma_pow10_values();
        }
        loops += 1;

        let mut bucket: [i32; 10] = [0; 10];
        let mut i: usize = 0;
        while i < ARRAY_LENGTH
            invariant
                i <= 128,
                array@ == before,
                in_range(before),
                weight == significant_digit,
                1 <= weight,
                forall|d: int| 0 <= d < 10 ==> bucket@[d] == count_digit(before, weight, d, i as nat),
            decreases 128 - i,
        {
            let d: usize = ((array[i] / significant_digit) % 10) as usize;
            proof {
                lemma_digit_range(before[i as int] as int, weight);
                lemma_counts(before, weight, d as int, i as nat);
            }
            bucket[d] = bucket[d] + 1;
            i += 1;
        }

        i = 1;
        proof {
            lemma_counts(before, weight, 0, 128);
            lemma_counts(before, weight, -1, 128);
        }
        while i < 10
            invariant
                1 <= i <= 10,
                forall|d: int| 0 <= d < i ==> bucket@[d] == count_upto(before, weight, d, 128),
                forall|d: int| i <= d < 10 ==> bucket@[d] == count_digit(before, weight, d, 128),
            decreases 10 - i,
        {
            proof {
                lemma_counts(before, weight, i as int, 128);
            }
            bucket[i] = bucket[i] + bucket[i - 1];
            i += 1;
        }

        let mut j_int: i32 = (ARRAY_LENGTH - 1) as i32;
        while j_int >= 0
            invariant
                -1 <= j_int <= 127,
                array@ == before,
                in_range(before),
                in_range(semi_sorted@),
                weight == significant_digit,
                1 <= weight,
                forall|d: int| 0 <= d < 10 ==> bucket@[d] == count_upto(before, weight, d, 128),
                semi_sorted@ == scatter(before, scratch, weight, j_int + 1),
            decreases j_int + 1,
        {
            let j: usize = j_int as usize;
            let bucket_index: usize = ((array[j] / significant_digit) as usize) % 10;
            proof {
                lemma_digit_range(before[j as int] as int, weight);
                lemma_counted(before, weight, bucket_index as int, 128, j as int);
            }
            let semi_sorted_index: usize = (bucket[bucket_index] as usize - 1) % ARRAY_LENGTH;
            semi_sorted[semi_sorted_index] = array[j];
            j_int -= 1;
        }
        let ghost next = semi_sorted@;

        let ghost shown = print_done && loops <= 2;
        i = 0;
        while i < ARRAY_LENGTH
            invariant
                i <= 128,
                1 <= loops <= 9,
                shown == (print_done && loops <= 2),
                semi_sorted@ == next,
                in_range(next),
                in_range(array@),
                forall|k: int| 0 <= k < i ==> array@[k] == next[k],
                shown ==> values@ == printed + report_lines(loops as nat, next, i as nat),
                !shown ==> values@ == printed,
            decreases 128 - i,
        {
            array[i] = semi_sorted[i];
            if print_done && loops <= 2 {
                push_report_line(&mut values, loops as u32, i as u32, array[i] as u32);
            }
            i += 1;
        }

        proof {
            assert(array@ =~= next);
            assert(passes(before, scratch, weight, largest as int) == passes(
                next,
                next,
                10 * weight,
                largest as int,
            ));
            if print_done {
                if loops <= 2 {
                    assert(report_from(before, scratch, weight, largest as int, loops as nat)
                        == report_lines(loops as nat, next, 128) + report_from(
                        next,
                        next,
                        10 * weight,
                        largest as int,
                        (loops + 1) as nat,
                    ));
                    assert(values@ + report_from(
                        next,
                        next,
                        10 * weight,
                        largest as int,
                        (loops + 1) as nat,
                    ) =~= printed + report_from(
                        before,
                        scratch,
                        weight,
                        largest as int,
                        loops as nat,
                    ));
                } else {
                    assert(report_from(before, scratch, weight, largest as int, loops as nat)
                        =~= Seq::<u8>::empty());
                    assert(report_from(
                        next,
                        next,
                        10 * weight,
                        largest as int,
                        (loops + 1) as nat,
                    ) =~= Seq::<u8>::empty());
                }
            }
        }

        significant_digit = significant_digit * 10;
        proof {
            lemma_quotient_positive(largest as int, significant_digit as int);
        }
    }

    values
}

/// Fills the array from the generator and sorts it, `iterations` times.
/// Returns the head of the array after the last round, together with the
/// report of the first round.
pub fn benchmark_radix_main(iterations: u32) -> (out: (i32, Vec<u8>))
    ensures
        iterations == 0 ==> out.0 == 0 && out.1@ == Seq::<u8>::empty(),
        iterations > 0 ==> out.0 == sorted(generated((128 * (iterations - 1)) as nat))[0],
        iterations > 0 ==> out.1@ == report(generated(0)),
{
    let mut classic_random: u32 = SEED;
    let mut array: [i32; ARRAY_LENGTH] = [0; ARRAY_LENGTH];
    let mut written: Vec<u8> = Vec::new();

    let mut a: u32 = 0;
    while a < iterations
        invariant
            a <= iterations,
            classic_random == lcg_state((128 * a) as nat),
            a == 0 ==> array@[0] == 0 && written@ == Seq::<u8>::empty(),
            a > 0 ==> array@ == sorted(generated((128 * (a - 1)) as nat)),
            a > 0 ==> written@ == report(generated(0)),
        decreases iterations - a,
    {
        let mut b: usize = 0;
        while b < ARRAY_LENGTH
            invariant
                b <= 128,
                classic_random == lcg_state((128 * a + b) as nat),
                forall|k: int|
                    0 <= k < b ==> array@[k] == lcg_output(lcg_state((128 * a + k + 1) as nat)),
            decreases 128 - b,
        {
            array[b] = benchmark_radix_random(&mut classic_random);
            b += 1;
        }
        proof {
            assert(array@ =~= generated((128 * a) as nat));
        }

        let values: Vec<u8> = benchmark_radix_sort(&mut array, a == 0);
        if a == 0 {
            written = values;
        }
        a += 1;
    }

    (array[0], written)
}

/// The radix benchmark: the head of the array after `iterations` rounds of
/// filling and sorting.
pub fn benchmark_radix(iterations: u32) -> (result: i32)
    ensures
        iterations == 0 ==> result == 0,
        iterations > 0 ==> result == sorted(generated((128 * (iterations - 1)) as nat))[0],
{
    benchmark_radix_main(iterations).0
}

/// The first entry from `from` on that the pass on `weight` writes to slot
/// `k`, or 128 if there is none.
pub open spec fn first_writer(array: Seq<i32>, weight: int, k: int, from: int) -> int
    decreases 128 - from,
{
    if from >= 128 {
        128
    } else if slot(array, weight, from) == k {
        from
    } else {
        first_writer(array, weight, k, from + 1)
    }
}

/// A pass leaves in each slot the entry with the lowest index among those
/// written to it, and what the slot held before if nothing is written to it.
pub proof fn lemma_scatter_keeps_first(
    array: Seq<i32>,
    scratch: Seq<i32>,
    weight: int,
    from: int,
    k: int,
)
    requires
        scratch.len() == 128,
        0 <= from <= 128,
        0 <= k < 128,
    ensures
        scatter(array, scratch, weight, from).len() == 128,
        from <= first_writer(array, weight, k, from) <= 128,
        first_writer(array, weight, k, from) < 128 ==> scatter(array, scratch, weight, from)[k]
            == array[first_writer(array, weight, k, from)],
        first_writer(array, weight, k, from) == 128 ==> scatter(array, scratch, weight, from)[k]
            == scratch[k],
    decreases 128 - from,
{
    if from < 128 {
        lemma_scatter_keeps_first(array, scratch, weight, from + 1, k);
    }
}

/// Between 1 and 128 entries are counted under an entry's own digit, so the
/// reduction modulo 128 leaves the slot as it is: the count less one.
pub proof fn lemma_slot_is_count(array: Seq<i32>, weight: int, j: int)
    requires
        0 <= j < 128,
    ensures
        0 <= slot(array, weight, j) < 128,
        slot(array, weight, j) == count_upto(
            array,
            weight,
            digit(array[j] as int, weight),
            128,
        ) - 1,
{
    lemma_counted(array, weight, digit(array[j] as int, weight), 128, j);
}

/// The generator's numbers are non-negative and below 32767, so every
/// generated array can be sorted.
pub proof fn lemma_generated_in_range(done: nat)
    ensures
        generated(done).len() == 128,
        in_range(generated(done)),
        forall|b: int| 0 <= b < 128 ==> 0 <= #[trigger] generated(done)[b] < 32767,
{
}

} // verus!
