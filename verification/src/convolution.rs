//! Direct linear convolution of a signal with an impulse response, and the
//! quantization of its sums to 16-bit samples.
//!
//! Input samples are whole numbers; response samples are fixed-point numbers
//! in units of `1 / ONE`. Sums are kept exact and divided by `ONE` at the end.

use vstd::prelude::*;
use crate::error::RenderError;
use crate::fixed::{div_toward_zero, lemma_trunc_div_multiple, trunc_div, ONE};
use crate::response::delayed;

verus! {

/// The largest magnitude of a product of an input sample and a response
/// sample.
pub const TERM_LIMIT: i128 = 0x4000_0000_0000;

/// What the input sample at `k` adds to the sum at `n`: its product with the
/// response sample `n - k` places later, where there is one.
pub open spec fn term(input: Seq<i16>, response: Seq<i32>, n: int, k: int) -> int {
    if 0 <= k < input.len() && 0 <= n - k < response.len() {
        input[k] * response[n - k]
    } else {
        0
    }
}

/// The sum of the terms at `n` of the first `count` input samples.
pub open spec fn partial_sum(input: Seq<i16>, response: Seq<i32>, n: int, count: nat) -> int
    decreases count,
{
    if count == 0 {
        0
    } else {
        partial_sum(input, response, n, (count - 1) as nat) + term(input, response, n, count - 1)
    }
}

/// The convolution sum at `n`: the sum over every `k` of
/// `input[k] * response[n - k]`.
pub open spec fn sum_at(input: Seq<i16>, response: Seq<i32>, n: int) -> int {
    partial_sum(input, response, n, input.len())
}

/// The 16-bit sample for an exact sum: the sum divided by `ONE`, rounded
/// toward zero, and held to the range of `i16`.
pub open spec fn quantized(sum: int) -> int {
    let whole = trunc_div(sum, ONE as int);
    if whole < i16::MIN {
        i16::MIN as int
    } else if whole > i16::MAX {
        i16::MAX as int
    } else {
        whole
    }
}

/// The first `length` samples of the convolution of `input` with `response`.
/// Past the end of the convolution proper the sums are empty, so the samples
/// there are zero.
pub open spec fn channel(input: Seq<i16>, response: Seq<i32>, length: nat) -> Seq<i16> {
    Seq::new(length, |n: int| quantized(sum_at(input, response, n)) as i16)
}

/// The convolution of `input` with `response`, over its whole support.
pub open spec fn convolved(input: Seq<i16>, response: Seq<i32>) -> Seq<i16> {
    channel(input, response, (input.len() + response.len() - 1) as nat)
}

/// The larger of two lengths.
pub open spec fn longer(a: nat, b: nat) -> nat {
    if a >= b {
        a
    } else {
        b
    }
}

/// What rendering `input` through the two responses comes to: both channels
/// at one shared length, or `EmptyInput` when any of the three is empty.
pub open spec fn rendered(input: Seq<i16>, left: Seq<i32>, right: Seq<i32>) -> Result<
    (Seq<i16>, Seq<i16>),
    RenderError,
> {
    if input.len() == 0 || left.len() == 0 || right.len() == 0 {
        Err(RenderError::EmptyInput)
    } else {
        let length = input.len() + longer(left.len(), right.len());
        Ok((channel(input, left, length), channel(input, right, length)))
    }
}

/// The pair of vectors in `result` holds the pair of sequences in `expected`,
/// or both hold the same error.
pub open spec fn channels_are(
    result: Result<(Vec<i16>, Vec<i16>), RenderError>,
    expected: Result<(Seq<i16>, Seq<i16>), RenderError>,
) -> bool {
    match expected {
        Ok(pair) => result matches Ok(channels) && channels.0@ == pair.0 && channels.1@ == pair.1,
        Err(error) => result matches Err(found) && found == error,
    }
}

/// What is already added to the sum at `n` while the input sample at `j` is
/// being spread: its products with the first `done` response samples.
spec fn pending(input: Seq<i16>, response: Seq<i32>, n: int, j: int, done: int) -> int {
    if j <= n < j + done {
        input[j] * response[n - j]
    } else {
        0
    }
}

/// No term exceeds `TERM_LIMIT` in magnitude.
pub proof fn lemma_term_bound(input: Seq<i16>, response: Seq<i32>, n: int, k: int)
    ensures
        -TERM_LIMIT <= term(input, response, n, k) <= TERM_LIMIT,
{
    if 0 <= k < input.len() && 0 <= n - k < response.len() {
        let a = input[k] as int;
        let b = response[n - k] as int;
        assert(-0x4000_0000_0000 <= a * b <= 0x4000_0000_0000) by (nonlinear_arith)
            requires
                -0x8000 <= a <= 0x8000,
                -0x8000_0000 <= b <= 0x8000_0000,
        ;
    }
}

/// A sum of `count` terms stays within `count` times `TERM_LIMIT`.
pub proof fn lemma_partial_sum_bound(input: Seq<i16>, response: Seq<i32>, n: int, count: nat)
    ensures
        -(count * TERM_LIMIT) <= partial_sum(input, response, n, count) <= count * TERM_LIMIT,
    decreases count,
{
    if count > 0 {
        lemma_partial_sum_bound(input, response, n, (count - 1) as nat);
        lemma_term_bound(input, response, n, count - 1);
    }
}

/// A sum whose terms all vanish is zero.
pub proof fn lemma_partial_sum_of_zeros(input: Seq<i16>, response: Seq<i32>, n: int, count: nat)
    requires
        forall|k: int| 0 <= k < count ==> term(input, response, n, k) == 0,
    ensures
        partial_sum(input, response, n, count) == 0,
    decreases count,
{
    if count > 0 {
        lemma_partial_sum_of_zeros(input, response, n, (count - 1) as nat);
    }
}

/// `length` samples of silence.
pub open spec fn silence(length: nat) -> Seq<i16> {
    Seq::new(length, |n: int| 0i16)
}

/// Every sample of `input` is zero.
pub open spec fn is_silent(input: Seq<i16>) -> bool {
    forall|k: int| 0 <= k < input.len() ==> #[trigger] input[k] == 0
}

/// Past the end of the convolution proper every sum is empty: no input
/// sample reaches that far.
pub proof fn lemma_zero_past_support(input: Seq<i16>, response: Seq<i32>, n: int)
    requires
        n >= input.len() + response.len() - 1,
    ensures
        sum_at(input, response, n) == 0,
        quantized(sum_at(input, response, n)) == 0,
{
    lemma_partial_sum_of_zeros(input, response, n, input.len());
}

/// A silent input gives silence in one channel, whatever the response and
/// however many samples are asked for.
pub proof fn lemma_silent_channel(input: Seq<i16>, response: Seq<i32>, length: nat)
    requires
        is_silent(input),
    ensures
        channel(input, response, length) == silence(length),
{
    assert forall|n: int| 0 <= n < length implies quantized(sum_at(input, response, n))
        == 0 by {
        assert forall|k: int| 0 <= k < input.len() implies term(input, response, n, k) == 0 by {
            assert(input[k] == 0);
        }
        lemma_partial_sum_of_zeros(input, response, n, input.len());
    }
    assert(channel(input, response, length) =~= silence(length));
}

/// Silence in, silence out: a silent input rendered through any two
/// responses that are not empty gives two silent channels of the shared
/// length, the input's and the longer response's together.
pub proof fn lemma_silence_renders_silence(input: Seq<i16>, left: Seq<i32>, right: Seq<i32>)
    requires
        input.len() > 0,
        left.len() > 0,
        right.len() > 0,
        is_silent(input),
    ensures
        rendered(input, left, right) == Ok::<(Seq<i16>, Seq<i16>), RenderError>(
            (
                silence(input.len() + longer(left.len(), right.len())),
                silence(input.len() + longer(left.len(), right.len())),
            ),
        ),
{
    let length = input.len() + longer(left.len(), right.len());
    lemma_silent_channel(input, left, length);
    lemma_silent_channel(input, right, length);
}

/// A channel of the shared length is the convolution proper followed by
/// silence.
pub proof fn lemma_channel_is_padded_convolution(
    input: Seq<i16>,
    response: Seq<i32>,
    length: nat,
)
    requires
        input.len() > 0,
        response.len() > 0,
        length >= input.len() + response.len() - 1,
    ensures
        channel(input, response, length) == convolved(input, response) + silence(
            (length - (input.len() + response.len() - 1)) as nat,
        ),
{
    let support = input.len() + response.len() - 1;
    assert forall|n: int| support <= n < length implies quantized(sum_at(input, response, n))
        == 0 by {
        lemma_zero_past_support(input, response, n);
    }
    assert(channel(input, response, length) =~= convolved(input, response) + silence(
        (length - support) as nat,
    ));
}

/// The sum at `n` for a response of the single sample `weight`: only the
/// input sample at `n` itself contributes.
proof fn lemma_single_weight_sum(input: Seq<i16>, weight: i32, n: int, count: nat)
    requires
        0 <= n < input.len(),
        count <= input.len(),
    ensures
        partial_sum(input, seq![weight], n, count) == if n < count {
            input[n] * weight
        } else {
            0
        },
    decreases count,
{
    if count > 0 {
        lemma_single_weight_sum(input, weight, n, (count - 1) as nat);
    }
}

/// Convolving with the unit impulse changes nothing: the response that holds
/// the single sample `ONE` gives the input back.
pub proof fn lemma_unit_impulse_is_identity(input: Seq<i16>)
    requires
        input.len() > 0,
    ensures
        convolved(input, seq![ONE as i32]) == input,
{
    let response = seq![ONE as i32];
    assert(response.len() == 1);
    assert forall|n: int| 0 <= n < input.len() implies quantized(sum_at(input, response, n))
        == input[n] by {
        lemma_single_weight_sum(input, ONE as i32, n, input.len());
        lemma_trunc_div_multiple(input[n] as int, ONE as int);
    }
    assert(convolved(input, response) =~= input);
}

/// A term against a delayed response is the term against the response
/// itself, as many places earlier as the delay is long.
proof fn lemma_delayed_term(input: Seq<i16>, response: Seq<i32>, delay: nat, n: int, k: int)
    ensures
        term(input, delayed(response, delay), n, k) == term(input, response, n - delay, k),
{
    let late = delayed(response, delay);
    assert(late.len() == delay + response.len());
    if 0 <= k < input.len() && 0 <= n - k < late.len() {
        if n - k < delay {
            assert(late[n - k] == 0);
        } else {
            assert(late[n - k] == response[n - k - delay]);
        }
    }
}

/// Sums against a delayed response are the sums against the response itself,
/// as many places earlier as the delay is long.
proof fn lemma_delayed_partial_sum(
    input: Seq<i16>,
    response: Seq<i32>,
    delay: nat,
    n: int,
    count: nat,
)
    ensures
        partial_sum(input, delayed(response, delay), n, count) == partial_sum(
            input,
            response,
            n - delay,
            count,
        ),
    decreases count,
{
    if count > 0 {
        lemma_delayed_partial_sum(input, response, delay, n, (count - 1) as nat);
        lemma_delayed_term(input, response, delay, n, count - 1);
    }
}

/// An onset delay is heard as leading silence: convolving with a response
/// that is delayed by some samples gives that many zero samples, and then
/// the convolution with the response itself.
pub proof fn lemma_delay_shifts_output(input: Seq<i16>, response: Seq<i32>, delay: nat)
    requires
        input.len() > 0,
        response.len() > 0,
    ensures
        convolved(input, delayed(response, delay)) == silence(delay) + convolved(input, response),
{
    let late = delayed(response, delay);
    let shifted = silence(delay) + convolved(input, response);
    assert(late.len() == delay + response.len());
    assert(convolved(input, late).len() == shifted.len());
    assert forall|n: int| 0 <= n < shifted.len() implies convolved(input, late)[n]
        == shifted[n] by {
        lemma_delayed_partial_sum(input, response, delay, n, input.len());
        if n < delay {
            lemma_partial_sum_of_zeros(input, response, n - delay, input.len());
        }
    }
    assert(convolved(input, late) =~= shifted);
}

/// Brings an exact sum to a 16-bit sample: divides by `ONE`, drops the
/// fraction, and holds the result to the range of `i16`.
pub fn quantize(sum: i128) -> (sample: i16)
    ensures
        sample == quantized(sum as int),
{
    let whole: i128 = div_toward_zero(sum, ONE as i128);
    if whole < -32768 {
        -32768
    } else if whole > 32767 {
        32767
    } else {
        whole as i16
    }
}

/// The exact convolution sums at the first `length` places. Each input
/// sample is spread over the places that it reaches, one response sample at
/// a time.
fn accumulate(input: &Vec<i16>, response: &Vec<i32>, length: usize) -> (sums: Vec<i128>)
    requires
        input@.len() > 0,
        response@.len() > 0,
        length >= input@.len() + response@.len() - 1,
    ensures
        sums@.len() == length,
        forall|n: int| 0 <= n < length ==> #[trigger] sums@[n] == sum_at(input@, response@, n),
{
    let mut sums: Vec<i128> = Vec::with_capacity(length);
    let mut filled: usize = 0;
    while filled < length
        invariant
            filled <= length,
            sums@.len() == filled,
            forall|n: int| 0 <= n < filled ==> #[trigger] sums@[n] == 0,
        decreases length - filled,
    {
        sums.push(0);
        filled += 1;
    }
    let mut j: usize = 0;
    while j < input.len()
        invariant
            j <= input@.len(),
            response@.len() > 0,
            length >= input@.len() + response@.len() - 1,
            sums@.len() == length,
            forall|n: int|
                0 <= n < length ==> #[trigger] sums@[n] == partial_sum(
                    input@,
                    response@,
                    n,
                    j as nat,
                ),
        decreases input@.len() - j,
    {
        let mut k: usize = 0;
        while k < response.len()
            invariant
                j < input@.len(),
                k <= response@.len(),
                length >= input@.len() + response@.len() - 1,
                sums@.len() == length,
                forall|n: int|
                    0 <= n < length ==> #[trigger] sums@[n] == partial_sum(
                        input@,
                        response@,
                        n,
                        j as nat,
                    ) + pending(input@, response@, n, j as int, k as int),
            decreases response@.len() - k,
        {
            let place: usize = j + k;
            let before: i128 = sums[place];
            let sample: i128 = input[j] as i128;
            let weight: i128 = response[k] as i128;
            proof {
                lemma_partial_sum_bound(input@, response@, place as int, j as nat);
                lemma_term_bound(input@, response@, place as int, j as int);
                assert(term(input@, response@, place as int, j as int) == sample * weight);
                assert(before == partial_sum(input@, response@, place as int, j as nat));
            }
            sums.set(place, before + sample * weight);
            k += 1;
        }
        proof {
            assert forall|n: int| 0 <= n < length implies #[trigger] sums@[n] == partial_sum(
                input@,
                response@,
                n,
                (j + 1) as nat,
            ) by {
                assert(pending(input@, response@, n, j as int, k as int) == term(
                    input@,
                    response@,
                    n,
                    j as int,
                ));
            }
        }
        j += 1;
    }
    sums
}

/// The first `length` samples of the convolution, quantized.
fn convolve_to(input: &Vec<i16>, response: &Vec<i32>, length: usize) -> (output: Vec<i16>)
    requires
        input@.len() > 0,
        response@.len() > 0,
        length >= input@.len() + response@.len() - 1,
    ensures
        output@ == channel(input@, response@, length as nat),
{
    let sums: Vec<i128> = accumulate(input, response, length);
    let mut output: Vec<i16> = Vec::with_capacity(length);
    let mut n: usize = 0;
    while n < length
        invariant
            n <= length,
            sums@.len() == length,
            output@.len() == n,
            forall|m: int| 0 <= m < length ==> #[trigger] sums@[m] == sum_at(input@, response@, m),
            forall|m: int|
                0 <= m < n ==> #[trigger] output@[m] == quantized(sum_at(input@, response@, m)),
        decreases length - n,
    {
        output.push(quantize(sums[n]));
        n += 1;
    }
    assert(output@ =~= channel(input@, response@, length as nat));
    output
}

/// Convolves `input` with one ear's `response`:
/// `output[n]` is the sum over `k` of `input[k] * response[n - k]`, brought
/// to a 16-bit sample. The output is one sample shorter than the two lengths
/// together. An empty input or response is refused as `EmptyInput`.
pub fn convolve(input: &Vec<i16>, response: &Vec<i32>) -> (result: Result<Vec<i16>, RenderError>)
    requires
        input@.len() + response@.len() <= usize::MAX,
    ensures
        (input@.len() == 0 || response@.len() == 0) ==> result == Err::<Vec<i16>, RenderError>(
            RenderError::EmptyInput,
        ),
        (input@.len() > 0 && response@.len() > 0) ==> (result matches Ok(output) && output@
            == convolved(input@, response@) && output@.len() == input@.len() + response@.len()
            - 1),
{
    if input.len() == 0 || response.len() == 0 {
        return Err(RenderError::EmptyInput);
    }
    let length: usize = input.len() + (response.len() - 1);
    Ok(convolve_to(input, response, length))
}

/// Renders `input` through the responses of the two ears, left first. Both
/// channels have the length of the input and the longer response together;
/// each holds its own convolution, and zeros from where that ends. If the
/// input or a response is empty the render is refused as `EmptyInput`, and it
/// fails in no other way.
pub fn virtualize(input: &Vec<i16>, left: &Vec<i32>, right: &Vec<i32>) -> (result: Result<
    (Vec<i16>, Vec<i16>),
    RenderError,
>)
    requires
        input@.len() + left@.len() <= usize::MAX,
        input@.len() + right@.len() <= usize::MAX,
    ensures
        channels_are(result, rendered(input@, left@, right@)),
        result matches Ok(channels) ==> channels.0@.len() == channels.1@.len() && channels.0@.len()
            == input@.len() + longer(left@.len(), right@.len()),
{
    if input.len() == 0 || left.len() == 0 || right.len() == 0 {
        return Err(RenderError::EmptyInput);
    }
    let longest: usize = if left.len() >= right.len() {
        left.len()
    } else {
        right.len()
    };
    let length: usize = input.len() + longest;
    let left_channel: Vec<i16> = convolve_to(input, left, length);
    let right_channel: Vec<i16> = convolve_to(input, right, length);
    Ok((left_channel, right_channel))
}

} // verus!
