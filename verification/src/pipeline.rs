//! The whole render: from a wanted source position and a dataset to the two
//! output channels, and their interleaving into frames.

use vstd::prelude::*;
use crate::convolution::{
    channels_are,
    is_silent,
    lemma_silence_renders_silence,
    longer,
    rendered,
    silence,
    virtualize,
};
use crate::error::RenderError;
use crate::geometry::{to_cartesian, CartesianVector, SphericalPosition};
use crate::response::{build, built, responses_are, Measurement};
use crate::selector::{lemma_nearest_exists, nearest_index, select, selection};

verus! {

/// The positions of the measurements, in their order.
pub open spec fn positions_of(measurements: Seq<Measurement>) -> Seq<CartesianVector> {
    Seq::new(measurements.len(), |i: int| measurements[i].position)
}

/// What looking up the responses for `source` comes to: the delayed
/// responses of the measurement nearest to it, or the error of the selection
/// or of the building.
pub open spec fn located(
    source: SphericalPosition,
    measurements: Seq<Measurement>,
    listener: CartesianVector,
) -> Result<(Seq<i32>, Seq<i32>), RenderError> {
    match selection(source.cartesian(), positions_of(measurements), listener) {
        Err(error) => Err(error),
        Ok(index) => built(measurements[index as int]),
    }
}

/// What a whole render comes to: the input convolved with the responses
/// found for `source`, or the first error on the way.
pub open spec fn render_outcome(
    input: Seq<i16>,
    source: SphericalPosition,
    measurements: Seq<Measurement>,
    listener: CartesianVector,
) -> Result<(Seq<i16>, Seq<i16>), RenderError> {
    match located(source, measurements, listener) {
        Err(error) => Err(error),
        Ok(responses) => rendered(input, responses.0, responses.1),
    }
}

/// Two channels of one length as frames: left sample, right sample, and so
/// on.
pub open spec fn interleaved(left: Seq<i16>, right: Seq<i16>) -> Seq<i16> {
    Seq::new(
        2 * left.len(),
        |i: int|
            if i % 2 == 0 {
                left[i / 2]
            } else {
                right[i / 2]
            },
    )
}

/// Copies the positions out of the measurements.
fn collect_positions(measurements: &Vec<Measurement>) -> (positions: Vec<CartesianVector>)
    ensures
        positions@ == positions_of(measurements@),
{
    let mut positions: Vec<CartesianVector> = Vec::with_capacity(measurements.len());
    let mut i: usize = 0;
    while i < measurements.len()
        invariant
            i <= measurements@.len(),
            positions@.len() == i,
            forall|j: int| 0 <= j < i ==> #[trigger] positions@[j] == measurements@[j].position,
        decreases measurements@.len() - i,
    {
        positions.push(measurements[i].position);
        i += 1;
    }
    assert(positions@ =~= positions_of(measurements@));
    positions
}

/// Finds the impulse responses for a source at `source`, a position relative
/// to the listener: converts it to cartesian coordinates, selects the nearest
/// measurement, its position taken relative to `listener`, and builds that
/// measurement's two delayed responses.
pub fn responses_for(
    source: &SphericalPosition,
    measurements: &Vec<Measurement>,
    listener: &CartesianVector,
) -> (result: Result<(Vec<i32>, Vec<i32>), RenderError>)
    requires
        forall|i: int| 0 <= i < measurements@.len() ==> (#[trigger] measurements@[i]).fits(),
    ensures
        responses_are(result, located(*source, measurements@, *listener)),
{
    let target: CartesianVector = to_cartesian(source);
    let positions: Vec<CartesianVector> = collect_positions(measurements);
    match select(&target, &positions, listener) {
        Err(error) => Err(error),
        Ok(index) => build(&measurements[index]),
    }
}

/// Renders `input` as heard from `source`: looks up the responses as
/// `responses_for` does and convolves the input with each. Errors of the
/// lookup come before `EmptyInput`.
pub fn render(
    input: &Vec<i16>,
    source: &SphericalPosition,
    measurements: &Vec<Measurement>,
    listener: &CartesianVector,
) -> (result: Result<(Vec<i16>, Vec<i16>), RenderError>)
    requires
        forall|i: int|
            0 <= i < measurements@.len() ==> (#[trigger] measurements@[i]).fits_with(
                input@.len(),
            ),
    ensures
        channels_are(result, render_outcome(input@, *source, measurements@, *listener)),
{
    assert forall|i: int| 0 <= i < measurements@.len() implies (#[trigger] measurements@[i]).fits() by {
        assert(measurements@[i].fits_with(input@.len()));
    }
    match responses_for(source, measurements, listener) {
        Err(error) => Err(error),
        Ok(responses) => {
            proof {
                let positions = positions_of(measurements@);
                lemma_nearest_exists(source.cartesian(), positions, *listener);
                let index = nearest_index(source.cartesian(), positions, *listener);
                assert(measurements@[index].fits_with(input@.len()));
            }
            virtualize(input, &responses.0, &responses.1)
        },
    }
}

/// Puts two channels together frame by frame: left sample, right sample.
/// Channels of different lengths are refused as `LengthMismatch`.
pub fn interleave(left: &Vec<i16>, right: &Vec<i16>) -> (result: Result<Vec<i16>, RenderError>)
    requires
        2 * left@.len() <= usize::MAX,
    ensures
        left@.len() != right@.len() ==> result == Err::<Vec<i16>, RenderError>(
            RenderError::LengthMismatch,
        ),
        left@.len() == right@.len() ==> (result matches Ok(frames) && frames@ == interleaved(
            left@,
            right@,
        )),
{
    if left.len() != right.len() {
        return Err(RenderError::LengthMismatch);
    }
    let mut frames: Vec<i16> = Vec::with_capacity(2 * left.len());
    let mut i: usize = 0;
    while i < left.len()
        invariant
            i <= left@.len(),
            left@.len() == right@.len(),
            frames@.len() == 2 * i,
            forall|m: int|
                0 <= m < 2 * i ==> #[trigger] frames@[m] == if m % 2 == 0 {
                    left@[m / 2]
                } else {
                    right@[m / 2]
                },
        decreases left@.len() - i,
    {
        frames.push(left[i]);
        frames.push(right[i]);
        i += 1;
    }
    assert(frames@ =~= interleaved(left@, right@));
    Ok(frames)
}

/// Silence in, silence out, for the whole render: where responses are found
/// for the source, a silent input that is not empty gives two silent
/// channels, as long as the input and the longer response together.
pub proof fn lemma_silent_render(
    input: Seq<i16>,
    source: SphericalPosition,
    measurements: Seq<Measurement>,
    listener: CartesianVector,
)
    requires
        input.len() > 0,
        is_silent(input),
        located(source, measurements, listener) is Ok,
    ensures
        ({
            let responses = located(source, measurements, listener)->Ok_0;
            let length = input.len() + longer(responses.0.len(), responses.1.len());
            render_outcome(input, source, measurements, listener) == Ok::<
                (Seq<i16>, Seq<i16>),
                RenderError,
            >((silence(length), silence(length)))
        }),
{
    let responses = located(source, measurements, listener)->Ok_0;
    lemma_silence_renders_silence(input, responses.0, responses.1);
}

} // verus!
