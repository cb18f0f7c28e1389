//! Measurements of the dataset, and the impulse responses built from them.

use vstd::prelude::*;
use crate::error::RenderError;
use crate::geometry::{to_cartesian, CartesianVector, SphericalPosition};

verus! {

/// One entry of the dataset: where the source stood, what each ear recorded,
/// and how many silent samples precede each recording.
#[derive(Debug, PartialEq, Eq)]
pub struct Measurement {
    pub position: CartesianVector,
    pub left: Vec<i32>,
    pub right: Vec<i32>,
    pub left_delay: usize,
    pub right_delay: usize,
}

impl Measurement {
    /// Each delayed response, convolved with an input of `input_length`
    /// samples, has a length that a `usize` can hold.
    pub open spec fn fits_with(&self, input_length: nat) -> bool {
        &&& input_length + self.left_delay + self.left@.len() <= usize::MAX
        &&& input_length + self.right_delay + self.right@.len() <= usize::MAX
    }

    /// Each delayed response has a length that a `usize` can hold.
    pub open spec fn fits(&self) -> bool {
        self.fits_with(0)
    }

    /// The measurement of a source that stood at `source`, as the dataset
    /// states it: the position is converted to cartesian coordinates, the
    /// recordings and delays are kept as they are.
    pub fn new(
        source: &SphericalPosition,
        left: Vec<i32>,
        right: Vec<i32>,
        left_delay: usize,
        right_delay: usize,
    ) -> (measurement: Measurement)
        ensures
            measurement.position == source.cartesian(),
            measurement.left@ == left@,
            measurement.right@ == right@,
            measurement.left_delay == left_delay,
            measurement.right_delay == right_delay,
            source.is_unit() ==> measurement.position.in_range(),
    {
        Measurement { position: to_cartesian(source), left, right, left_delay, right_delay }
    }
}

/// `raw` with `delay` zero samples in front of it.
pub open spec fn delayed(raw: Seq<i32>, delay: nat) -> Seq<i32> {
    Seq::new(delay, |i: int| 0i32) + raw
}

/// What building the responses of `measurement` comes to: the two delayed
/// responses, left ear first, or `EmptyResponse` when an ear recorded nothing.
pub open spec fn built(measurement: Measurement) -> Result<(Seq<i32>, Seq<i32>), RenderError> {
    if measurement.left@.len() == 0 || measurement.right@.len() == 0 {
        Err(RenderError::EmptyResponse)
    } else {
        Ok(
            (
                delayed(measurement.left@, measurement.left_delay as nat),
                delayed(measurement.right@, measurement.right_delay as nat),
            ),
        )
    }
}

/// The pair of vectors in `result` holds the pair of sequences in `expected`,
/// or both hold the same error.
pub open spec fn responses_are(
    result: Result<(Vec<i32>, Vec<i32>), RenderError>,
    expected: Result<(Seq<i32>, Seq<i32>), RenderError>,
) -> bool {
    match expected {
        Ok(pair) => result matches Ok(responses) && responses.0@ == pair.0 && responses.1@
            == pair.1,
        Err(error) => result matches Err(found) && found == error,
    }
}

/// Puts `delay` zero samples in front of `raw`.
pub fn delay_response(raw: &Vec<i32>, delay: usize) -> (response: Vec<i32>)
    requires
        delay + raw@.len() <= usize::MAX,
    ensures
        response@ == delayed(raw@, delay as nat),
{
    let mut response: Vec<i32> = Vec::with_capacity(delay + raw.len());
    let mut zeros: usize = 0;
    while zeros < delay
        invariant
            zeros <= delay,
            response@ == Seq::new(zeros as nat, |i: int| 0i32),
        decreases delay - zeros,
    {
        response.push(0);
        zeros += 1;
        assert(response@ =~= Seq::new(zeros as nat, |i: int| 0i32));
    }
    let mut copied: usize = 0;
    while copied < raw.len()
        invariant
            copied <= raw@.len(),
            response@ == Seq::new(delay as nat, |i: int| 0i32) + raw@.subrange(0, copied as int),
        decreases raw@.len() - copied,
    {
        response.push(raw[copied]);
        copied += 1;
        assert(response@ =~= Seq::new(delay as nat, |i: int| 0i32) + raw@.subrange(
            0,
            copied as int,
        ));
    }
    assert(raw@.subrange(0, copied as int) =~= raw@);
    response
}

/// Builds the impulse responses of the two ears, left first: each recording
/// behind its own onset delay. A measurement in which an ear recorded nothing
/// is refused as `EmptyResponse`; a response that is returned holds at least
/// one sample.
pub fn build(measurement: &Measurement) -> (result: Result<(Vec<i32>, Vec<i32>), RenderError>)
    requires
        measurement.fits(),
    ensures
        responses_are(result, built(*measurement)),
        result matches Ok(responses) ==> responses.0@.len() == measurement.left_delay
            + measurement.left@.len() && responses.1@.len() == measurement.right_delay
            + measurement.right@.len() && responses.0@.len() > 0 && responses.1@.len() > 0,
{
    if measurement.left.len() == 0 || measurement.right.len() == 0 {
        return Err(RenderError::EmptyResponse);
    }
    let left: Vec<i32> = delay_response(&measurement.left, measurement.left_delay);
    let right: Vec<i32> = delay_response(&measurement.right, measurement.right_delay);
    Ok((left, right))
}

} // verus!
