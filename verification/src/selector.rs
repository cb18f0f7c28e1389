//! Choosing the measurement that lies nearest to a wanted source position.

use vstd::prelude::*;
use crate::error::RenderError;
use crate::geometry::{CartesianVector, COORD_LIMIT};

verus! {

/// The squared Euclidean distance from `target` to `position`, once
/// `position` has been moved into the frame whose origin is `origin`.
pub open spec fn distance_squared(
    target: CartesianVector,
    position: CartesianVector,
    origin: CartesianVector,
) -> int {
    let dx = target.x - (position.x - origin.x);
    let dy = target.y - (position.y - origin.y);
    let dz = target.z - (position.z - origin.z);
    dx * dx + dy * dy + dz * dz
}

/// Every position of the sequence stands for finite values.
pub open spec fn all_in_range(positions: Seq<CartesianVector>) -> bool {
    forall|i: int| 0 <= i < positions.len() ==> (#[trigger] positions[i]).in_range()
}

/// `index` is the first position at the least distance from `target`: none is
/// nearer, and every earlier one is strictly farther.
pub open spec fn is_nearest(
    target: CartesianVector,
    positions: Seq<CartesianVector>,
    origin: CartesianVector,
    index: int,
) -> bool {
    &&& 0 <= index < positions.len()
    &&& forall|j: int|
        0 <= j < positions.len() ==> distance_squared(target, positions[index], origin)
            <= distance_squared(target, #[trigger] positions[j], origin)
    &&& forall|j: int|
        0 <= j < index ==> distance_squared(target, positions[index], origin)
            < distance_squared(target, #[trigger] positions[j], origin)
}

/// The index that `is_nearest` singles out.
pub open spec fn nearest_index(
    target: CartesianVector,
    positions: Seq<CartesianVector>,
    origin: CartesianVector,
) -> int {
    choose|index: int| is_nearest(target, positions, origin, index)
}

/// What a selection over `positions` comes to: the error that refuses it, or
/// the index of the nearest measurement.
pub open spec fn selection(
    target: CartesianVector,
    positions: Seq<CartesianVector>,
    origin: CartesianVector,
) -> Result<usize, RenderError> {
    if positions.len() == 0 {
        Err(RenderError::EmptyDataset)
    } else if !(target.in_range() && origin.in_range() && all_in_range(positions)) {
        Err(RenderError::InvalidPosition)
    } else {
        Ok(nearest_index(target, positions, origin) as usize)
    }
}

/// At most one index is the nearest: ties go to the lower index, so two
/// indices that both qualify are the same.
pub proof fn lemma_nearest_unique(
    target: CartesianVector,
    positions: Seq<CartesianVector>,
    origin: CartesianVector,
    first: int,
    second: int,
)
    requires
        is_nearest(target, positions, origin, first),
        is_nearest(target, positions, origin, second),
    ensures
        first == second,
{
    if first < second {
        assert(distance_squared(target, positions[second], origin) < distance_squared(
            target,
            positions[first],
            origin,
        ));
    } else if second < first {
        assert(distance_squared(target, positions[first], origin) < distance_squared(
            target,
            positions[second],
            origin,
        ));
    }
}

/// Every dataset that is not empty has a nearest measurement, and
/// `nearest_index` is it.
pub proof fn lemma_nearest_exists(
    target: CartesianVector,
    positions: Seq<CartesianVector>,
    origin: CartesianVector,
)
    requires
        positions.len() > 0,
    ensures
        is_nearest(target, positions, origin, nearest_index(target, positions, origin)),
    decreases positions.len(),
{
    let last = positions.len() - 1;
    if last == 0 {
        assert(is_nearest(target, positions, origin, 0));
    } else {
        let earlier = positions.drop_last();
        lemma_nearest_exists(target, earlier, origin);
        let found = nearest_index(target, earlier, origin);
        assert forall|j: int| 0 <= j < last implies distance_squared(
            target,
            positions[found],
            origin,
        ) <= distance_squared(target, #[trigger] positions[j], origin) by {
            assert(earlier[j] == positions[j]);
        }
        assert forall|j: int| 0 <= j < found implies distance_squared(
            target,
            positions[found],
            origin,
        ) < distance_squared(target, #[trigger] positions[j], origin) by {
            assert(earlier[j] == positions[j]);
        }
        if distance_squared(target, positions[last], origin) < distance_squared(
            target,
            positions[found],
            origin,
        ) {
            assert(is_nearest(target, positions, origin, last));
        } else {
            assert(is_nearest(target, positions, origin, found));
        }
    }
}

/// The square of a difference of three coordinates in range.
fn squared_offset(target: i64, position: i64, origin: i64) -> (square: i128)
    requires
        -COORD_LIMIT <= target <= COORD_LIMIT,
        -COORD_LIMIT <= position <= COORD_LIMIT,
        -COORD_LIMIT <= origin <= COORD_LIMIT,
    ensures
        square == (target - (position - origin)) * (target - (position - origin)),
        0 <= square <= 0x9_0000_0000_0000_0000_0000_0000,
{
    let offset: i128 = target as i128 - (position as i128 - origin as i128);
    assert(0 <= offset * offset <= 0x9_0000_0000_0000_0000_0000_0000) by (nonlinear_arith)
        requires
            -0x3_0000_0000_0000 <= offset <= 0x3_0000_0000_0000,
    ;
    offset * offset
}

/// Computes `distance_squared` for positions in range.
fn squared_distance(
    target: &CartesianVector,
    position: &CartesianVector,
    origin: &CartesianVector,
) -> (distance: i128)
    requires
        target.in_range(),
        position.in_range(),
        origin.in_range(),
    ensures
        distance == distance_squared(*target, *position, *origin),
{
    let dx: i128 = squared_offset(target.x, position.x, origin.x);
    let dy: i128 = squared_offset(target.y, position.y, origin.y);
    let dz: i128 = squared_offset(target.z, position.z, origin.z);
    dx + dy + dz
}

/// Finds the measurement nearest to `target`. Each measured position is first
/// expressed relative to `origin`, the listener; `target` is already relative
/// to the listener. Of several positions at the least distance the first wins.
///
/// An empty dataset is refused as `EmptyDataset`. Otherwise a coordinate out
/// of range, in the target, the origin or any measured position, is refused
/// as `InvalidPosition`.
pub fn select(
    target: &CartesianVector,
    positions: &Vec<CartesianVector>,
    origin: &CartesianVector,
) -> (result: Result<usize, RenderError>)
    ensures
        result == selection(*target, positions@, *origin),
        result matches Ok(index) ==> is_nearest(*target, positions@, *origin, index as int),
{
    if positions.len() == 0 {
        return Err(RenderError::EmptyDataset);
    }
    if !target.is_in_range() || !origin.is_in_range() || !positions[0].is_in_range() {
        return Err(RenderError::InvalidPosition);
    }
    let mut best: usize = 0;
    let mut least: i128 = squared_distance(target, &positions[0], origin);
    let mut next: usize = 1;
    while next < positions.len()
        invariant
            target.in_range(),
            origin.in_range(),
            1 <= next <= positions.len(),
            best < next,
            least == distance_squared(*target, positions@[best as int], *origin),
            forall|j: int| 0 <= j < next ==> (#[trigger] positions@[j]).in_range(),
            forall|j: int|
                0 <= j < next ==> least <= distance_squared(
                    *target,
                    #[trigger] positions@[j],
                    *origin,
                ),
            forall|j: int|
                0 <= j < best ==> least < distance_squared(
                    *target,
                    #[trigger] positions@[j],
                    *origin,
                ),
        decreases positions.len() - next,
    {
        if !positions[next].is_in_range() {
            return Err(RenderError::InvalidPosition);
        }
        let distance: i128 = squared_distance(target, &positions[next], origin);
        if distance < least {
            best = next;
            least = distance;
        }
        next += 1;
    }
    proof {
        assert(is_nearest(*target, positions@, *origin, best as int));
        lemma_nearest_unique(
            *target,
            positions@,
            *origin,
            best as int,
            nearest_index(*target, positions@, *origin),
        );
    }
    Ok(best)
}

} // verus!
