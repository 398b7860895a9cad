//! Colour mutation: a small random step on each channel, taken only where
//! it leaves the channel above 0 and at most 255.

use vstd::prelude::*;
use crate::chance::random_range;

verus! {

/// The largest step that one mutation takes on a channel, up or down.
pub const MAX_OFFSET: i16 = 2;

/// The largest value of a colour channel.
pub const MAX_CHANNEL: i16 = 255;

/// Whether `offset` is a step that a mutation may draw.
pub open spec fn valid_offset(offset: int) -> bool {
    -MAX_OFFSET <= offset <= MAX_OFFSET
}

/// A channel after a step of `offset`: the step is taken if it ends above 0
/// and at most 255, and dropped otherwise.
pub open spec fn mutated_channel(value: int, offset: int) -> int {
    if in_range(value + offset) {
        value + offset
    } else {
        value
    }
}

/// A colour after one step on each channel.
pub open spec fn mutated_color(rgb: (int, int, int), offsets: (int, int, int)) -> (int, int, int) {
    (
        mutated_channel(rgb.0, offsets.0),
        mutated_channel(rgb.1, offsets.1),
        mutated_channel(rgb.2, offsets.2),
    )
}

/// Whether some step that a mutation may draw takes a channel from `value`
/// to `out`.
pub open spec fn channel_reachable(value: int, out: int) -> bool {
    out == value || (valid_offset(out - value) && in_range(out))
}

/// Whether some mutation takes the colour `rgb` to `out`.
pub open spec fn color_reachable(rgb: (int, int, int), out: (int, int, int)) -> bool {
    channel_reachable(rgb.0, out.0) && channel_reachable(rgb.1, out.1) && channel_reachable(
        rgb.2,
        out.2,
    )
}

/// The view of a colour as three integers.
pub open spec fn color_view(rgb: (i16, i16, i16)) -> (int, int, int) {
    (rgb.0 as int, rgb.1 as int, rgb.2 as int)
}

/// Applies a drawn step to one channel.
pub fn mutate_channel(value: i16, offset: i16) -> (out: i16)
    ensures
        out == mutated_channel(value as int, offset as int),
{
    let moved: i32 = value as i32 + offset as i32;
    if 0 < moved && moved <= MAX_CHANNEL as i32 {
        moved as i16
    } else {
        value
    }
}

/// Applies three drawn steps to a colour, one to each channel.
pub fn mutate_color(rgb: (i16, i16, i16), offsets: (i16, i16, i16)) -> (out: (i16, i16, i16))
    ensures
        color_view(out) == mutated_color(color_view(rgb), color_view(offsets)),
{
    (
        mutate_channel(rgb.0, offsets.0),
        mutate_channel(rgb.1, offsets.1),
        mutate_channel(rgb.2, offsets.2),
    )
}

/// Draws one step, uniformly from -2 to 2.
pub fn random_offset() -> (offset: i16)
    ensures
        valid_offset(offset as int),
{
    random_range(-(MAX_OFFSET as i64), MAX_OFFSET as i64 + 1) as i16
}

/// Draws three independent steps, one for each channel.
pub fn random_offsets() -> (offsets: (i16, i16, i16))
    ensures
        valid_offset(offsets.0 as int),
        valid_offset(offsets.1 as int),
        valid_offset(offsets.2 as int),
{
    let r = random_offset();
    let g = random_offset();
    let b = random_offset();
    (r, g, b)
}

/// Mutates a colour by three fresh draws.
pub fn mutate_color_randomly(rgb: (i16, i16, i16)) -> (out: (i16, i16, i16))
    ensures
        color_reachable(color_view(rgb), color_view(out)),
{
    let offsets = random_offsets();
    proof {
        lemma_mutation_reachable(rgb.0 as int, offsets.0 as int);
        lemma_mutation_reachable(rgb.1 as int, offsets.1 as int);
        lemma_mutation_reachable(rgb.2 as int, offsets.2 as int);
    }
    mutate_color(rgb, offsets)
}

/// Whether a channel lies above 0 and is at most 255.
pub open spec fn in_range(value: int) -> bool {
    0 < value <= MAX_CHANNEL
}

/// Whatever steps are drawn, every channel of a mutated colour differs from
/// the channel it came from by at most 2, and lies in range if the channel
/// it came from did or the step led there.
pub proof fn lemma_mutation_bounded(rgb: (int, int, int), offsets: (int, int, int))
    requires
        valid_offset(offsets.0),
        valid_offset(offsets.1),
        valid_offset(offsets.2),
    ensures
        ({
            let out = mutated_color(rgb, offsets);
            &&& -MAX_OFFSET <= out.0 - rgb.0 <= MAX_OFFSET
            &&& -MAX_OFFSET <= out.1 - rgb.1 <= MAX_OFFSET
            &&& -MAX_OFFSET <= out.2 - rgb.2 <= MAX_OFFSET
            &&& in_range(rgb.0) || in_range(rgb.0 + offsets.0) <==> in_range(out.0)
            &&& in_range(rgb.1) || in_range(rgb.1 + offsets.1) <==> in_range(out.1)
            &&& in_range(rgb.2) || in_range(rgb.2 + offsets.2) <==> in_range(out.2)
        }),
{
}

/// What a valid step makes of a channel is reachable from it.
pub proof fn lemma_mutation_reachable(value: int, offset: int)
    requires
        valid_offset(offset),
    ensures
        channel_reachable(value, mutated_channel(value, offset)),
{
}

/// What is reachable from a channel is what some valid step makes of it.
pub proof fn lemma_reachable_by_step(value: int, out: int)
    requires
        channel_reachable(value, out),
    ensures
        exists|offset: int| valid_offset(offset) && out == #[trigger] mutated_channel(value, offset),
{
    if out == value {
        assert(out == mutated_channel(value, 0));
    } else {
        assert(out == mutated_channel(value, out - value));
    }
}

} // verus!
