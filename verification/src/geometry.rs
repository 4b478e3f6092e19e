//! Where a scratchpad window stands, in whole pixels.

use vstd::prelude::*;

use crate::action::{Action, ActionView};
use crate::config::Direction;
use crate::numbers::{signed32, to_signed32};

verus! {

/// Whether a window of that size, kept that far from the edge, can be placed.
/// What is asked is only what the placement subtracts.
pub open spec fn placeable(
    direction: Direction,
    output_width: u32,
    output_height: u32,
    window_width: u32,
    window_height: u32,
    margin: u32,
) -> bool {
    match direction {
        Direction::Top => window_width <= output_width,
        Direction::Bottom => window_width <= output_width && window_height + margin
            <= output_height,
        Direction::Left => window_height <= output_height,
        Direction::Right => window_height <= output_height && window_width + margin
            <= output_width,
    }
}

/// Where a visible window stands: centered along the edge that it comes from,
/// the margin away from it.
pub open spec fn visible_position(
    direction: Direction,
    output_width: u32,
    output_height: u32,
    window_width: u32,
    window_height: u32,
    margin: u32,
) -> (int, int) {
    let centered_x = (output_width - window_width) / 2;
    let centered_y = (output_height - window_height) / 2;
    match direction {
        Direction::Top => (centered_x, margin as int),
        Direction::Bottom => (centered_x, output_height - window_height - margin),
        Direction::Left => (margin as int, centered_y),
        Direction::Right => (output_width - window_width - margin, centered_y),
    }
}

/// Calculate position based on direction (for visible positions)
/// Returns (x, y) coordinates
pub fn calculate_position(
    direction: Direction,
    output_width: u32,
    output_height: u32,
    window_width: u32,
    window_height: u32,
    margin: u32,
) -> (r: (i32, i32))
    requires
        placeable(direction, output_width, output_height, window_width, window_height, margin),
    ensures
        ({
            let p = visible_position(
                direction,
                output_width,
                output_height,
                window_width,
                window_height,
                margin,
            );
            r.0 as int == signed32(p.0) && r.1 as int == signed32(p.1)
        }),
{
    match direction {
        Direction::Top => {
            let x: i32 = to_signed32((output_width - window_width) / 2);
            let y: i32 = to_signed32(margin);
            (x, y)
        },
        Direction::Bottom => {
            let x: i32 = to_signed32((output_width - window_width) / 2);
            let y: i32 = to_signed32(output_height - window_height - margin);
            (x, y)
        },
        Direction::Left => {
            let x: i32 = to_signed32(margin);
            let y: i32 = to_signed32((output_height - window_height) / 2);
            (x, y)
        },
        Direction::Right => {
            let x: i32 = to_signed32(output_width - window_width - margin);
            let y: i32 = to_signed32((output_height - window_height) / 2);
            (x, y)
        },
    }
}

/// How far a window stands from the edge that it comes from; negative where it
/// stands beyond it.
pub open spec fn signed_margin(
    direction: Direction,
    output_width: u32,
    output_height: u32,
    window_width: u32,
    window_height: u32,
    x: i32,
    y: i32,
) -> int {
    match direction {
        Direction::Top => y as int,
        Direction::Bottom => signed32(output_height as int) - signed32(window_height as int) - y,
        Direction::Left => x as int,
        Direction::Right => signed32(output_width as int) - signed32(window_width as int) - x,
    }
}

/// Whether the margin of a window can be computed in 32 bits, step by step.
pub open spec fn margin_computable(
    direction: Direction,
    output_width: u32,
    output_height: u32,
    window_width: u32,
    window_height: u32,
    x: i32,
    y: i32,
) -> bool {
    let room = match direction {
        Direction::Top => 0,
        Direction::Bottom => signed32(output_height as int) - signed32(window_height as int),
        Direction::Left => 0,
        Direction::Right => signed32(output_width as int) - signed32(window_width as int),
    };
    &&& i32::MIN <= room <= i32::MAX
    &&& i32::MIN <= signed_margin(
        direction,
        output_width,
        output_height,
        window_width,
        window_height,
        x,
        y,
    ) <= i32::MAX
}

/// Extract margin from current position based on direction
pub fn extract_margin(
    direction: Direction,
    output_width: u32,
    output_height: u32,
    window_width: u32,
    window_height: u32,
    x: i32,
    y: i32,
) -> (r: u32)
    requires
        margin_computable(
            direction,
            output_width,
            output_height,
            window_width,
            window_height,
            x,
            y,
        ),
    ensures
        ({
            let m = signed_margin(
                direction,
                output_width,
                output_height,
                window_width,
                window_height,
                x,
                y,
            );
            r as int == if m < 0 {
                0
            } else {
                m
            }
        }),
{
    let margin: i32 = match direction {
        Direction::Top => y,
        Direction::Bottom => to_signed32(output_height) - to_signed32(window_height) - y,
        Direction::Left => x,
        Direction::Right => to_signed32(output_width) - to_signed32(window_width) - x,
    };
    if margin < 0 {
        0
    } else {
        margin as u32
    }
}

/// Whether a window of that size can be hidden behind the edge. What is asked
/// is only what the placement adds, subtracts and negates.
pub open spec fn hideable(
    direction: Direction,
    output_width: u32,
    output_height: u32,
    window_width: u32,
    window_height: u32,
    margin: u32,
) -> bool {
    match direction {
        Direction::Top => {
            &&& window_width <= output_width
            &&& window_height + margin <= u32::MAX
            &&& window_height + margin != 0x8000_0000
        },
        Direction::Bottom => {
            &&& window_width <= output_width
            &&& output_height + margin <= u32::MAX
        },
        Direction::Left => {
            &&& window_height <= output_height
            &&& window_width + margin <= u32::MAX
            &&& window_width + margin != 0x8000_0000
        },
        Direction::Right => {
            &&& window_height <= output_height
            &&& output_width + margin <= u32::MAX
        },
    }
}

/// Where a hidden window stands: centered along the edge that it goes to, the
/// margin beyond it.
pub open spec fn hidden_position(
    direction: Direction,
    output_width: u32,
    output_height: u32,
    window_width: u32,
    window_height: u32,
    margin: u32,
) -> (int, int) {
    let centered_x = signed32((output_width - window_width) / 2);
    let centered_y = signed32((output_height - window_height) / 2);
    match direction {
        Direction::Top => (centered_x, -signed32(window_height + margin)),
        Direction::Bottom => (centered_x, signed32(output_height + margin)),
        Direction::Left => (-signed32(window_width + margin), centered_y),
        Direction::Right => (signed32(output_width + margin), centered_y),
    }
}

/// Calculate off-screen position based on direction (for hidden positions)
/// Returns (x, y) coordinates where window is completely outside the screen
pub fn calculate_hide_position(
    direction: Direction,
    output_width: u32,
    output_height: u32,
    window_width: u32,
    window_height: u32,
    margin: u32,
) -> (r: (i32, i32))
    requires
        hideable(direction, output_width, output_height, window_width, window_height, margin),
    ensures
        (r.0 as int, r.1 as int) == hidden_position(
            direction,
            output_width,
            output_height,
            window_width,
            window_height,
            margin,
        ),
{
    match direction {
        Direction::Top => {
            let x: i32 = to_signed32((output_width - window_width) / 2);
            let y: i32 = -to_signed32(window_height + margin);
            (x, y)
        },
        Direction::Bottom => {
            let x: i32 = to_signed32((output_width - window_width) / 2);
            let y: i32 = to_signed32(output_height + margin);
            (x, y)
        },
        Direction::Left => {
            let x: i32 = -to_signed32(window_width + margin);
            let y: i32 = to_signed32((output_height - window_height) / 2);
            (x, y)
        },
        Direction::Right => {
            let x: i32 = to_signed32(output_width + margin);
            let y: i32 = to_signed32((output_height - window_height) / 2);
            (x, y)
        },
    }
}

/// Move window from current position to target position
/// Automatically calculates the relative offset
pub fn move_window_to_position(
    window_id: u64,
    current_x: i32,
    current_y: i32,
    target_x: i32,
    target_y: i32,
) -> (r: Action)
    requires
        i32::MIN <= target_x - current_x <= i32::MAX,
        i32::MIN <= target_y - current_y <= i32::MAX,
    ensures
        r@ == (ActionView::MoveFloatingWindow {
            id: window_id,
            x: (target_x - current_x) as i32,
            y: (target_y - current_y) as i32,
        }),
{
    Action::MoveFloatingWindow { id: window_id, x: target_x - current_x, y: target_y - current_y }
}

/// The margin read off the position of a visible window is the margin that the
/// window was placed with.
pub proof fn margin_round_trip(
    direction: Direction,
    output_width: u32,
    output_height: u32,
    window_width: u32,
    window_height: u32,
    margin: u32,
    x: i32,
    y: i32,
)
    requires
        placeable(direction, output_width, output_height, window_width, window_height, margin),
        x as int == signed32(
            visible_position(
                direction,
                output_width,
                output_height,
                window_width,
                window_height,
                margin,
            ).0,
        ),
        y as int == signed32(
            visible_position(
                direction,
                output_width,
                output_height,
                window_width,
                window_height,
                margin,
            ).1,
        ),
        margin_computable(
            direction,
            output_width,
            output_height,
            window_width,
            window_height,
            x,
            y,
        ),
        margin <= i32::MAX,
    ensures
        signed_margin(direction, output_width, output_height, window_width, window_height, x, y)
            == margin,
{
}

/// A hidden window is completely outside the screen, where its coordinates fit
/// in 32 bits.
pub proof fn hidden_is_off_screen(
    direction: Direction,
    output_width: u32,
    output_height: u32,
    window_width: u32,
    window_height: u32,
    margin: u32,
)
    requires
        hideable(direction, output_width, output_height, window_width, window_height, margin),
        match direction {
            Direction::Top => window_height + margin <= i32::MAX,
            Direction::Bottom => output_height + margin <= i32::MAX,
            Direction::Left => window_width + margin <= i32::MAX,
            Direction::Right => output_width + margin <= i32::MAX,
        },
    ensures
        ({
            let p = hidden_position(
                direction,
                output_width,
                output_height,
                window_width,
                window_height,
                margin,
            );
            ||| p.0 + window_width <= 0
            ||| p.0 >= output_width
            ||| p.1 + window_height <= 0
            ||| p.1 >= output_height
        }),
{
}

/// A visible window is completely on the screen, where the screen has room for
/// it and its margin.
pub proof fn visible_is_on_screen(
    direction: Direction,
    output_width: u32,
    output_height: u32,
    window_width: u32,
    window_height: u32,
    margin: u32,
)
    requires
        match direction {
            Direction::Top | Direction::Bottom => window_width <= output_width && window_height
                + margin <= output_height,
            Direction::Left | Direction::Right => window_width + margin <= output_width
                && window_height <= output_height,
        },
    ensures
        placeable(direction, output_width, output_height, window_width, window_height, margin),
        ({
            let p = visible_position(
                direction,
                output_width,
                output_height,
                window_width,
                window_height,
                margin,
            );
            &&& 0 <= p.0
            &&& p.0 + window_width <= output_width
            &&& 0 <= p.1
            &&& p.1 + window_height <= output_height
        }),
{
}

/// A visible window keeps the margin from the edge that it comes from, and as
/// much room on one side of it along that edge as on the other, up to a pixel.
pub proof fn visible_keeps_the_margin(
    direction: Direction,
    output_width: u32,
    output_height: u32,
    window_width: u32,
    window_height: u32,
    margin: u32,
)
    requires
        placeable(direction, output_width, output_height, window_width, window_height, margin),
    ensures
        ({
            let (x, y) = visible_position(
                direction,
                output_width,
                output_height,
                window_width,
                window_height,
                margin,
            );
            let right = output_width - (x + window_width);
            let below = output_height - (y + window_height);
            &&& direction == Direction::Top ==> y == margin
            &&& direction == Direction::Bottom ==> below == margin
            &&& direction == Direction::Left ==> x == margin
            &&& direction == Direction::Right ==> right == margin
            &&& direction == Direction::Top || direction == Direction::Bottom ==> x <= right <= x
                + 1
            &&& direction == Direction::Left || direction == Direction::Right ==> y <= below <= y
                + 1
        }),
{
}

/// A hidden window is the margin beyond the edge that it goes to, and has as much
/// room on one side of it along that edge as on the other, up to a pixel.
pub proof fn hidden_is_beyond_its_edge(
    direction: Direction,
    output_width: u32,
    output_height: u32,
    window_width: u32,
    window_height: u32,
    margin: u32,
)
    requires
        hideable(direction, output_width, output_height, window_width, window_height, margin),
        window_height + margin <= i32::MAX,
        window_width + margin <= i32::MAX,
        output_height + margin <= i32::MAX,
        output_width + margin <= i32::MAX,
    ensures
        ({
            let (x, y) = hidden_position(
                direction,
                output_width,
                output_height,
                window_width,
                window_height,
                margin,
            );
            let right = output_width - (x + window_width);
            let below = output_height - (y + window_height);
            &&& direction == Direction::Top ==> y + window_height == -margin
            &&& direction == Direction::Bottom ==> y - output_height == margin
            &&& direction == Direction::Left ==> x + window_width == -margin
            &&& direction == Direction::Right ==> x - output_width == margin
            &&& direction == Direction::Top || direction == Direction::Bottom ==> x <= right <= x
                + 1
            &&& direction == Direction::Left || direction == Direction::Right ==> y <= below <= y
                + 1
        }),
{
}

/// The margin of a window, wherever it stands, is its distance from the edge that
/// it comes from.
pub proof fn margin_is_the_distance_from_the_edge(
    direction: Direction,
    output_width: u32,
    output_height: u32,
    window_width: u32,
    window_height: u32,
    x: i32,
    y: i32,
)
    requires
        output_width <= i32::MAX,
        output_height <= i32::MAX,
        window_width <= i32::MAX,
        window_height <= i32::MAX,
    ensures
        ({
            let m = signed_margin(
                direction,
                output_width,
                output_height,
                window_width,
                window_height,
                x,
                y,
            );
            &&& direction == Direction::Top ==> m == y
            &&& direction == Direction::Bottom ==> y + window_height + m == output_height
            &&& direction == Direction::Left ==> m == x
            &&& direction == Direction::Right ==> x + window_width + m == output_width
        }),
{
}

/// A window that fits on the output with its margin can be placed and hidden,
/// where the output is of a size that occurs.
pub proof fn fitting_windows_can_be_placed(
    direction: Direction,
    output_width: u32,
    output_height: u32,
    window_width: u32,
    window_height: u32,
    margin: u32,
)
    requires
        window_width + margin <= output_width,
        window_height + margin <= output_height,
        output_width + margin <= i32::MAX,
        output_height + margin <= i32::MAX,
    ensures
        placeable(direction, output_width, output_height, window_width, window_height, margin),
        hideable(direction, output_width, output_height, window_width, window_height, margin),
{
}

} // verus!
