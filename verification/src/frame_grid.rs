//! The draw commands that the timeline's frame grid takes, as the renderer
//! check counts them.

use vstd::prelude::*;

verus! {

/// The number of layer separator lines the grid draws.
pub const GRID_LAYER_LINES: u32 = 10;

/// The debug elements drawn over the grid: a border, a rectangle and a text.
pub const GRID_DEBUG_ELEMENTS: u32 = 3;

/// The draw commands for a grid of `total_frames` frames: a line per frame,
/// a keyframe marker on every fifth frame (frames 0, 5, 10, ...), the layer
/// separator lines and the debug elements.
pub open spec fn grid_command_count(total_frames: nat) -> nat {
    total_frames + (total_frames + 4) / 5 + GRID_LAYER_LINES as nat + GRID_DEBUG_ELEMENTS as nat
}

/// Counts the draw commands of a frame grid of `total_frames` frames.
pub fn render_frame_grid(total_frames: u32) -> (commands: u32)
    requires
        grid_command_count(total_frames as nat) <= u32::MAX,
    ensures
        commands == grid_command_count(total_frames as nat),
{
    let mut commands: u32 = 0;
    let mut frame: u32 = 0;
    while frame < total_frames
        invariant
            frame <= total_frames,
            grid_command_count(total_frames as nat) <= u32::MAX,
            commands == frame + (frame + 4) / 5,
        decreases total_frames - frame,
    {
        commands = commands + 1;
        if frame % 5 == 0 {
            commands = commands + 1;
        }
        frame = frame + 1;
    }
    let mut layer: u32 = 0;
    while layer < GRID_LAYER_LINES
        invariant
            layer <= GRID_LAYER_LINES,
            grid_command_count(total_frames as nat) <= u32::MAX,
            commands == total_frames + (total_frames + 4) / 5 + layer,
        decreases GRID_LAYER_LINES - layer,
    {
        commands = commands + 1;
        layer = layer + 1;
    }
    commands + GRID_DEBUG_ELEMENTS
}

} // verus!
