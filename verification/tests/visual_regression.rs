use timeline_demo::frame_grid::render_frame_grid;

/// The debug elements drawn over the frame grid.
#[test]
fn test_debug_rendering_elements() {
    println!("🐛 Testing debug rendering elements...");

    // Simulate debug rendering
    let debug_elements = vec![
        ("red_border", "3px solid red border around frame grid"),
        ("orange_rect", "200x100 orange rectangle at (10,10)"),
        ("debug_text", "FRAME GRID TEST text at (30,30)"),
    ];

    for (element, description) in &debug_elements {
        println!("  Debug element '{}': {}", element, description);
    }

    // Verify debug elements are defined
    assert_eq!(debug_elements.len(), 3, "Should have 3 debug elements");

    println!("✅ Debug rendering elements test passed!");
}

#[test]
fn frame_grid_of_a_hundred_frames_takes_133_commands() {
    // 100 frame lines, 20 keyframe markers, 10 layer lines, 3 debug elements
    assert_eq!(render_frame_grid(100), 133);
    assert!(render_frame_grid(100) >= 100);
}

#[test]
fn frame_grid_counts_markers_on_every_fifth_frame() {
    assert_eq!(render_frame_grid(0), 13);
    assert_eq!(render_frame_grid(1), 15);
    assert_eq!(render_frame_grid(5), 19);
    assert_eq!(render_frame_grid(6), 21);
}
