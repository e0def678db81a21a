use timeline_demo::color::{unpack_rgb, Rgba};
use timeline_demo::engine::{LayerType, RustFlashIntegration};
use timeline_demo::logging::{LogLevel, LogMessage, Logger, TRIM_COUNT};
use timeline_demo::properties::PropertyTab;
use timeline_demo::script::{
    classify_script_line, ScriptLineStyle, ANIMATE_OBJECT, CREATE_OBJECT, LOOP_ANIMATION,
    STOP_AT_FRAME,
};
use timeline_demo::stage::{ResizeHandle, Stage};
use timeline_demo::text::{begins_with, decimal_text, find_text, numbered, same_text};
use timeline_demo::tools::{tool_for_key, tool_for_pressed_keys, CursorKind, Tool};

const ALL_TOOLS: [Tool; 19] = [
    Tool::Arrow,
    Tool::Subselection,
    Tool::Lasso,
    Tool::Line,
    Tool::Pen,
    Tool::Pencil,
    Tool::Brush,
    Tool::Rectangle,
    Tool::Oval,
    Tool::PolyStar,
    Tool::Text,
    Tool::PaintBucket,
    Tool::InkBottle,
    Tool::Eyedropper,
    Tool::Eraser,
    Tool::FreeTransform,
    Tool::GradientTransform,
    Tool::Zoom,
    Tool::Hand,
];

#[test]
fn every_shortcut_selects_its_own_tool() {
    for tool in ALL_TOOLS {
        match tool.get_shortcut() {
            Some(key) => assert_eq!(tool_for_key(key), Some(tool)),
            None => assert_eq!(tool, Tool::PolyStar),
        }
    }
}

#[test]
fn shortcuts_are_distinct_keys() {
    let keys: Vec<char> = ALL_TOOLS.iter().filter_map(|t| t.get_shortcut()).collect();
    assert_eq!(keys.len(), 18);
    for (i, a) in keys.iter().enumerate() {
        for b in &keys[i + 1..] {
            assert_ne!(a, b);
        }
    }
}

#[test]
fn unknown_key_selects_no_tool() {
    assert_eq!(tool_for_key('X'), None);
    assert_eq!(tool_for_key('v'), None);
    assert_eq!(tool_for_pressed_keys(&vec![]), None);
}

#[test]
fn first_tool_in_order_wins_among_pressed_keys() {
    assert_eq!(tool_for_pressed_keys(&vec!['H', 'R']), Some(Tool::Rectangle));
    assert_eq!(tool_for_pressed_keys(&vec!['Z', 'V']), Some(Tool::Arrow));
    assert_eq!(tool_for_pressed_keys(&vec!['Q', 'x']), Some(Tool::FreeTransform));
}

#[test]
fn tool_names_icons_and_cursors() {
    assert_eq!(Tool::Arrow.get_name(), "Selection Tool");
    assert_eq!(Tool::GradientTransform.get_name(), "Gradient Transform Tool");
    assert_eq!(Tool::Rectangle.get_icon(), "▭");
    assert_eq!(Tool::Hand.get_icon(), "✋");
    assert_eq!(Tool::Arrow.get_cursor(), CursorKind::Default);
    assert_eq!(Tool::Arrow.get_item_cursor(), CursorKind::PointingHand);
    assert_eq!(Tool::Hand.get_cursor(), CursorKind::Grab);
    assert_eq!(Tool::Zoom.get_cursor(), CursorKind::ZoomIn);
    assert_eq!(Tool::Text.get_item_cursor(), CursorKind::Text);
    assert_eq!(Tool::Eraser.get_cursor(), CursorKind::NotAllowed);
    assert_eq!(Tool::Brush.get_cursor(), CursorKind::Crosshair);
    assert_eq!(Tool::PolyStar.get_shortcut(), None);
}

#[test]
fn resize_handle_cursors() {
    assert_eq!(ResizeHandle::Left.cursor(), CursorKind::ResizeHorizontal);
    assert_eq!(ResizeHandle::Bottom.cursor(), CursorKind::ResizeVertical);
    assert_eq!(ResizeHandle::TopLeft.cursor(), CursorKind::ResizeNeSw);
    assert_eq!(ResizeHandle::BottomLeft.cursor(), CursorKind::ResizeNwSe);
}

#[test]
fn property_tab_captions() {
    assert_eq!(PropertyTab::Properties.get_name(), "Properties");
    assert_eq!(PropertyTab::Filters.get_name(), "Filters");
    assert_eq!(PropertyTab::ColorEffect.get_name(), "Color Effect");
    assert_eq!(PropertyTab::Display.get_name(), "Display");
}

#[test]
fn colors_from_rgb_and_gray() {
    assert_eq!(Rgba::from_rgb(1, 2, 3), Rgba { r: 1, g: 2, b: 3, a: 255 });
    assert_eq!(Rgba::from_gray(180), Rgba { r: 180, g: 180, b: 180, a: 255 });
}

#[test]
fn log_levels_have_their_colors_and_icons() {
    assert_eq!(LogLevel::Info.get_color(), Rgba::from_gray(200));
    assert_eq!(LogLevel::Action.get_color(), Rgba::from_rgb(100, 200, 255));
    assert_eq!(LogLevel::Warning.get_color(), Rgba::from_rgb(255, 200, 100));
    assert_eq!(LogLevel::Error.get_color(), Rgba::from_rgb(255, 100, 100));
    assert_eq!(LogLevel::Info.get_console_color(), Rgba::from_gray(180));
    assert_eq!(LogLevel::Action.get_console_color(), Rgba::from_rgb(100, 200, 100));
    assert_eq!(LogLevel::Info.get_icon(), "ℹ️");
    assert_eq!(LogLevel::Action.get_icon(), "▶");
    assert_eq!(LogLevel::Warning.get_icon(), "⚠️");
    assert_eq!(LogLevel::Error.get_icon(), "❌");
}

fn entry(n: usize) -> LogMessage {
    LogMessage { timestamp: "00:00:00.000".to_string(), level: LogLevel::Info, message: n.to_string() }
}

#[test]
fn logger_keeps_messages_under_capacity() {
    let mut logger = Logger::new();
    assert_eq!(logger.max_messages, 1000);
    for n in 0..1000 {
        logger.record(entry(n));
    }
    assert_eq!(logger.messages.len(), 1000);
    assert_eq!(logger.messages[0].message, "0");
}

#[test]
fn logger_drops_hundred_oldest_when_full() {
    let mut logger = Logger::new();
    for n in 0..1001 {
        logger.record(entry(n));
    }
    assert_eq!(TRIM_COUNT, 100);
    assert_eq!(logger.messages.len(), 901);
    assert_eq!(logger.messages[0].message, "100");
    assert_eq!(logger.messages[900].message, "1000");
    assert_eq!(logger.max_messages, 1000);
}

#[test]
fn logger_log_stamps_message_and_clear_empties() {
    let mut logger = Logger::new();
    logger.log(LogLevel::Warning, "careful".to_string());
    assert_eq!(logger.messages.len(), 1);
    let m = &logger.messages[0];
    assert_eq!(m.level, LogLevel::Warning);
    assert_eq!(m.message, "careful");
    assert_eq!(m.timestamp.len(), 12);
    logger.clear();
    assert!(logger.messages.is_empty());
    assert_eq!(logger.max_messages, 1000);
}

#[test]
fn logged_message_carries_time_of_day_stamp() {
    let mut logger = Logger::new();
    logger.log(LogLevel::Info, "tick".to_string());
    let stamp = &logger.messages[0].timestamp;
    let chars: Vec<char> = stamp.chars().collect();
    assert_eq!(chars.len(), 12);
    assert_eq!(chars[2], ':');
    assert_eq!(chars[5], ':');
    assert_eq!(chars[8], '.');
    for (i, c) in chars.iter().enumerate() {
        if i != 2 && i != 5 && i != 8 {
            assert!(c.is_ascii_digit());
        }
    }
}

#[test]
fn added_layer_ids_hold_hyphenated_v4_uuid() {
    let mut engine = RustFlashIntegration::new();
    let id = engine.add_layer("Extra".to_string(), LayerType::Normal);
    let text = id.0.strip_prefix("rustflash_layer_").expect("prefix");
    let chars: Vec<char> = text.chars().collect();
    assert_eq!(chars.len(), 36);
    for (i, c) in chars.iter().enumerate() {
        if i == 8 || i == 13 || i == 18 || i == 23 {
            assert_eq!(*c, '-');
        } else {
            assert!(c.is_ascii_digit() || ('a'..='f').contains(c));
        }
    }
    assert_eq!(chars[14], '4');
    assert!(matches!(chars[19], '8' | '9' | 'a' | 'b'));
}

#[test]
fn text_helpers() {
    assert_eq!(decimal_text(0), "0");
    assert_eq!(decimal_text(907), "907");
    assert_eq!(numbered("rect_", 12), "rect_12");
    assert!(same_text("abc", "abc"));
    assert!(!same_text("abc", "abd"));
    assert!(find_text("the timeline.play()", "timeline."));
    assert!(find_text("abc", ""));
    assert!(!find_text("ab", "abc"));
    assert!(begins_with("// hi", "//"));
    assert!(!begins_with(" // hi", "//"));
}

#[test]
fn script_lines_are_classified() {
    assert_eq!(classify_script_line("   // comment with timeline."), ScriptLineStyle::Comment);
    assert_eq!(classify_script_line("timeline.goto_frame(1);"), ScriptLineStyle::ApiCall);
    assert_eq!(classify_script_line("stage.add(x);"), ScriptLineStyle::ApiCall);
    assert_eq!(classify_script_line("let x = 1;"), ScriptLineStyle::Keyword);
    assert_eq!(classify_script_line("fn main() {"), ScriptLineStyle::Keyword);
    assert_eq!(classify_script_line("x = 2;"), ScriptLineStyle::Plain);
    assert_eq!(ScriptLineStyle::Comment.color(), Some(Rgba::from_rgb(120, 200, 120)));
    assert_eq!(ScriptLineStyle::ApiCall.color(), Some(Rgba::from_rgb(120, 160, 255)));
    assert_eq!(ScriptLineStyle::Keyword.color(), Some(Rgba::from_rgb(255, 180, 100)));
    assert_eq!(ScriptLineStyle::Plain.color(), None);
}

#[test]
fn script_templates_start_with_their_titles() {
    assert!(LOOP_ANIMATION.starts_with("// Loop Animation Script"));
    assert!(STOP_AT_FRAME.starts_with("// Stop at Frame Script"));
    assert!(ANIMATE_OBJECT.starts_with("// Animate Object Script"));
    assert!(CREATE_OBJECT.starts_with("// Create Object Script"));
}

fn stage_of(n: u32) -> Stage<u32> {
    Stage::new((0..n).collect())
}

#[test]
fn click_selects_only_the_clicked_item() {
    let mut stage = stage_of(4);
    stage.click_item(1, false);
    stage.click_item(3, false);
    assert_eq!(stage.selected(), &vec![3]);
    assert!(stage.is_selected(3));
    assert!(!stage.is_selected(1));
}

#[test]
fn additive_click_toggles_and_twice_restores() {
    let mut stage = stage_of(4);
    stage.click_item(0, false);
    stage.click_item(2, true);
    assert_eq!(stage.selected(), &vec![0, 2]);
    stage.click_item(2, true);
    assert_eq!(stage.selected(), &vec![0]);
}

#[test]
fn right_click_keeps_selection_or_selects_only() {
    let mut stage = stage_of(3);
    stage.click_item(0, false);
    stage.click_item(1, true);
    stage.right_click_item(1);
    assert_eq!(stage.selected(), &vec![0, 1]);
    stage.right_click_item(2);
    assert_eq!(stage.selected(), &vec![2]);
}

#[test]
fn marquee_replaces_or_extends_selection() {
    let mut stage = stage_of(5);
    stage.click_item(4, false);
    let added = stage.marquee_select(&vec![true, false, true, false, false], false);
    assert_eq!(added, 2);
    assert_eq!(stage.selected(), &vec![0, 2]);
    let added = stage.marquee_select(&vec![false, true, true, false, true], true);
    assert_eq!(added, 2);
    assert_eq!(stage.selected(), &vec![0, 2, 1, 4]);
}

#[test]
fn copy_and_cut_take_selected_items_in_selection_order() {
    let mut stage = Stage::new(vec!["a", "b", "c", "d"]);
    stage.click_item(2, false);
    stage.click_item(0, true);
    assert_eq!(stage.copy_selected(), vec!["c", "a"]);
    assert_eq!(stage.len(), 4);
    let cut = stage.cut_selected();
    assert_eq!(cut, vec!["c", "a"]);
    assert_eq!(stage.items(), &vec!["b", "d"]);
    assert!(stage.selected().is_empty());
}

#[test]
fn duplicate_selects_the_copy_in_front() {
    let mut stage = Stage::new(vec!["a", "b"]);
    let index = stage.duplicate_item("a");
    assert_eq!(index, 2);
    assert_eq!(stage.items(), &vec!["a", "b", "a"]);
    assert_eq!(stage.selected(), &vec![2]);
}

#[test]
fn front_and_back_reorder_and_select() {
    let mut stage = Stage::new(vec!["a", "b", "c"]);
    stage.bring_to_front(0);
    assert_eq!(stage.items(), &vec!["b", "c", "a"]);
    assert_eq!(stage.selected(), &vec![2]);
    stage.send_to_back(2);
    assert_eq!(stage.items(), &vec!["a", "b", "c"]);
    assert_eq!(stage.selected(), &vec![0]);
    stage.bring_to_front(7);
    assert_eq!(stage.items(), &vec!["a", "b", "c"]);
    assert_eq!(stage.selected(), &vec![0]);
}

#[test]
fn delete_shifts_selection_down() {
    let mut stage = Stage::new(vec!["a", "b", "c", "d"]);
    stage.click_item(3, false);
    stage.click_item(1, true);
    stage.click_item(0, true);
    assert_eq!(stage.delete_item(1), Some("b"));
    assert_eq!(stage.items(), &vec!["a", "c", "d"]);
    assert_eq!(stage.selected(), &vec![2, 0]);
    assert_eq!(stage.delete_item(9), None);
    assert_eq!(stage.len(), 3);
}

#[test]
fn push_and_replace_keep_selection() {
    let mut stage = Stage::new(vec![1u32, 2]);
    stage.click_item(1, false);
    assert_eq!(stage.push_item(3), 2);
    stage.replace_item(0, 10);
    assert_eq!(stage.items(), &vec![10, 2, 3]);
    assert_eq!(stage.selected(), &vec![1]);
    stage.clear_selection();
    assert!(stage.selected().is_empty());
}

#[test]
fn packed_colors_unpack_to_channels() {
    assert_eq!(unpack_rgb(0xFF0000), (255, 0, 0));
    assert_eq!(unpack_rgb(0x0000FF), (0, 0, 255));
    assert_eq!(unpack_rgb(0x12345678), (0x34, 0x56, 0x78));
}
