use timeline_demo::engine::{
    demo_rustflash_integration, FrameType, KeyframeId, LayerId, LayerType, RustFlashIntegration,
};

fn is_v4(value: u128) -> bool {
    (value >> 76) & 0xF == 4 && (value >> 62) & 0x3 == 2
}

#[test]
fn new_engine_has_tweened_animation_on_first_layer() {
    let engine = RustFlashIntegration::new();
    let first = LayerId::new("rustflash_layer_1".to_string());
    for frame in 0..=30u32 {
        let data = engine.get_frame_data(first.clone(), frame);
        assert!(data.has_content);
        assert_eq!(data.frame_number, frame);
        let expected = if frame % 15 == 0 { FrameType::Keyframe } else { FrameType::Tween };
        assert_eq!(data.frame_type, expected);
        assert!(is_v4(data.id.0));
    }
    let after = engine.get_frame_data(first, 31);
    assert_eq!(after.frame_type, FrameType::Empty);
    assert_eq!(after.frame_number, 31);
    let second = LayerId::new("rustflash_layer_2".to_string());
    assert!(!engine.get_frame_data(second, 0).has_content);
}

#[test]
fn initial_layers_are_visible_unlocked_normal_layers() {
    let engine = RustFlashIntegration::new();
    let layers = engine.get_layers();
    assert_eq!(layers[0].id.0, "rustflash_layer_1");
    assert_eq!(layers[1].id.0, "rustflash_layer_2");
    for layer in &layers {
        assert_eq!(layer.layer_type, LayerType::Normal);
        assert!(layer.visible);
        assert!(!layer.locked);
        assert!(layer.parent_id.is_none());
        assert!(layer.children.is_empty());
    }
}

#[test]
fn added_layer_id_is_prefixed_uuid() {
    let mut engine = RustFlashIntegration::new();
    let id = engine.add_layer("Extra".to_string(), LayerType::Normal);
    let text = &id.0;
    assert!(text.starts_with("rustflash_layer_"));
    let uuid = &text["rustflash_layer_".len()..];
    assert_eq!(uuid.len(), 36);
    for (i, c) in uuid.chars().enumerate() {
        if i == 8 || i == 13 || i == 18 || i == 23 {
            assert_eq!(c, '-');
        } else {
            assert!(c.is_ascii_hexdigit() && !c.is_ascii_uppercase());
        }
    }
    assert_eq!(uuid.chars().nth(14), Some('4'));
}

#[test]
fn keyframe_id_is_random_v4() {
    let a = KeyframeId::new();
    let b = KeyframeId::new();
    assert!(is_v4(a.0));
    assert!(is_v4(b.0));
    assert_ne!(a, b);
}

#[test]
fn playback_wraps_at_the_end_only_while_playing() {
    let mut engine = RustFlashIntegration::new();
    engine.seek(99);
    engine.receive_state();
    assert_eq!(engine.get_current_frame(), 99);
    engine.play();
    engine.receive_state();
    assert_eq!(engine.get_current_frame(), 0);
    engine.receive_state();
    assert_eq!(engine.get_current_frame(), 1);
    engine.pause();
    engine.receive_state();
    assert_eq!(engine.get_current_frame(), 1);
}

#[test]
fn seek_to_the_end_stays_there() {
    let mut engine = RustFlashIntegration::new();
    engine.seek(100);
    assert_eq!(engine.get_current_frame(), 100);
    engine.seek(u32::MAX);
    assert_eq!(engine.get_current_frame(), 100);
    engine.seek(0);
    assert_eq!(engine.get_current_frame(), 0);
}

#[test]
fn moved_keyframe_keeps_its_data() {
    let mut engine = RustFlashIntegration::new();
    let layer = LayerId::new("rustflash_layer_1".to_string());
    let before = engine.get_frame_data(layer.clone(), 15);
    engine.move_keyframe(layer.clone(), 15, 50);
    let moved = engine.get_frame_data(layer.clone(), 50);
    assert_eq!(moved, before);
    assert_eq!(moved.frame_number, 15);
    assert_eq!(engine.get_frame_data(layer.clone(), 15).frame_type, FrameType::Empty);
    // moving from an empty frame changes nothing
    engine.move_keyframe(layer.clone(), 70, 80);
    assert!(!engine.get_frame_data(layer, 80).has_content);
}

#[test]
fn pasted_frame_is_the_copied_one() {
    let mut engine = RustFlashIntegration::new();
    let layer = LayerId::new("rustflash_layer_1".to_string());
    let copied = engine.copy_keyframe(layer.clone(), 0).unwrap();
    let target = LayerId::new("rustflash_layer_2".to_string());
    engine.paste_keyframe(target.clone(), 5, copied);
    assert_eq!(engine.get_frame_data(target, 5), copied);
    assert_eq!(engine.get_frame_data(layer.clone(), 0), copied);
    assert!(engine.copy_keyframe(layer, 99).is_none());
}

#[test]
fn inserted_keyframe_replaces_tween() {
    let mut engine = RustFlashIntegration::new();
    let layer = LayerId::new("rustflash_layer_1".to_string());
    let tween = engine.get_frame_data(layer.clone(), 3);
    assert_eq!(tween.frame_type, FrameType::Tween);
    engine.insert_keyframe(layer.clone(), 3);
    let key = engine.get_frame_data(layer.clone(), 3);
    assert_eq!(key.frame_type, FrameType::Keyframe);
    assert_ne!(key.id, tween.id);
    engine.clear_keyframe(layer.clone(), 3);
    assert_eq!(engine.get_frame_data(layer, 3).frame_type, FrameType::Empty);
}

#[test]
fn unknown_property_and_layer_change_nothing() {
    let mut engine = RustFlashIntegration::new();
    let layers = engine.get_layers();
    let id = layers[1].id.clone();
    engine.set_property(id.clone(), 0, "opacity", false);
    assert_eq!(engine.get_layers(), layers);
    assert!(!engine.get_property(id.clone(), 0, "opacity"));
    let missing = LayerId::new("missing".to_string());
    engine.set_property(missing.clone(), 0, "visible", false);
    assert_eq!(engine.get_layers(), layers);
    assert!(!engine.get_property(missing, 0, "visible"));
    engine.set_property(id.clone(), 0, "locked", true);
    assert!(engine.get_property(id.clone(), 0, "visible"));
    assert!(engine.get_property(id, 0, "locked"));
}

#[test]
fn duplicate_of_missing_layer_adds_layer_copy() {
    let mut engine = RustFlashIntegration::new();
    let id = engine.duplicate_layer(LayerId::new("missing".to_string()));
    let layers = engine.get_layers();
    assert_eq!(layers.len(), 3);
    assert_eq!(layers[2].id, id);
    assert_eq!(layers[2].name, "Layer copy");
    assert_eq!(layers[2].layer_type, LayerType::Normal);
}

#[test]
fn delete_layer_removes_every_match_and_rename_only_the_first() {
    let mut engine = RustFlashIntegration::new();
    let first = LayerId::new("rustflash_layer_1".to_string());
    engine.rename_layer(first.clone(), "Hero".to_string());
    assert_eq!(engine.get_layers()[0].name, "Hero");
    engine.delete_layer(first.clone());
    let layers = engine.get_layers();
    assert_eq!(layers.len(), 1);
    assert_eq!(layers[0].name, "Background");
    engine.rename_layer(first, "Ghost".to_string());
    assert_eq!(engine.get_layers(), layers);
}

#[test]
fn passthrough_requests_change_nothing() {
    let mut engine = RustFlashIntegration::new();
    let layer = LayerId::new("rustflash_layer_1".to_string());
    let before = engine.get_layers();
    engine.insert_frame(layer.clone(), 1);
    engine.remove_frame(layer.clone(), 1);
    engine.create_shape_tween(layer.clone(), 1);
    assert_eq!(engine.get_layers(), before);
    assert_eq!(engine.get_frame_data(layer, 1).frame_type, FrameType::Tween);
}

#[test]
fn demo_leaves_renamed_layer_with_moved_keyframe() {
    let engine = demo_rustflash_integration();
    assert_eq!(engine.get_current_frame(), 15);
    let layers = engine.get_layers();
    assert_eq!(layers.len(), 3);
    assert_eq!(layers[0].name, "Animation");
    assert_eq!(layers[2].name, "Renamed Layer");
    assert!(layers[2].id.0.starts_with("rustflash_layer_"));
    let moved = engine.get_frame_data(layers[2].id.clone(), 20);
    assert_eq!(moved.frame_type, FrameType::Keyframe);
    assert_eq!(moved.frame_number, 10);
    assert!(moved.has_content);
    assert_eq!(engine.get_frame_data(layers[2].id.clone(), 10).frame_type, FrameType::Empty);
}
