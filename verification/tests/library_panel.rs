use timeline_demo::color::Rgba;
use timeline_demo::library::{
    asset_display_name, asset_tree, classify_extension, default_library_assets,
    import_dropped_file, linked_assets, toggle_folder, ImportOutcome, LibraryAsset,
    LibraryAssetType,
};
use timeline_demo::placement::{
    asset_instance_blueprint, dropped_asset_blueprint, duplicate_labels, menu_blueprint,
    pasted_labels, tool_click, BlueprintColor,
    BlueprintFont, BlueprintSize, ToolClick,
};
use timeline_demo::stage::StageItemType;
use timeline_demo::tools::Tool;

#[test]
fn default_library_holds_eight_assets() {
    let assets = default_library_assets();
    let ids: Vec<&str> = assets.iter().map(|a| a.id.as_str()).collect();
    assert_eq!(
        ids,
        vec![
            "logo_mc",
            "button_mc",
            "star_graphic",
            "background_jpg",
            "icon_png",
            "bgm_mp3",
            "click_wav",
            "arial_font"
        ]
    );
    assert_eq!(assets[0].asset_type, LibraryAssetType::MovieClip);
    assert_eq!(assets[0].properties.linkage_class.as_deref(), Some("LogoSymbol"));
    assert_eq!(assets[3].properties.dimensions, Some((1920, 1080)));
    assert_eq!(assets[3].properties.file_size, Some(245760));
    assert_eq!(assets[5].name, "Background Music");
    assert_eq!(assets[5].folder, "Sounds");
    assert_eq!(assets[7].properties.usage_count, 10);
    assert_eq!(assets[7].properties.format.as_deref(), Some("TTF"));
}

#[test]
fn asset_constructors_fill_plain_properties() {
    let clip = LibraryAsset::new_movieclip("m".to_string(), "Clip".to_string(), "F".to_string());
    assert_eq!(clip.asset_type, LibraryAssetType::MovieClip);
    assert_eq!(clip.properties.usage_count, 0);
    assert!(clip.properties.format.is_none());
    let g = LibraryAsset::new_graphic("g".to_string(), "G".to_string(), "F".to_string());
    assert_eq!(g.asset_type, LibraryAssetType::Graphic);
    let b = LibraryAsset::new_bitmap("b".to_string(), "B".to_string(), "F".to_string(), (3, 4), 99);
    assert_eq!(b.asset_type, LibraryAssetType::Bitmap);
    assert_eq!(b.properties.dimensions, Some((3, 4)));
    assert_eq!(b.properties.file_size, Some(99));
    assert_eq!(b.properties.format.as_deref(), Some("PNG"));
}

#[test]
fn asset_type_icons_and_labels() {
    assert_eq!(LibraryAssetType::Sound.label(), "Sound");
    assert_eq!(LibraryAssetType::Font.icon(), "🔤");
    assert_eq!(LibraryAssetType::Folder.icon(), "📁");
    assert_eq!(LibraryAssetType::MovieClip.label(), "MovieClip");
}

#[test]
fn extensions_are_classified() {
    assert_eq!(classify_extension("png"), Some((LibraryAssetType::Bitmap, "image/*")));
    assert_eq!(classify_extension("ogg"), Some((LibraryAssetType::Sound, "audio/*")));
    assert_eq!(classify_extension("webm"), Some((LibraryAssetType::Video, "video/*")));
    assert_eq!(classify_extension("woff2"), Some((LibraryAssetType::Font, "font/*")));
    assert_eq!(classify_extension("PNG"), None);
    assert_eq!(classify_extension("txt"), None);
}

#[test]
fn importing_a_bitmap_adds_it_and_places_it() {
    let mut assets = default_library_assets();
    let outcome = import_dropped_file(&mut assets, "photo.PNG".to_string(), "PNG", 1234);
    match outcome {
        ImportOutcome::Imported { asset_type, mime, place_on_stage } => {
            assert_eq!(asset_type, LibraryAssetType::Bitmap);
            assert_eq!(mime, "image/*");
            assert!(place_on_stage);
        }
        other => panic!("unexpected {:?}", other),
    }
    assert_eq!(assets.len(), 9);
    let added = &assets[8];
    assert_eq!(added.id, "asset_9");
    assert_eq!(added.name, "photo.PNG");
    assert_eq!(added.folder, "Imported");
    assert_eq!(added.properties.dimensions, Some((100, 100)));
    assert_eq!(added.properties.format.as_deref(), Some("PNG"));
    assert_eq!(added.properties.file_size, Some(1234));
}

#[test]
fn importing_a_sound_records_upper_case_format() {
    let mut assets = Vec::new();
    let outcome = import_dropped_file(&mut assets, "beep.mp3".to_string(), "mp3", 10);
    match outcome {
        ImportOutcome::Imported { asset_type, mime, place_on_stage } => {
            assert_eq!(asset_type, LibraryAssetType::Sound);
            assert_eq!(mime, "audio/*");
            assert!(!place_on_stage);
        }
        other => panic!("unexpected {:?}", other),
    }
    assert_eq!(assets[0].id, "asset_1");
    assert_eq!(assets[0].properties.format.as_deref(), Some("MP3"));
    assert!(assets[0].properties.dimensions.is_none());
}

#[test]
fn importing_an_unsupported_file_changes_nothing() {
    let mut assets = default_library_assets();
    let outcome = import_dropped_file(&mut assets, "notes.TXT".to_string(), "TXT", 5);
    match outcome {
        ImportOutcome::Unsupported { extension } => assert_eq!(extension, "txt"),
        other => panic!("unexpected {:?}", other),
    }
    assert_eq!(assets.len(), 8);
}

#[test]
fn display_name_finds_first_asset_or_unknown() {
    let assets = default_library_assets();
    assert_eq!(asset_display_name(&assets, &"icon_png".to_string()), "Icon");
    assert_eq!(asset_display_name(&assets, &"missing".to_string()), "Unknown");
}

#[test]
fn toggling_a_folder_twice_restores_open_folders() {
    let mut open = vec!["Graphics".to_string()];
    assert!(toggle_folder(&mut open, "Sounds".to_string()));
    assert_eq!(open, vec!["Graphics".to_string(), "Sounds".to_string()]);
    assert!(!toggle_folder(&mut open, "Sounds".to_string()));
    assert_eq!(open, vec!["Graphics".to_string()]);
}

#[test]
fn closing_a_folder_removes_every_entry_of_it() {
    let mut open = vec!["A".to_string(), "B".to_string(), "A".to_string()];
    assert!(!toggle_folder(&mut open, "A".to_string()));
    assert_eq!(open, vec!["B".to_string()]);
}

#[test]
fn asset_tree_groups_fixed_folders_first() {
    let mut assets = default_library_assets();
    let _ = import_dropped_file(&mut assets, "clip.mov".to_string(), "mov", 1);
    let groups = asset_tree(&assets, "");
    let folders: Vec<&str> = groups.iter().map(|g| g.folder.as_str()).collect();
    assert_eq!(folders, vec!["Sounds", "Fonts", "Bitmaps", "Graphics", "Imported"]);
    let sounds: Vec<&str> = groups[0].assets.iter().map(|a| a.id.as_str()).collect();
    assert_eq!(sounds, vec!["bgm_mp3", "click_wav"]);
    assert_eq!(groups[3].assets.len(), 3);
    assert_eq!(groups[4].assets[0].name, "clip.mov");
}

#[test]
fn asset_tree_search_ignores_case_and_keeps_empty_fixed_folders() {
    let assets = default_library_assets();
    let groups = asset_tree(&assets, "BACK");
    assert_eq!(groups.len(), 4);
    let names: Vec<Vec<&str>> = groups
        .iter()
        .map(|g| g.assets.iter().map(|a| a.name.as_str()).collect())
        .collect();
    assert_eq!(names[0], vec!["Background Music"]);
    assert!(names[1].is_empty());
    assert_eq!(names[2], vec!["Background"]);
    assert!(names[3].is_empty());
}

#[test]
fn dropping_assets_makes_matching_items() {
    let clip = dropped_asset_blueprint(LibraryAssetType::MovieClip, "Logo", 2);
    assert_eq!(clip.id, "instance_3");
    assert_eq!(clip.name, "Logo_instance");
    assert_eq!(clip.item_type, StageItemType::MovieClip);
    assert_eq!(clip.size, BlueprintSize::Fixed { width: 80, height: 60 });
    assert_eq!(clip.color, BlueprintColor::Preset(Rgba::from_rgb(173, 216, 230)));
    let button = dropped_asset_blueprint(LibraryAssetType::Button, "OK", 0);
    assert_eq!(button.id, "button_1");
    assert_eq!(button.text_content, "Button");
    assert_eq!(button.font, BlueprintFont::Preset { size: 14 });
    let sound = dropped_asset_blueprint(LibraryAssetType::Sound, "Beep", 9);
    assert_eq!(sound.id, "asset_10");
    assert_eq!(sound.name, "Beep_asset");
    assert_eq!(sound.color, BlueprintColor::Preset(Rgba::from_gray(160)));
}

#[test]
fn imported_asset_instances() {
    let assets = default_library_assets();
    let logo = asset_instance_blueprint(&assets[0], 4).unwrap();
    assert_eq!(logo.id, "logo_mc_5");
    assert_eq!(logo.name, "Logo Instance");
    assert_eq!(logo.item_type, StageItemType::MovieClip);
    assert_eq!(logo.size, BlueprintSize::Fixed { width: 100, height: 100 });
    let background = asset_instance_blueprint(&assets[3], 0).unwrap();
    assert_eq!(background.item_type, StageItemType::Rectangle);
    assert_eq!(background.size, BlueprintSize::Fixed { width: 1920, height: 1080 });
    assert_eq!(background.color, BlueprintColor::Preset(Rgba::from_rgb(255, 255, 255)));
    assert!(asset_instance_blueprint(&assets[5], 0).is_none());
}

#[test]
fn tool_clicks_create_or_act() {
    assert!(matches!(tool_click(Tool::Arrow, 0), ToolClick::ClearSelection));
    assert!(matches!(tool_click(Tool::Hand, 0), ToolClick::Pan));
    assert!(matches!(tool_click(Tool::Zoom, 0), ToolClick::Zoom));
    assert!(matches!(tool_click(Tool::Eraser, 0), ToolClick::Report));
    match tool_click(Tool::Rectangle, 6) {
        ToolClick::Create(b) => {
            assert_eq!(b.id, "rect_7");
            assert_eq!(b.name, "Rectangle 7");
            assert_eq!(b.color, BlueprintColor::Fill);
        }
        other => panic!("unexpected {:?}", other),
    }
    match tool_click(Tool::Text, 0) {
        ToolClick::Create(b) => {
            assert_eq!(b.text_content, "New Text");
            assert_eq!(b.font, BlueprintFont::Tool);
        }
        other => panic!("unexpected {:?}", other),
    }
    match tool_click(Tool::Brush, 1) {
        ToolClick::Create(b) => {
            assert_eq!(b.name, "Brush Stroke 2");
            assert_eq!(b.size, BlueprintSize::Brush);
            assert_eq!(b.color, BlueprintColor::Stroke);
        }
        other => panic!("unexpected {:?}", other),
    }
}

#[test]
fn context_menu_add_entries() {
    let rect = menu_blueprint(StageItemType::Rectangle, 0);
    assert_eq!(rect.id, "rect_1");
    assert_eq!(rect.color, BlueprintColor::Preset(Rgba::from_rgb(150, 150, 255)));
    let text = menu_blueprint(StageItemType::Text, 3);
    assert_eq!(text.name, "Text 4");
    assert_eq!(text.text_content, "Sample Text");
    assert_eq!(text.font, BlueprintFont::Preset { size: 18 });
    let clip = menu_blueprint(StageItemType::Path, 1);
    assert_eq!(clip.id, "mc_2");
    assert_eq!(clip.item_type, StageItemType::MovieClip);
}

#[test]
fn duplicate_and_paste_labels() {
    let (id, name) = duplicate_labels("rect1", "Blue Rectangle");
    assert_eq!(id, "rect1_copy");
    assert_eq!(name, "Blue Rectangle Copy");
    let (id, name) = pasted_labels("circle1", "Red Circle", 4);
    assert_eq!(id, "circle1_pasted_4");
    assert_eq!(name, "Red Circle (Pasted)");
}

#[test]
fn linked_assets_lists_exported_symbols_in_order() {
    let assets = default_library_assets();
    assert_eq!(linked_assets(&assets), vec![0, 1, 5]);
    assert!(linked_assets(&Vec::new()).is_empty());
}
