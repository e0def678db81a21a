//! What a new stage item is made of, decided when the user drops a library
//! asset on the stage, imports a file, clicks with a drawing tool or picks
//! an "Add" entry of the stage's context menu. The position where the item
//! lands is the caller's; everything else about it is decided here.

use vstd::prelude::*;
use crate::color::Rgba;
use crate::library::{LibraryAsset, LibraryAssetType};
use crate::stage::StageItemType;
use crate::text::{decimal, numbered};
use crate::tools::Tool;

verus! {

/// The size of a new item.
#[derive(Clone, Copy, PartialEq, Eq, Debug, Structural)]
pub enum BlueprintSize {
    /// A fixed width and height.
    Fixed { width: u32, height: u32 },
    /// A square as wide as the brush tool's current size.
    Brush,
}

/// The color of a new item.
#[derive(Clone, Copy, PartialEq, Eq, Debug, Structural)]
pub enum BlueprintColor {
    /// A color of its own.
    Preset(Rgba),
    /// The tools' current fill color.
    Fill,
    /// The tools' current stroke color.
    Stroke,
}

/// The font of a new item.
#[derive(Clone, Copy, PartialEq, Eq, Debug, Structural)]
pub enum BlueprintFont {
    /// Arial at the given size in points.
    Preset { size: u32 },
    /// The text tool's current font and size.
    Tool,
}

/// A new stage item, all but its position.
#[derive(Debug)]
pub struct ItemBlueprint {
    pub id: String,
    pub name: String,
    pub item_type: StageItemType,
    pub size: BlueprintSize,
    pub color: BlueprintColor,
    pub text_content: String,
    pub font: BlueprintFont,
}

/// Whether `b` is the blueprint with exactly these values.
pub open spec fn is_blueprint(
    b: ItemBlueprint,
    id: Seq<char>,
    name: Seq<char>,
    item_type: StageItemType,
    size: BlueprintSize,
    color: BlueprintColor,
    text_content: Seq<char>,
    font: BlueprintFont,
) -> bool {
    &&& b.id@ == id
    &&& b.name@ == name
    &&& b.item_type == item_type
    &&& b.size == size
    &&& b.color == color
    &&& b.text_content@ == text_content
    &&& b.font == font
}

fn blueprint(
    id: String,
    name: String,
    item_type: StageItemType,
    size: BlueprintSize,
    color: BlueprintColor,
    text_content: &str,
    font: BlueprintFont,
) -> (b: ItemBlueprint)
    ensures
        is_blueprint(b, id@, name@, item_type, size, color, text_content@, font),
{
    ItemBlueprint { id, name, item_type, size, color, text_content: String::from_str(text_content), font }
}

fn fixed(width: u32, height: u32) -> (s: BlueprintSize)
    ensures
        s == (BlueprintSize::Fixed { width, height }),
{
    BlueprintSize::Fixed { width, height }
}

fn preset(r: u8, g: u8, b: u8) -> (c: BlueprintColor)
    ensures
        c == BlueprintColor::Preset(Rgba { r, g, b, a: 255 }),
{
    BlueprintColor::Preset(Rgba::from_rgb(r, g, b))
}

/// `name` followed by `suffix`.
fn suffixed(name: &str, suffix: &str) -> (t: String)
    ensures
        t@ == name@ + suffix@,
{
    String::from_str(name).concat(suffix)
}

/// The item that dropping a library asset of the given kind and name on the
/// stage creates, when the stage holds `item_count` items: an instance of a
/// movie clip, a rectangle standing for a graphic, a bitmap, a button or any
/// other asset.
pub open spec fn dropped_asset_item(b: ItemBlueprint, asset_type: LibraryAssetType, asset_name: Seq<char>, item_count: nat) -> bool {
    let n = decimal(item_count + 1);
    match asset_type {
        LibraryAssetType::MovieClip => is_blueprint(b, "instance_"@ + n, asset_name + "_instance"@,
            StageItemType::MovieClip, BlueprintSize::Fixed { width: 80, height: 60 },
            BlueprintColor::Preset(Rgba { r: 173, g: 216, b: 230, a: 255 }), ""@,
            BlueprintFont::Preset { size: 16 }),
        LibraryAssetType::Graphic => is_blueprint(b, "graphic_"@ + n, asset_name + "_graphic"@,
            StageItemType::Rectangle, BlueprintSize::Fixed { width: 100, height: 60 },
            BlueprintColor::Preset(Rgba { r: 0, g: 255, b: 0, a: 255 }), ""@,
            BlueprintFont::Preset { size: 16 }),
        LibraryAssetType::Bitmap => is_blueprint(b, "bitmap_"@ + n, asset_name + "_bitmap"@,
            StageItemType::Rectangle, BlueprintSize::Fixed { width: 120, height: 80 },
            BlueprintColor::Preset(Rgba { r: 255, g: 255, b: 0, a: 255 }), ""@,
            BlueprintFont::Preset { size: 16 }),
        LibraryAssetType::Button => is_blueprint(b, "button_"@ + n, asset_name + "_button"@,
            StageItemType::Rectangle, BlueprintSize::Fixed { width: 100, height: 30 },
            BlueprintColor::Preset(Rgba { r: 220, g: 220, b: 220, a: 255 }), "Button"@,
            BlueprintFont::Preset { size: 14 }),
        _ => is_blueprint(b, "asset_"@ + n, asset_name + "_asset"@, StageItemType::Rectangle,
            BlueprintSize::Fixed { width: 60, height: 60 },
            BlueprintColor::Preset(Rgba { r: 160, g: 160, b: 160, a: 255 }), ""@,
            BlueprintFont::Preset { size: 16 }),
    }
}

/// The item created when a library asset is dropped on a stage of
/// `item_count` items.
pub fn dropped_asset_blueprint(asset_type: LibraryAssetType, asset_name: &str, item_count: usize) -> (b: ItemBlueprint)
    requires
        item_count < usize::MAX,
    ensures
        dropped_asset_item(b, asset_type, asset_name@, item_count as nat),
{
    let n = item_count + 1;
    match asset_type {
        LibraryAssetType::MovieClip => blueprint(numbered("instance_", n), suffixed(asset_name, "_instance"),
            StageItemType::MovieClip, fixed(80, 60), preset(173, 216, 230), "",
            BlueprintFont::Preset { size: 16 }),
        LibraryAssetType::Graphic => blueprint(numbered("graphic_", n), suffixed(asset_name, "_graphic"),
            StageItemType::Rectangle, fixed(100, 60), preset(0, 255, 0), "",
            BlueprintFont::Preset { size: 16 }),
        LibraryAssetType::Bitmap => blueprint(numbered("bitmap_", n), suffixed(asset_name, "_bitmap"),
            StageItemType::Rectangle, fixed(120, 80), preset(255, 255, 0), "",
            BlueprintFont::Preset { size: 16 }),
        LibraryAssetType::Button => blueprint(numbered("button_", n), suffixed(asset_name, "_button"),
            StageItemType::Rectangle, fixed(100, 30), preset(220, 220, 220), "Button",
            BlueprintFont::Preset { size: 14 }),
        _ => blueprint(numbered("asset_", n), suffixed(asset_name, "_asset"), StageItemType::Rectangle,
            fixed(60, 60), preset(160, 160, 160), "", BlueprintFont::Preset { size: 16 }),
    }
}

/// The instance that an imported asset places on a stage of `item_count`
/// items: symbols become a movie clip, a bitmap becomes a white rectangle of
/// its dimensions (100 by 100 when it has none); other assets place nothing.
pub open spec fn asset_instance(b: Option<ItemBlueprint>, asset: LibraryAsset, item_count: nat) -> bool {
    let id = asset.id@ + "_"@ + decimal(item_count + 1);
    let name = asset.name@ + " Instance"@;
    match asset.asset_type {
        LibraryAssetType::MovieClip | LibraryAssetType::Button | LibraryAssetType::Graphic => b matches Some(x)
            && is_blueprint(x, id, name, StageItemType::MovieClip,
            BlueprintSize::Fixed { width: 100, height: 100 },
            BlueprintColor::Preset(Rgba { r: 150, g: 255, b: 150, a: 255 }), ""@,
            BlueprintFont::Preset { size: 16 }),
        LibraryAssetType::Bitmap => b matches Some(x) && is_blueprint(x, id, name,
            StageItemType::Rectangle, match asset.properties.dimensions {
                Some((w, h)) => BlueprintSize::Fixed { width: w, height: h },
                None => BlueprintSize::Fixed { width: 100, height: 100 },
            }, BlueprintColor::Preset(Rgba { r: 255, g: 255, b: 255, a: 255 }), ""@,
            BlueprintFont::Preset { size: 16 }),
        _ => b is None,
    }
}

/// The instance of `asset` placed on a stage of `item_count` items, if any.
pub fn asset_instance_blueprint(asset: &LibraryAsset, item_count: usize) -> (b: Option<ItemBlueprint>)
    requires
        item_count < usize::MAX,
    ensures
        asset_instance(b, *asset, item_count as nat),
{
    let number = numbered("_", item_count + 1);
    let id = String::from_str(asset.id.as_str()).concat(number.as_str());
    assert(id@ == asset.id@ + "_"@ + decimal(item_count as nat + 1));
    let name = suffixed(asset.name.as_str(), " Instance");
    match asset.asset_type {
        LibraryAssetType::MovieClip | LibraryAssetType::Button | LibraryAssetType::Graphic => Some(
            blueprint(id, name, StageItemType::MovieClip, fixed(100, 100), preset(150, 255, 150), "",
                BlueprintFont::Preset { size: 16 }),
        ),
        LibraryAssetType::Bitmap => {
            let size = match asset.properties.dimensions {
                Some((w, h)) => fixed(w, h),
                None => fixed(100, 100),
            };
            Some(blueprint(id, name, StageItemType::Rectangle, size, preset(255, 255, 255), "",
                BlueprintFont::Preset { size: 16 }))
        },
        _ => None,
    }
}

/// What a click on the empty stage does with the active tool.
#[derive(Debug)]
pub enum ToolClick {
    /// The selection tool deselects everything.
    ClearSelection,
    /// A drawing tool creates an item.
    Create(ItemBlueprint),
    /// The hand tool would pan the view.
    Pan,
    /// The zoom tool would zoom the view.
    Zoom,
    /// Any other tool is only reported.
    Report,
}

/// What clicking the empty stage with `tool` does, on a stage of
/// `item_count` items.
pub open spec fn tool_click_outcome(outcome: ToolClick, tool: Tool, item_count: nat) -> bool {
    let n = decimal(item_count + 1);
    match tool {
        Tool::Arrow => outcome is ClearSelection,
        Tool::Rectangle => outcome matches ToolClick::Create(b) && is_blueprint(b, "rect_"@ + n,
            "Rectangle "@ + n, StageItemType::Rectangle, BlueprintSize::Fixed { width: 100, height: 60 },
            BlueprintColor::Fill, ""@, BlueprintFont::Preset { size: 16 }),
        Tool::Oval => outcome matches ToolClick::Create(b) && is_blueprint(b, "oval_"@ + n,
            "Circle "@ + n, StageItemType::Circle, BlueprintSize::Fixed { width: 80, height: 80 },
            BlueprintColor::Fill, ""@, BlueprintFont::Preset { size: 16 }),
        Tool::Text => outcome matches ToolClick::Create(b) && is_blueprint(b, "text_"@ + n,
            "Text "@ + n, StageItemType::Text, BlueprintSize::Fixed { width: 120, height: 30 },
            BlueprintColor::Fill, "New Text"@, BlueprintFont::Tool),
        Tool::Line => outcome matches ToolClick::Create(b) && is_blueprint(b, "line_"@ + n,
            "Line "@ + n, StageItemType::Rectangle, BlueprintSize::Fixed { width: 100, height: 2 },
            BlueprintColor::Stroke, ""@, BlueprintFont::Preset { size: 16 }),
        Tool::Pen => outcome matches ToolClick::Create(b) && is_blueprint(b, "path_"@ + n,
            "Path "@ + n, StageItemType::Circle, BlueprintSize::Fixed { width: 8, height: 8 },
            BlueprintColor::Stroke, ""@, BlueprintFont::Preset { size: 16 }),
        Tool::Pencil => outcome matches ToolClick::Create(b) && is_blueprint(b, "pencil_"@ + n,
            "Pencil Mark "@ + n, StageItemType::Circle, BlueprintSize::Fixed { width: 4, height: 4 },
            BlueprintColor::Stroke, ""@, BlueprintFont::Preset { size: 16 }),
        Tool::Brush => outcome matches ToolClick::Create(b) && is_blueprint(b, "brush_"@ + n,
            "Brush Stroke "@ + n, StageItemType::Circle, BlueprintSize::Brush, BlueprintColor::Stroke,
            ""@, BlueprintFont::Preset { size: 16 }),
        Tool::Hand => outcome is Pan,
        Tool::Zoom => outcome is Zoom,
        _ => outcome is Report,
    }
}

/// What clicking the empty stage with `tool` does.
pub fn tool_click(tool: Tool, item_count: usize) -> (outcome: ToolClick)
    requires
        item_count < usize::MAX,
    ensures
        tool_click_outcome(outcome, tool, item_count as nat),
{
    let n = item_count + 1;
    let default_font = BlueprintFont::Preset { size: 16 };
    match tool {
        Tool::Arrow => ToolClick::ClearSelection,
        Tool::Rectangle => ToolClick::Create(blueprint(numbered("rect_", n), numbered("Rectangle ", n),
            StageItemType::Rectangle, fixed(100, 60), BlueprintColor::Fill, "", default_font)),
        Tool::Oval => ToolClick::Create(blueprint(numbered("oval_", n), numbered("Circle ", n),
            StageItemType::Circle, fixed(80, 80), BlueprintColor::Fill, "", default_font)),
        Tool::Text => ToolClick::Create(blueprint(numbered("text_", n), numbered("Text ", n),
            StageItemType::Text, fixed(120, 30), BlueprintColor::Fill, "New Text", BlueprintFont::Tool)),
        Tool::Line => ToolClick::Create(blueprint(numbered("line_", n), numbered("Line ", n),
            StageItemType::Rectangle, fixed(100, 2), BlueprintColor::Stroke, "", default_font)),
        Tool::Pen => ToolClick::Create(blueprint(numbered("path_", n), numbered("Path ", n),
            StageItemType::Circle, fixed(8, 8), BlueprintColor::Stroke, "", default_font)),
        Tool::Pencil => ToolClick::Create(blueprint(numbered("pencil_", n), numbered("Pencil Mark ", n),
            StageItemType::Circle, fixed(4, 4), BlueprintColor::Stroke, "", default_font)),
        Tool::Brush => ToolClick::Create(blueprint(numbered("brush_", n), numbered("Brush Stroke ", n),
            StageItemType::Circle, BlueprintSize::Brush, BlueprintColor::Stroke, "", default_font)),
        Tool::Hand => ToolClick::Pan,
        Tool::Zoom => ToolClick::Zoom,
        _ => ToolClick::Report,
    }
}

/// The item that an "Add" entry of the stage's context menu creates on a
/// stage of `item_count` items.
pub open spec fn menu_item(b: ItemBlueprint, kind: StageItemType, item_count: nat) -> bool {
    let n = decimal(item_count + 1);
    match kind {
        StageItemType::Rectangle => is_blueprint(b, "rect_"@ + n, "Rectangle "@ + n, kind,
            BlueprintSize::Fixed { width: 100, height: 60 },
            BlueprintColor::Preset(Rgba { r: 150, g: 150, b: 255, a: 255 }), "Default Text"@,
            BlueprintFont::Preset { size: 16 }),
        StageItemType::Circle => is_blueprint(b, "circle_"@ + n, "Circle "@ + n, kind,
            BlueprintSize::Fixed { width: 80, height: 80 },
            BlueprintColor::Preset(Rgba { r: 255, g: 150, b: 150, a: 255 }), "Default Text"@,
            BlueprintFont::Preset { size: 16 }),
        StageItemType::Text => is_blueprint(b, "text_"@ + n, "Text "@ + n, kind,
            BlueprintSize::Fixed { width: 120, height: 30 },
            BlueprintColor::Preset(Rgba { r: 20, g: 20, b: 20, a: 255 }), "Sample Text"@,
            BlueprintFont::Preset { size: 18 }),
        _ => is_blueprint(b, "mc_"@ + n, "MovieClip "@ + n, StageItemType::MovieClip,
            BlueprintSize::Fixed { width: 120, height: 80 },
            BlueprintColor::Preset(Rgba { r: 150, g: 255, b: 150, a: 255 }), "Default Text"@,
            BlueprintFont::Preset { size: 16 }),
    }
}

/// The item that the context menu's "Add" entry for `kind` creates: a
/// rectangle, a circle, a text or (for any other kind) a movie clip.
pub fn menu_blueprint(kind: StageItemType, item_count: usize) -> (b: ItemBlueprint)
    requires
        item_count < usize::MAX,
    ensures
        menu_item(b, kind, item_count as nat),
{
    let n = item_count + 1;
    match kind {
        StageItemType::Rectangle => blueprint(numbered("rect_", n), numbered("Rectangle ", n), kind,
            fixed(100, 60), preset(150, 150, 255), "Default Text", BlueprintFont::Preset { size: 16 }),
        StageItemType::Circle => blueprint(numbered("circle_", n), numbered("Circle ", n), kind,
            fixed(80, 80), preset(255, 150, 150), "Default Text", BlueprintFont::Preset { size: 16 }),
        StageItemType::Text => blueprint(numbered("text_", n), numbered("Text ", n), kind,
            fixed(120, 30), preset(20, 20, 20), "Sample Text", BlueprintFont::Preset { size: 18 }),
        _ => blueprint(numbered("mc_", n), numbered("MovieClip ", n), StageItemType::MovieClip,
            fixed(120, 80), preset(150, 255, 150), "Default Text", BlueprintFont::Preset { size: 16 }),
    }
}

/// The identifier and name of a duplicate of an item: its own with "_copy"
/// and " Copy" appended.
pub fn duplicate_labels(id: &str, name: &str) -> (labels: (String, String))
    ensures
        labels.0@ == id@ + "_copy"@,
        labels.1@ == name@ + " Copy"@,
{
    (suffixed(id, "_copy"), suffixed(name, " Copy"))
}

/// The identifier and name of a pasted copy of an item, pasted onto a stage
/// of `item_count` items: "_pasted_" and the count after the identifier,
/// " (Pasted)" after the name.
pub fn pasted_labels(id: &str, name: &str, item_count: usize) -> (labels: (String, String))
    ensures
        labels.0@ == id@ + "_pasted_"@ + decimal(item_count as nat),
        labels.1@ == name@ + " (Pasted)"@,
{
    let number = numbered("_pasted_", item_count);
    let pasted_id = String::from_str(id).concat(number.as_str());
    assert(pasted_id@ =~= id@ + "_pasted_"@ + decimal(item_count as nat));
    (pasted_id, suffixed(name, " (Pasted)"))
}

/// The drawing tools make items of their own shape: the Oval, Pen, Pencil
/// and Brush tools make circles, the Rectangle and Line tools rectangles and
/// the Text tool texts, and the Oval, Rectangle and Text tools always create
/// an item. The Oval, Rectangle and Text tools make items of the same kind
/// and size as the context menu's "Add Circle", "Add Rectangle" and
/// "Add Text" on the same stage.
pub proof fn lemma_tools_draw_their_shapes(outcome: ToolClick, tool: Tool, menu: ItemBlueprint, n: nat)
    requires
        tool_click_outcome(outcome, tool, n),
    ensures
        outcome matches ToolClick::Create(b) ==> {
            &&& (b.item_type == StageItemType::Circle <==> (tool == Tool::Oval || tool == Tool::Pen
                || tool == Tool::Pencil || tool == Tool::Brush))
            &&& (b.item_type == StageItemType::Rectangle <==> (tool == Tool::Rectangle || tool
                == Tool::Line))
            &&& (b.item_type == StageItemType::Text <==> tool == Tool::Text)
        },
        tool == Tool::Oval || tool == Tool::Rectangle || tool == Tool::Text ==> outcome is Create,
        tool == Tool::Oval && menu_item(menu, StageItemType::Circle, n) ==> (outcome matches ToolClick::Create(b)
            && b.item_type == StageItemType::Circle && b.item_type == menu.item_type && b.size == menu.size),
        tool == Tool::Rectangle && menu_item(menu, StageItemType::Rectangle, n) ==> (outcome matches ToolClick::Create(b)
            && b.item_type == StageItemType::Rectangle && b.item_type == menu.item_type && b.size
            == menu.size),
        tool == Tool::Text && menu_item(menu, StageItemType::Text, n) ==> (outcome matches ToolClick::Create(b)
            && b.item_type == StageItemType::Text && b.item_type == menu.item_type && b.size == menu.size),
{
}

} // verus!
