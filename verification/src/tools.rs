//! The tools panel: the tools, their icons, names, keyboard shortcuts and
//! cursors, and the choice of a tool from the keys pressed in a frame.

use vstd::prelude::*;

verus! {

/// The mouse cursors that the editor shows.
#[derive(Clone, Copy, PartialEq, Eq, Debug, Structural)]
pub enum CursorKind {
    Default,
    PointingHand,
    Grab,
    ZoomIn,
    Text,
    NotAllowed,
    Crosshair,
    ResizeHorizontal,
    ResizeVertical,
    ResizeNeSw,
    ResizeNwSe,
}

/// The drawing and editing tools.
#[derive(Clone, Copy, PartialEq, Eq, Debug, Structural)]
pub enum Tool {
    // Selection tools
    Arrow,
    Subselection,
    Lasso,
    // Drawing tools
    Line,
    Pen,
    Pencil,
    Brush,
    Rectangle,
    Oval,
    PolyStar,
    // Text and paint tools
    Text,
    PaintBucket,
    InkBottle,
    Eyedropper,
    Eraser,
    // Transform tools
    FreeTransform,
    GradientTransform,
    Zoom,
    Hand,
}

/// The icon of a tool's button.
pub open spec fn tool_icon(tool: Tool) -> Seq<char> {
    match tool {
        Tool::Arrow => "↖"@,
        Tool::Subselection => "◇"@,
        Tool::Lasso => "⟡"@,
        Tool::Line => "╱"@,
        Tool::Pen => "⌐"@,
        Tool::Pencil => "✎"@,
        Tool::Brush => "🖌"@,
        Tool::Rectangle => "▭"@,
        Tool::Oval => "○"@,
        Tool::PolyStar => "⬟"@,
        Tool::Text => "A"@,
        Tool::PaintBucket => "▣"@,
        Tool::InkBottle => "🖋"@,
        Tool::Eyedropper => "🔍"@,
        Tool::Eraser => "▤"@,
        Tool::FreeTransform => "⤢"@,
        Tool::GradientTransform => "◐"@,
        Tool::Zoom => "⊕"@,
        Tool::Hand => "✋"@,
    }
}

/// The name of a tool, as its tooltip and the console show it.
pub open spec fn tool_name(tool: Tool) -> Seq<char> {
    match tool {
        Tool::Arrow => "Selection Tool"@,
        Tool::Subselection => "Subselection Tool"@,
        Tool::Lasso => "Lasso Tool"@,
        Tool::Line => "Line Tool"@,
        Tool::Pen => "Pen Tool"@,
        Tool::Pencil => "Pencil Tool"@,
        Tool::Brush => "Brush Tool"@,
        Tool::Rectangle => "Rectangle Tool"@,
        Tool::Oval => "Oval Tool"@,
        Tool::PolyStar => "PolyStar Tool"@,
        Tool::Text => "Text Tool"@,
        Tool::PaintBucket => "Paint Bucket Tool"@,
        Tool::InkBottle => "Ink Bottle Tool"@,
        Tool::Eyedropper => "Eyedropper Tool"@,
        Tool::Eraser => "Eraser Tool"@,
        Tool::FreeTransform => "Free Transform Tool"@,
        Tool::GradientTransform => "Gradient Transform Tool"@,
        Tool::Zoom => "Zoom Tool"@,
        Tool::Hand => "Hand Tool"@,
    }
}

/// The keyboard shortcut of a tool; the PolyStar tool has none.
pub open spec fn tool_shortcut(tool: Tool) -> Option<char> {
    match tool {
        Tool::Arrow => Some('V'),
        Tool::Subselection => Some('A'),
        Tool::Lasso => Some('L'),
        Tool::Line => Some('N'),
        Tool::Pen => Some('P'),
        Tool::Pencil => Some('Y'),
        Tool::Brush => Some('B'),
        Tool::Rectangle => Some('R'),
        Tool::Oval => Some('O'),
        Tool::Text => Some('T'),
        Tool::PaintBucket => Some('K'),
        Tool::InkBottle => Some('S'),
        Tool::Eyedropper => Some('I'),
        Tool::Eraser => Some('E'),
        Tool::FreeTransform => Some('Q'),
        Tool::GradientTransform => Some('F'),
        Tool::Zoom => Some('Z'),
        Tool::Hand => Some('H'),
        Tool::PolyStar => None,
    }
}

/// The cursor over the empty stage while a tool is active: the drawing
/// tools get a crosshair.
pub open spec fn tool_cursor(tool: Tool) -> CursorKind {
    match tool {
        Tool::Arrow => CursorKind::Default,
        Tool::Hand => CursorKind::Grab,
        Tool::Zoom => CursorKind::ZoomIn,
        Tool::Text => CursorKind::Text,
        Tool::Eraser => CursorKind::NotAllowed,
        _ => CursorKind::Crosshair,
    }
}

/// The cursor over a stage item while a tool is active: as over the empty
/// stage, except that the selection tool shows a pointing hand.
pub open spec fn tool_item_cursor(tool: Tool) -> CursorKind {
    match tool {
        Tool::Arrow => CursorKind::PointingHand,
        _ => tool_cursor(tool),
    }
}

/// The tools in the order in which their shortcut keys are tested.
pub open spec fn shortcut_order() -> Seq<Tool> {
    seq![
        Tool::Arrow,
        Tool::Subselection,
        Tool::Lasso,
        Tool::Line,
        Tool::Pen,
        Tool::Pencil,
        Tool::Brush,
        Tool::Rectangle,
        Tool::Oval,
        Tool::Text,
        Tool::PaintBucket,
        Tool::InkBottle,
        Tool::Eyedropper,
        Tool::Eraser,
        Tool::FreeTransform,
        Tool::GradientTransform,
        Tool::Zoom,
        Tool::Hand,
    ]
}

/// The first tool of `order` whose shortcut key is among `pressed`.
pub open spec fn first_pressed_tool(order: Seq<Tool>, pressed: Seq<char>) -> Option<Tool>
    decreases order.len(),
{
    if order.len() == 0 {
        None
    } else if tool_shortcut(order[0]) matches Some(c) && pressed.contains(c) {
        Some(order[0])
    } else {
        first_pressed_tool(order.drop_first(), pressed)
    }
}

/// The tool whose shortcut is `key`, if any.
pub open spec fn tool_for_key_spec(key: char) -> Option<Tool> {
    first_pressed_tool(shortcut_order(), seq![key])
}

impl Tool {
    /// The icon of this tool.
    pub fn get_icon(&self) -> (icon: &'static str)
        ensures
            icon@ == tool_icon(*self),
    {
        match self {
            Tool::Arrow => "↖",
            Tool::Subselection => "◇",
            Tool::Lasso => "⟡",
            Tool::Line => "╱",
            Tool::Pen => "⌐",
            Tool::Pencil => "✎",
            Tool::Brush => "🖌",
            Tool::Rectangle => "▭",
            Tool::Oval => "○",
            Tool::PolyStar => "⬟",
            Tool::Text => "A",
            Tool::PaintBucket => "▣",
            Tool::InkBottle => "🖋",
            Tool::Eyedropper => "🔍",
            Tool::Eraser => "▤",
            Tool::FreeTransform => "⤢",
            Tool::GradientTransform => "◐",
            Tool::Zoom => "⊕",
            Tool::Hand => "✋",
        }
    }

    /// The name of this tool.
    pub fn get_name(&self) -> (name: &'static str)
        ensures
            name@ == tool_name(*self),
    {
        match self {
            Tool::Arrow => "Selection Tool",
            Tool::Subselection => "Subselection Tool",
            Tool::Lasso => "Lasso Tool",
            Tool::Line => "Line Tool",
            Tool::Pen => "Pen Tool",
            Tool::Pencil => "Pencil Tool",
            Tool::Brush => "Brush Tool",
            Tool::Rectangle => "Rectangle Tool",
            Tool::Oval => "Oval Tool",
            Tool::PolyStar => "PolyStar Tool",
            Tool::Text => "Text Tool",
            Tool::PaintBucket => "Paint Bucket Tool",
            Tool::InkBottle => "Ink Bottle Tool",
            Tool::Eyedropper => "Eyedropper Tool",
            Tool::Eraser => "Eraser Tool",
            Tool::FreeTransform => "Free Transform Tool",
            Tool::GradientTransform => "Gradient Transform Tool",
            Tool::Zoom => "Zoom Tool",
            Tool::Hand => "Hand Tool",
        }
    }

    /// The keyboard shortcut of this tool.
    pub fn get_shortcut(&self) -> (key: Option<char>)
        ensures
            key == tool_shortcut(*self),
    {
        match self {
            Tool::Arrow => Some('V'),
            Tool::Subselection => Some('A'),
            Tool::Lasso => Some('L'),
            Tool::Line => Some('N'),
            Tool::Pen => Some('P'),
            Tool::Pencil => Some('Y'),
            Tool::Brush => Some('B'),
            Tool::Rectangle => Some('R'),
            Tool::Oval => Some('O'),
            Tool::Text => Some('T'),
            Tool::PaintBucket => Some('K'),
            Tool::InkBottle => Some('S'),
            Tool::Eyedropper => Some('I'),
            Tool::Eraser => Some('E'),
            Tool::FreeTransform => Some('Q'),
            Tool::GradientTransform => Some('F'),
            Tool::Zoom => Some('Z'),
            Tool::Hand => Some('H'),
            _ => None,
        }
    }

    /// The cursor over the empty stage while this tool is active.
    pub fn get_cursor(&self) -> (cursor: CursorKind)
        ensures
            cursor == tool_cursor(*self),
    {
        match self {
            Tool::Arrow => CursorKind::Default,
            Tool::Hand => CursorKind::Grab,
            Tool::Zoom => CursorKind::ZoomIn,
            Tool::Text => CursorKind::Text,
            Tool::Eraser => CursorKind::NotAllowed,
            Tool::Eyedropper => CursorKind::Crosshair,
            Tool::PaintBucket => CursorKind::Crosshair,
            _ => CursorKind::Crosshair,
        }
    }

    /// The cursor over a stage item while this tool is active.
    pub fn get_item_cursor(&self) -> (cursor: CursorKind)
        ensures
            cursor == tool_item_cursor(*self),
    {
        match self {
            Tool::Arrow => CursorKind::PointingHand,
            _ => self.get_cursor(),
        }
    }
}

/// The tools, in the order in which their shortcut keys are tested.
fn shortcut_tools() -> (tools: Vec<Tool>)
    ensures
        tools@ == shortcut_order(),
{
    let tools = vec![
        Tool::Arrow,
        Tool::Subselection,
        Tool::Lasso,
        Tool::Line,
        Tool::Pen,
        Tool::Pencil,
        Tool::Brush,
        Tool::Rectangle,
        Tool::Oval,
        Tool::Text,
        Tool::PaintBucket,
        Tool::InkBottle,
        Tool::Eyedropper,
        Tool::Eraser,
        Tool::FreeTransform,
        Tool::GradientTransform,
        Tool::Zoom,
        Tool::Hand,
    ];
    assert(tools@ =~= shortcut_order());
    tools
}

/// Whether `key` is among `keys`.
fn holds_key(keys: &Vec<char>, key: char) -> (found: bool)
    ensures
        found == keys@.contains(key),
{
    let mut i: usize = 0;
    while i < keys.len()
        invariant
            i <= keys@.len(),
            forall|j: int| 0 <= j < i ==> keys@[j] != key,
        decreases keys@.len() - i,
    {
        if keys[i] == key {
            return true;
        }
        i = i + 1;
    }
    false
}

/// The tool chosen by the shortcut keys pressed in one frame: the first tool,
/// in the order Arrow, Subselection, Lasso, Line, Pen, Pencil, Brush,
/// Rectangle, Oval, Text, Paint Bucket, Ink Bottle, Eyedropper, Eraser, Free
/// Transform, Gradient Transform, Zoom, Hand, whose key is among `pressed`.
pub fn tool_for_pressed_keys(pressed: &Vec<char>) -> (tool: Option<Tool>)
    ensures
        tool == first_pressed_tool(shortcut_order(), pressed@),
{
    let order = shortcut_tools();
    let mut i: usize = 0;
    assert(order@.skip(0) =~= order@);
    while i < order.len()
        invariant
            i <= order@.len(),
            order@ == shortcut_order(),
            first_pressed_tool(order@.skip(i as int), pressed@) == first_pressed_tool(
                shortcut_order(),
                pressed@,
            ),
        decreases order@.len() - i,
    {
        let tool = order[i];
        assert(order@.skip(i as int)[0] == tool);
        assert(order@.skip(i as int).drop_first() =~= order@.skip(i + 1));
        match tool.get_shortcut() {
            Some(key) => {
                if holds_key(pressed, key) {
                    return Some(tool);
                }
            },
            None => {},
        }
        i = i + 1;
    }
    assert(order@.skip(i as int).len() == 0);
    None
}

/// The tool whose keyboard shortcut is `key`, if any.
pub fn tool_for_key(key: char) -> (tool: Option<Tool>)
    ensures
        tool == tool_for_key_spec(key),
{
    let pressed = vec![key];
    assert(pressed@ =~= seq![key]);
    tool_for_pressed_keys(&pressed)
}

/// Every shortcut key selects the tool it belongs to: pressing the key that
/// a tool's tooltip shows makes that tool active.
pub proof fn lemma_shortcut_selects_its_tool(tool: Tool)
    requires
        tool_shortcut(tool) is Some,
    ensures
        tool_for_key_spec(tool_shortcut(tool)->0) == Some(tool),
{
    reveal_with_fuel(first_pressed_tool, 19);
    assert(seq![tool_shortcut(tool)->0].contains(tool_shortcut(tool)->0)) by {
        assert(seq![tool_shortcut(tool)->0][0] == tool_shortcut(tool)->0);
    }
}

/// No two tools share a shortcut key.
pub proof fn lemma_shortcuts_are_distinct(a: Tool, b: Tool)
    requires
        tool_shortcut(a) is Some,
        tool_shortcut(a) == tool_shortcut(b),
    ensures
        a == b,
{
}

/// The keyboard shortcuts of the tools panel: V selects the Selection tool,
/// A Subselection, L Lasso, N Line, P Pen, Y Pencil, B Brush, R Rectangle,
/// O Oval, T Text, K Paint Bucket, S Ink Bottle, I Eyedropper, E Eraser,
/// Q Free Transform, F Gradient Transform, Z Zoom and H Hand; every other
/// key selects nothing.
pub proof fn lemma_shortcut_keys(key: char)
    ensures
        tool_for_key_spec(key) == match key {
            'V' => Some(Tool::Arrow),
            'A' => Some(Tool::Subselection),
            'L' => Some(Tool::Lasso),
            'N' => Some(Tool::Line),
            'P' => Some(Tool::Pen),
            'Y' => Some(Tool::Pencil),
            'B' => Some(Tool::Brush),
            'R' => Some(Tool::Rectangle),
            'O' => Some(Tool::Oval),
            'T' => Some(Tool::Text),
            'K' => Some(Tool::PaintBucket),
            'S' => Some(Tool::InkBottle),
            'I' => Some(Tool::Eyedropper),
            'E' => Some(Tool::Eraser),
            'Q' => Some(Tool::FreeTransform),
            'F' => Some(Tool::GradientTransform),
            'Z' => Some(Tool::Zoom),
            'H' => Some(Tool::Hand),
            _ => None,
        },
{
    let pressed = seq![key];
    assert forall|c: char| pressed.contains(c) <==> c == key by {
        if c == key {
            assert(pressed[0] == key);
        }
    }
    reveal_with_fuel(first_pressed_tool, 19);
}

} // verus!
