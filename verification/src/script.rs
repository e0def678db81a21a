//! The script editor: its templates and the colors in which it shows each
//! line of a script.

use vstd::prelude::*;
use crate::color::Rgba;
use crate::text::{contains_text, find_text, begins_with, occurs_at};

verus! {

/// A script that makes the timeline loop.
pub const LOOP_ANIMATION: &'static str = "// Loop Animation Script
// This script will make the timeline loop continuously

fn on_frame_enter(frame) {
    if frame == timeline.total_frames() {
        timeline.goto_and_play(1);
    }
}

// Register the frame handler
timeline.on_frame(on_frame_enter);
";

/// A script that stops the timeline at a frame.
pub const STOP_AT_FRAME: &'static str = "// Stop at Frame Script
// This script will stop the timeline at a specific frame

let target_frame = 30; // Change this to your desired frame

fn on_frame_enter(frame) {
    if frame == target_frame {
        timeline.stop();
    }
}

// Register the frame handler
timeline.on_frame(on_frame_enter);
";

/// A script that animates an object's properties.
pub const ANIMATE_OBJECT: &'static str = "// Animate Object Script
// This script animates an object's properties over time

let target = stage.get_item(\"my_object\"); // Change to your object's name
let start_x = target.x;
let start_y = target.y;
let duration = 30; // frames

fn on_frame_enter(frame) {
    if frame <= duration {
        let progress = frame / duration;
        target.x = start_x + (100 * progress); // Move 100 pixels right
        target.y = start_y + (50 * Math.sin(progress * Math.PI)); // Sine wave motion
        target.rotation = 360 * progress; // Full rotation
        target.alpha = 1.0 - (progress * 0.5); // Fade to 50%
    }
}

timeline.on_frame(on_frame_enter);
";

/// A script that creates an object on the stage.
pub const CREATE_OBJECT: &'static str = "// Create Object Script
// This script creates a new object on the stage

// Create a new rectangle
let rect = stage.create_rectangle({
    x: 100,
    y: 100,
    width: 50,
    height: 50,
    color: 0xFF0000, // Red
    name: \"dynamic_rect\"
});

// Animate the created object
fn on_frame_enter(frame) {
    rect.rotation = frame * 2;
    rect.scale_x = 1.0 + Math.sin(frame * 0.1) * 0.2;
    rect.scale_y = rect.scale_x;
}

timeline.on_frame(on_frame_enter);
";

/// How the editor highlights a line of script.
#[derive(Clone, Copy, PartialEq, Eq, Debug, Structural)]
pub enum ScriptLineStyle {
    /// A comment: the line, without its surrounding white space, starts with `//`.
    Comment,
    /// A call into the timeline or stage API.
    ApiCall,
    /// A line with a keyword (`if`, `let`, `fn`).
    Keyword,
    /// Anything else.
    Plain,
}

/// The text of `s` without leading and trailing white space, as `str::trim`
/// gives it.
pub uninterp spec fn trimmed(s: Seq<char>) -> Seq<char>;

/// Calls `str::trim`; the contract names the result (Unicode white space)
/// and claims that it depends on the text alone.
#[verifier::external_body]
fn trim_text(s: &str) -> (t: &str)
    ensures
        t@ == trimmed(s@),
{
    s.trim()
}

/// The style of a line of script.
pub open spec fn line_style(line: Seq<char>) -> ScriptLineStyle {
    if occurs_at(trimmed(line), "//"@, 0) {
        ScriptLineStyle::Comment
    } else if contains_text(line, "timeline."@) || contains_text(line, "stage."@) {
        ScriptLineStyle::ApiCall
    } else if contains_text(line, "if"@) || contains_text(line, "let"@) || contains_text(line, "fn"@) {
        ScriptLineStyle::Keyword
    } else {
        ScriptLineStyle::Plain
    }
}

/// The style of a line of script: comments first, then API calls, then
/// keywords.
pub fn classify_script_line(line: &str) -> (style: ScriptLineStyle)
    ensures
        style == line_style(line@),
{
    if begins_with(trim_text(line), "//") {
        ScriptLineStyle::Comment
    } else if find_text(line, "timeline.") || find_text(line, "stage.") {
        ScriptLineStyle::ApiCall
    } else if find_text(line, "if") || find_text(line, "let") || find_text(line, "fn") {
        ScriptLineStyle::Keyword
    } else {
        ScriptLineStyle::Plain
    }
}

/// The color of a style; plain lines keep the editor's own text color.
pub open spec fn style_color(style: ScriptLineStyle) -> Option<Rgba> {
    match style {
        ScriptLineStyle::Comment => Some(Rgba { r: 120, g: 200, b: 120, a: 255 }),
        ScriptLineStyle::ApiCall => Some(Rgba { r: 120, g: 160, b: 255, a: 255 }),
        ScriptLineStyle::Keyword => Some(Rgba { r: 255, g: 180, b: 100, a: 255 }),
        ScriptLineStyle::Plain => None,
    }
}

impl ScriptLineStyle {
    /// The color in which lines of this style are shown, if not the default.
    pub fn color(&self) -> (c: Option<Rgba>)
        ensures
            c == style_color(*self),
    {
        match self {
            ScriptLineStyle::Comment => Some(Rgba::from_rgb(120, 200, 120)),
            ScriptLineStyle::ApiCall => Some(Rgba::from_rgb(120, 160, 255)),
            ScriptLineStyle::Keyword => Some(Rgba::from_rgb(255, 180, 100)),
            ScriptLineStyle::Plain => None,
        }
    }
}

/// Whether `word` stands in `line` starting at position `at`.
pub open spec fn word_at(line: Seq<char>, word: Seq<char>, at: int) -> bool {
    0 <= at && at + word.len() <= line.len() && line.subrange(at, at + word.len()) == word
}

/// Whether `word` stands anywhere in `line`.
pub open spec fn has_word(line: Seq<char>, word: Seq<char>) -> bool {
    exists|at: int| #[trigger] word_at(line, word, at)
}

proof fn lemma_found_anywhere(line: Seq<char>, word: Seq<char>)
    ensures
        contains_text(line, word) == has_word(line, word),
{
    if contains_text(line, word) {
        let at = choose|at: int| occurs_at(line, word, at);
        assert(word_at(line, word, at));
    }
    if has_word(line, word) {
        let at = choose|at: int| word_at(line, word, at);
        assert(occurs_at(line, word, at));
    }
}

/// How a line of script is highlighted: a line whose text, without the
/// white space around it, starts with "//" is a comment; any other line in
/// which "timeline." or "stage." stands anywhere is an API call; any other
/// line in which "if", "let" or "fn" stands anywhere is a keyword line; all
/// remaining lines are plain.
pub proof fn lemma_line_styles(line: Seq<char>)
    ensures
        ({
            let t = trimmed(line);
            let comment = t.len() >= 2 && t[0] == '/' && t[1] == '/';
            let api = has_word(line, seq!['t', 'i', 'm', 'e', 'l', 'i', 'n', 'e', '.']) || has_word(
                line,
                seq!['s', 't', 'a', 'g', 'e', '.'],
            );
            let keyword = has_word(line, seq!['i', 'f']) || has_word(line, seq!['l', 'e', 't'])
                || has_word(line, seq!['f', 'n']);
            &&& (line_style(line) == ScriptLineStyle::Comment <==> comment)
            &&& (line_style(line) == ScriptLineStyle::ApiCall <==> !comment && api)
            &&& (line_style(line) == ScriptLineStyle::Keyword <==> !comment && !api && keyword)
            &&& (line_style(line) == ScriptLineStyle::Plain <==> !comment && !api && !keyword)
        }),
{
    reveal_strlit("//");
    reveal_strlit("timeline.");
    reveal_strlit("stage.");
    reveal_strlit("if");
    reveal_strlit("let");
    reveal_strlit("fn");
    assert("//"@ =~= seq!['/', '/']);
    assert("timeline."@ =~= seq!['t', 'i', 'm', 'e', 'l', 'i', 'n', 'e', '.']);
    assert("stage."@ =~= seq!['s', 't', 'a', 'g', 'e', '.']);
    assert("if"@ =~= seq!['i', 'f']);
    assert("let"@ =~= seq!['l', 'e', 't']);
    assert("fn"@ =~= seq!['f', 'n']);
    lemma_found_anywhere(line, "timeline."@);
    lemma_found_anywhere(line, "stage."@);
    lemma_found_anywhere(line, "if"@);
    lemma_found_anywhere(line, "let"@);
    lemma_found_anywhere(line, "fn"@);
    let t = trimmed(line);
    if t.len() >= 2 && t[0] == '/' && t[1] == '/' {
        assert(t.subrange(0, 2) =~= "//"@);
    }
}

} // verus!
