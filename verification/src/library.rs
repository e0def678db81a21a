//! The library panel: its assets, the default library, the folders that are
//! open, and the import of files dropped onto the editor.

use vstd::prelude::*;
use crate::text::{
    contains_text, decimal, find_text, lowercase, numbered, same_text, to_lowercase,
    to_uppercase, uppercase,
};

verus! {

/// The tabs of the library panel.
#[derive(Clone, Copy, PartialEq, Eq, Debug, Structural)]
pub enum LibraryTab {
    Assets,
    Components,
    ActionScript,
}

/// The kinds of library asset.
#[derive(Clone, Copy, PartialEq, Eq, Debug, Structural)]
pub enum LibraryAssetType {
    MovieClip,
    Button,
    Graphic,
    Bitmap,
    Sound,
    Video,
    Font,
    Folder,
}

/// What the library records of an asset besides its name.
#[derive(Debug)]
pub struct AssetProperties {
    pub file_size: Option<u64>,
    pub dimensions: Option<(u32, u32)>,
    pub format: Option<String>,
    pub usage_count: u32,
    pub linkage_class: Option<String>,
}

/// An asset of the library.
#[derive(Debug)]
pub struct LibraryAsset {
    pub id: String,
    pub name: String,
    pub asset_type: LibraryAssetType,
    pub folder: String,
    pub properties: AssetProperties,
}

/// What a right click in the library panel was on.
#[derive(Debug)]
pub enum LibraryContextTarget {
    Asset(String),
    Folder(String),
    Background,
}

fn clone_text(t: &Option<String>) -> (copy: Option<String>)
    ensures
        copy == *t,
{
    match t {
        Some(s) => Some(s.clone()),
        None => None,
    }
}

impl Clone for AssetProperties {
    fn clone(&self) -> (copy: Self)
        ensures
            copy == *self,
    {
        AssetProperties {
            file_size: self.file_size,
            dimensions: self.dimensions,
            format: clone_text(&self.format),
            usage_count: self.usage_count,
            linkage_class: clone_text(&self.linkage_class),
        }
    }
}

impl Clone for LibraryAsset {
    fn clone(&self) -> (copy: Self)
        ensures
            copy == *self,
    {
        LibraryAsset {
            id: self.id.clone(),
            name: self.name.clone(),
            asset_type: self.asset_type,
            folder: self.folder.clone(),
            properties: self.properties.clone(),
        }
    }
}

impl Clone for LibraryContextTarget {
    fn clone(&self) -> (copy: Self)
        ensures
            copy == *self,
    {
        match self {
            LibraryContextTarget::Asset(id) => LibraryContextTarget::Asset(id.clone()),
            LibraryContextTarget::Folder(name) => LibraryContextTarget::Folder(name.clone()),
            LibraryContextTarget::Background => LibraryContextTarget::Background,
        }
    }
}

/// The characters of an optional text.
pub open spec fn opt_text(t: Option<String>) -> Option<Seq<char>> {
    match t {
        Some(s) => Some(s@),
        None => None,
    }
}

/// Whether `p` records nothing but the given size, dimensions and format,
/// with no uses and no linkage class.
pub open spec fn is_plain_properties(
    p: AssetProperties,
    file_size: Option<u64>,
    dimensions: Option<(u32, u32)>,
    format: Option<Seq<char>>,
) -> bool {
    &&& p.file_size == file_size
    &&& p.dimensions == dimensions
    &&& opt_text(p.format) == format
    &&& p.usage_count == 0
    &&& p.linkage_class is None
}

impl LibraryAsset {
    /// A movie clip symbol in the given folder.
    pub fn new_movieclip(id: String, name: String, folder: String) -> (asset: LibraryAsset)
        ensures
            asset.id == id,
            asset.name == name,
            asset.folder == folder,
            asset.asset_type == LibraryAssetType::MovieClip,
            is_plain_properties(asset.properties, None, None, None),
    {
        LibraryAsset {
            id,
            name,
            asset_type: LibraryAssetType::MovieClip,
            folder,
            properties: AssetProperties {
                file_size: None,
                dimensions: None,
                format: None,
                usage_count: 0,
                linkage_class: None,
            },
        }
    }

    /// A graphic symbol in the given folder.
    pub fn new_graphic(id: String, name: String, folder: String) -> (asset: LibraryAsset)
        ensures
            asset.id == id,
            asset.name == name,
            asset.folder == folder,
            asset.asset_type == LibraryAssetType::Graphic,
            is_plain_properties(asset.properties, None, None, None),
    {
        LibraryAsset {
            id,
            name,
            asset_type: LibraryAssetType::Graphic,
            folder,
            properties: AssetProperties {
                file_size: None,
                dimensions: None,
                format: None,
                usage_count: 0,
                linkage_class: None,
            },
        }
    }

    /// A PNG bitmap of the given dimensions and file size.
    pub fn new_bitmap(
        id: String,
        name: String,
        folder: String,
        dimensions: (u32, u32),
        file_size: u64,
    ) -> (asset: LibraryAsset)
        ensures
            asset.id == id,
            asset.name == name,
            asset.folder == folder,
            asset.asset_type == LibraryAssetType::Bitmap,
            is_plain_properties(asset.properties, Some(file_size), Some(dimensions), Some("PNG"@)),
    {
        LibraryAsset {
            id,
            name,
            asset_type: LibraryAssetType::Bitmap,
            folder,
            properties: AssetProperties {
                file_size: Some(file_size),
                dimensions: Some(dimensions),
                format: Some(String::from_str("PNG")),
                usage_count: 0,
                linkage_class: None,
            },
        }
    }
}

/// The icon shown before an asset of the given kind.
pub open spec fn asset_icon(t: LibraryAssetType) -> Seq<char> {
    match t {
        LibraryAssetType::MovieClip => "🎭"@,
        LibraryAssetType::Button => "🔘"@,
        LibraryAssetType::Graphic => "🎨"@,
        LibraryAssetType::Bitmap => "🖼️"@,
        LibraryAssetType::Sound => "🔊"@,
        LibraryAssetType::Video => "🎬"@,
        LibraryAssetType::Font => "🔤"@,
        LibraryAssetType::Folder => "📁"@,
    }
}

/// The name of an asset kind, shown beside each asset.
pub open spec fn asset_label(t: LibraryAssetType) -> Seq<char> {
    match t {
        LibraryAssetType::MovieClip => "MovieClip"@,
        LibraryAssetType::Button => "Button"@,
        LibraryAssetType::Graphic => "Graphic"@,
        LibraryAssetType::Bitmap => "Bitmap"@,
        LibraryAssetType::Sound => "Sound"@,
        LibraryAssetType::Video => "Video"@,
        LibraryAssetType::Font => "Font"@,
        LibraryAssetType::Folder => "Folder"@,
    }
}

impl LibraryAssetType {
    /// The icon of this kind of asset.
    pub fn icon(&self) -> (icon: &'static str)
        ensures
            icon@ == asset_icon(*self),
    {
        match self {
            LibraryAssetType::MovieClip => "🎭",
            LibraryAssetType::Button => "🔘",
            LibraryAssetType::Graphic => "🎨",
            LibraryAssetType::Bitmap => "🖼️",
            LibraryAssetType::Sound => "🔊",
            LibraryAssetType::Video => "🎬",
            LibraryAssetType::Font => "🔤",
            LibraryAssetType::Folder => "📁",
        }
    }

    /// The name of this kind of asset.
    pub fn label(&self) -> (label: &'static str)
        ensures
            label@ == asset_label(*self),
    {
        match self {
            LibraryAssetType::MovieClip => "MovieClip",
            LibraryAssetType::Button => "Button",
            LibraryAssetType::Graphic => "Graphic",
            LibraryAssetType::Bitmap => "Bitmap",
            LibraryAssetType::Sound => "Sound",
            LibraryAssetType::Video => "Video",
            LibraryAssetType::Font => "Font",
            LibraryAssetType::Folder => "Folder",
        }
    }
}

/// Whether `a` is the asset with exactly the given fields.
pub open spec fn is_asset(
    a: LibraryAsset,
    id: Seq<char>,
    name: Seq<char>,
    asset_type: LibraryAssetType,
    folder: Seq<char>,
    file_size: Option<u64>,
    dimensions: Option<(u32, u32)>,
    format: Option<Seq<char>>,
    usage_count: u32,
    linkage_class: Option<Seq<char>>,
) -> bool {
    &&& a.id@ == id
    &&& a.name@ == name
    &&& a.asset_type == asset_type
    &&& a.folder@ == folder
    &&& a.properties.file_size == file_size
    &&& a.properties.dimensions == dimensions
    &&& opt_text(a.properties.format) == format
    &&& a.properties.usage_count == usage_count
    &&& opt_text(a.properties.linkage_class) == linkage_class
}

/// The assets that a new editor's library holds.
pub open spec fn is_default_library(assets: Seq<LibraryAsset>) -> bool {
    &&& assets.len() == 8
    &&& is_asset(assets[0], "logo_mc"@, "Logo"@, LibraryAssetType::MovieClip, "Graphics"@,
        None, Some((200u32, 100u32)), None, 2, Some("LogoSymbol"@))
    &&& is_asset(assets[1], "button_mc"@, "Button"@, LibraryAssetType::Button, "Graphics"@,
        None, Some((120u32, 40u32)), None, 5, Some("ButtonSymbol"@))
    &&& is_asset(assets[2], "star_graphic"@, "Star"@, LibraryAssetType::Graphic, "Graphics"@,
        None, Some((50u32, 50u32)), None, 0, None)
    &&& is_asset(assets[3], "background_jpg"@, "Background"@, LibraryAssetType::Bitmap,
        "Bitmaps"@, Some(245760u64), Some((1920u32, 1080u32)), Some("JPEG"@), 1, None)
    &&& is_asset(assets[4], "icon_png"@, "Icon"@, LibraryAssetType::Bitmap, "Bitmaps"@,
        Some(8192u64), Some((64u32, 64u32)), Some("PNG"@), 3, None)
    &&& is_asset(assets[5], "bgm_mp3"@, "Background Music"@, LibraryAssetType::Sound, "Sounds"@,
        Some(3145728u64), None, Some("MP3"@), 1, Some("BGMSound"@))
    &&& is_asset(assets[6], "click_wav"@, "Click Sound"@, LibraryAssetType::Sound, "Sounds"@,
        Some(22050u64), None, Some("WAV"@), 0, None)
    &&& is_asset(assets[7], "arial_font"@, "Arial"@, LibraryAssetType::Font, "Fonts"@,
        Some(367112u64), None, Some("TTF"@), 10, None)
}

fn text(s: &str) -> (t: String)
    ensures
        t@ == s@,
{
    String::from_str(s)
}

fn some_text(s: &str) -> (t: Option<String>)
    ensures
        opt_text(t) == Some(s@),
{
    Some(String::from_str(s))
}

fn asset(
    id: &str,
    name: &str,
    asset_type: LibraryAssetType,
    folder: &str,
    file_size: Option<u64>,
    dimensions: Option<(u32, u32)>,
    format: Option<String>,
    usage_count: u32,
    linkage_class: Option<String>,
) -> (a: LibraryAsset)
    ensures
        is_asset(a, id@, name@, asset_type, folder@, file_size, dimensions, opt_text(format),
            usage_count, opt_text(linkage_class)),
{
    LibraryAsset {
        id: text(id),
        name: text(name),
        asset_type,
        folder: text(folder),
        properties: AssetProperties { file_size, dimensions, format, usage_count, linkage_class },
    }
}

/// The library of a new editor: a logo, a button and a star among the
/// graphics, two bitmaps, two sounds and a font.
pub fn default_library_assets() -> (assets: Vec<LibraryAsset>)
    ensures
        is_default_library(assets@),
{
    let mut assets: Vec<LibraryAsset> = Vec::new();
    assets.push(asset("logo_mc", "Logo", LibraryAssetType::MovieClip, "Graphics", None,
        Some((200, 100)), None, 2, some_text("LogoSymbol")));
    assets.push(asset("button_mc", "Button", LibraryAssetType::Button, "Graphics", None,
        Some((120, 40)), None, 5, some_text("ButtonSymbol")));
    assets.push(asset("star_graphic", "Star", LibraryAssetType::Graphic, "Graphics", None,
        Some((50, 50)), None, 0, None));
    assets.push(asset("background_jpg", "Background", LibraryAssetType::Bitmap, "Bitmaps",
        Some(245760), Some((1920, 1080)), some_text("JPEG"), 1, None));
    assets.push(asset("icon_png", "Icon", LibraryAssetType::Bitmap, "Bitmaps", Some(8192),
        Some((64, 64)), some_text("PNG"), 3, None));
    assets.push(asset("bgm_mp3", "Background Music", LibraryAssetType::Sound, "Sounds",
        Some(3145728), None, some_text("MP3"), 1, some_text("BGMSound")));
    assets.push(asset("click_wav", "Click Sound", LibraryAssetType::Sound, "Sounds",
        Some(22050), None, some_text("WAV"), 0, None));
    assets.push(asset("arial_font", "Arial", LibraryAssetType::Font, "Fonts", Some(367112),
        None, some_text("TTF"), 10, None));
    assets
}

/// The characters of each text in a list.
pub open spec fn texts(v: Seq<String>) -> Seq<Seq<char>> {
    v.map_values(|s: String| s@)
}

/// Whether a text differs from `name`.
pub open spec fn differs_from(name: Seq<char>) -> spec_fn(Seq<char>) -> bool {
    |t: Seq<char>| t != name
}

/// The open folders after a click on the arrow of `folder`: an open folder
/// closes (every entry of it goes) and a closed one opens (it is appended).
pub open spec fn folders_after_toggle(open: Seq<Seq<char>>, folder: Seq<char>) -> Seq<Seq<char>> {
    if open.contains(folder) {
        open.filter(differs_from(folder))
    } else {
        open.push(folder)
    }
}

/// Opens `folder` when it is closed and closes it when it is open; returns
/// whether it is open afterwards.
pub fn toggle_folder(expanded: &mut Vec<String>, folder: String) -> (now_open: bool)
    ensures
        texts(final(expanded)@) == folders_after_toggle(texts(old(expanded)@), folder@),
        now_open == !texts(old(expanded)@).contains(folder@),
{
    let ghost before = texts(expanded@);
    let mut i: usize = 0;
    let mut found = false;
    while i < expanded.len()
        invariant
            i <= expanded@.len(),
            expanded@ == old(expanded)@,
            before == texts(expanded@),
            found == exists|j: int| 0 <= j < i && expanded@[j]@ == folder@,
        decreases expanded@.len() - i,
    {
        if expanded[i] == folder {
            found = true;
        }
        i = i + 1;
    }
    assert(found == before.contains(folder@)) by {
        if found {
            let j = choose|j: int| 0 <= j < i && expanded@[j]@ == folder@;
            assert(before[j] == folder@);
        }
        if before.contains(folder@) {
            let j = choose|j: int| 0 <= j < before.len() && before[j] == folder@;
            assert(expanded@[j]@ == folder@);
        }
    }
    if found {
        let ghost keep = differs_from(folder@);
        let mut kept: Vec<String> = Vec::new();
        let mut j: usize = 0;
        assert(texts(expanded@.take(0)).filter(keep) =~= texts(kept@));
        while j < expanded.len()
            invariant
                j <= expanded@.len(),
                expanded@ == old(expanded)@,
                before == texts(expanded@),
                keep == differs_from(folder@),
                texts(kept@) == texts(expanded@.take(j as int)).filter(keep),
            decreases expanded@.len() - j,
        {
            let entry = expanded[j].clone();
            assert(texts(expanded@.take(j + 1)) =~= texts(expanded@.take(j as int)).push(entry@));
            proof { texts(expanded@.take(j as int)).lemma_filter_push(entry@, keep); }
            let ghost prior = kept@;
            let differs = !(entry == folder);
            assert(differs == keep(entry@));
            if differs {
                kept.push(entry);
                assert(texts(kept@) =~= texts(prior).push(entry@));
            }
            j = j + 1;
        }
        assert(expanded@.take(expanded@.len() as int) =~= expanded@);
        *expanded = kept;
        false
    } else {
        let ghost prior = expanded@;
        expanded.push(folder);
        assert(texts(expanded@) =~= texts(prior).push(folder@));
        true
    }
}

/// A closed folder that is opened and closed again leaves the open folders
/// as they were.
pub proof fn lemma_toggle_twice_restores(open: Seq<Seq<char>>, folder: Seq<char>)
    requires
        !open.contains(folder),
    ensures
        folders_after_toggle(folders_after_toggle(open, folder), folder) == open,
{
    let pushed = open.push(folder);
    assert(pushed.contains(folder)) by {
        assert(pushed[open.len() as int] == folder);
    }
    open.lemma_filter_push(folder, differs_from(folder));
    lemma_filter_keeps_texts(open, folder);
}

proof fn lemma_filter_keeps_texts(s: Seq<Seq<char>>, folder: Seq<char>)
    requires
        !s.contains(folder),
    ensures
        s.filter(differs_from(folder)) == s,
    decreases s.len(),
{
    if s.len() > 0 {
        assert(!s.drop_last().contains(folder)) by {
            if s.drop_last().contains(folder) {
                let j = choose|j: int| 0 <= j < s.drop_last().len() && s.drop_last()[j] == folder;
                assert(s[j] == folder);
            }
        }
        lemma_filter_keeps_texts(s.drop_last(), folder);
        assert(s =~= s.drop_last().push(s.last()));
        assert(s.last() != folder) by {
            assert(s[s.len() - 1] == s.last());
        }
        s.drop_last().lemma_filter_push(s.last(), differs_from(folder));
    } else {
        reveal(Seq::filter);
    }
}

/// Whether a folder is open right after its arrow was clicked: the click
/// always flips it.
pub proof fn lemma_toggle_flips(open: Seq<Seq<char>>, folder: Seq<char>)
    ensures
        folders_after_toggle(open, folder).contains(folder) == !open.contains(folder),
{
    if open.contains(folder) {
        let rest = open.filter(differs_from(folder));
        if rest.contains(folder) {
            let j = choose|j: int| 0 <= j < rest.len() && rest[j] == folder;
            open.lemma_filter_pred(differs_from(folder), j);
        }
    } else {
        assert(open.push(folder)[open.len() as int] == folder);
    }
}

/// The kind of asset and the MIME family that a file of the given (lower
/// case) extension is imported as; other extensions are not supported.
pub open spec fn extension_kind(extension: Seq<char>) -> Option<(LibraryAssetType, Seq<char>)> {
    if extension == "png"@ || extension == "jpg"@ || extension == "jpeg"@ || extension == "gif"@
        || extension == "bmp"@ {
        Some((LibraryAssetType::Bitmap, "image/*"@))
    } else if extension == "mp3"@ || extension == "wav"@ || extension == "ogg"@ || extension
        == "aac"@ {
        Some((LibraryAssetType::Sound, "audio/*"@))
    } else if extension == "mp4"@ || extension == "mov"@ || extension == "avi"@ || extension
        == "webm"@ {
        Some((LibraryAssetType::Video, "video/*"@))
    } else if extension == "ttf"@ || extension == "otf"@ || extension == "woff"@ || extension
        == "woff2"@ {
        Some((LibraryAssetType::Font, "font/*"@))
    } else {
        None
    }
}

fn is_one_of(extension: &str, choices: &Vec<&'static str>) -> (found: bool)
    ensures
        found == exists|k: int| 0 <= k < choices@.len() && extension@ == choices@[k]@,
{
    let mut k: usize = 0;
    while k < choices.len()
        invariant
            k <= choices@.len(),
            forall|j: int| 0 <= j < k ==> extension@ != choices@[j]@,
        decreases choices@.len() - k,
    {
        if same_text(extension, choices[k]) {
            return true;
        }
        k = k + 1;
    }
    false
}

/// The kind of asset and the MIME family for a lower-case file extension.
pub fn classify_extension(extension: &str) -> (kind: Option<(LibraryAssetType, &'static str)>)
    ensures
        match kind {
            Some((t, mime)) => extension_kind(extension@) == Some((t, mime@)),
            None => extension_kind(extension@) is None,
        },
{
    let images = vec!["png", "jpg", "jpeg", "gif", "bmp"];
    let sounds = vec!["mp3", "wav", "ogg", "aac"];
    let videos = vec!["mp4", "mov", "avi", "webm"];
    let fonts = vec!["ttf", "otf", "woff", "woff2"];
    let found_image = is_one_of(extension, &images);
    assert(images@[0]@ == "png"@ && images@[1]@ == "jpg"@ && images@[2]@ == "jpeg"@
        && images@[3]@ == "gif"@ && images@[4]@ == "bmp"@);
    assert(sounds@[0]@ == "mp3"@ && sounds@[1]@ == "wav"@ && sounds@[2]@ == "ogg"@
        && sounds@[3]@ == "aac"@);
    assert(videos@[0]@ == "mp4"@ && videos@[1]@ == "mov"@ && videos@[2]@ == "avi"@
        && videos@[3]@ == "webm"@);
    assert(fonts@[0]@ == "ttf"@ && fonts@[1]@ == "otf"@ && fonts@[2]@ == "woff"@
        && fonts@[3]@ == "woff2"@);
    if found_image {
        return Some((LibraryAssetType::Bitmap, "image/*"));
    }
    assert(forall|k: int| 0 <= k < 5 ==> extension@ != images@[k]@);
    assert(extension@ != images@[0]@ && extension@ != images@[1]@ && extension@ != images@[2]@
        && extension@ != images@[3]@ && extension@ != images@[4]@);
    if is_one_of(extension, &sounds) {
        return Some((LibraryAssetType::Sound, "audio/*"));
    }
    assert(extension@ != sounds@[0]@ && extension@ != sounds@[1]@ && extension@ != sounds@[2]@
        && extension@ != sounds@[3]@);
    if is_one_of(extension, &videos) {
        return Some((LibraryAssetType::Video, "video/*"));
    }
    assert(extension@ != videos@[0]@ && extension@ != videos@[1]@ && extension@ != videos@[2]@
        && extension@ != videos@[3]@);
    if is_one_of(extension, &fonts) {
        return Some((LibraryAssetType::Font, "font/*"));
    }
    assert(extension@ != fonts@[0]@ && extension@ != fonts@[1]@ && extension@ != fonts@[2]@
        && extension@ != fonts@[3]@);
    None
}

/// What the import of a dropped file came to.
#[derive(Debug)]
pub enum ImportOutcome {
    /// The (lower-case) extension is not one the library takes.
    Unsupported { extension: String },
    /// The file was added to the library; a bitmap is also placed on the
    /// stage.
    Imported { asset_type: LibraryAssetType, mime: &'static str, place_on_stage: bool },
}

/// Whether `a` is the asset that importing the file `file_name` (of the
/// given lower-case extension and size) adds as the library's `position`-th
/// asset: "asset_" and the position, in the folder "Imported"; a bitmap gets
/// placeholder dimensions of 100 by 100 and the format PNG, any other kind
/// the upper-case extension as its format.
pub open spec fn is_imported_asset(
    a: LibraryAsset,
    position: nat,
    file_name: Seq<char>,
    extension: Seq<char>,
    asset_type: LibraryAssetType,
    file_size: u64,
) -> bool {
    &&& a.id@ == "asset_"@ + decimal(position)
    &&& a.name@ == file_name
    &&& a.asset_type == asset_type
    &&& a.folder@ == "Imported"@
    &&& if asset_type == LibraryAssetType::Bitmap {
        is_plain_properties(a.properties, Some(file_size), Some((100u32, 100u32)), Some("PNG"@))
    } else {
        is_plain_properties(a.properties, Some(file_size), None, Some(uppercase(extension)))
    }
}

/// Adds a dropped file to the library: the extension (in any case) decides
/// the kind of asset; a file of any other extension is refused and the
/// library stays as it was.
pub fn import_dropped_file(
    assets: &mut Vec<LibraryAsset>,
    file_name: String,
    extension: &str,
    file_size: u64,
) -> (outcome: ImportOutcome)
    requires
        old(assets)@.len() < usize::MAX,
    ensures
        ({
            let lower = lowercase(extension@);
            match extension_kind(lower) {
                None => {
                    &&& final(assets)@ == old(assets)@
                    &&& outcome matches ImportOutcome::Unsupported { extension: e } && e@ == lower
                },
                Some((t, mime)) => {
                    &&& final(assets)@.len() == old(assets)@.len() + 1
                    &&& final(assets)@.drop_last() == old(assets)@
                    &&& is_imported_asset(final(assets)@.last(), (old(assets)@.len() + 1) as nat,
                        file_name@, lower, t, file_size)
                    &&& outcome matches ImportOutcome::Imported { asset_type, mime: m, place_on_stage }
                        && asset_type == t && m@ == mime && place_on_stage == (t
                        == LibraryAssetType::Bitmap)
                },
            }
        }),
{
    let lower = to_lowercase(extension);
    match classify_extension(lower.as_str()) {
        None => ImportOutcome::Unsupported { extension: lower },
        Some((asset_type, mime)) => {
            let id = numbered("asset_", assets.len() + 1);
            let new_asset = match asset_type {
                LibraryAssetType::Bitmap => LibraryAsset::new_bitmap(
                    id,
                    file_name,
                    String::from_str("Imported"),
                    (100, 100),
                    file_size,
                ),
                _ => LibraryAsset {
                    id,
                    name: file_name,
                    asset_type,
                    folder: String::from_str("Imported"),
                    properties: AssetProperties {
                        file_size: Some(file_size),
                        dimensions: None,
                        format: Some(to_uppercase(lower.as_str())),
                        usage_count: 0,
                        linkage_class: None,
                    },
                },
            };
            let ghost prior = assets@;
            assets.push(new_asset);
            assert(assets@.drop_last() =~= prior);
            ImportOutcome::Imported {
                asset_type,
                mime,
                place_on_stage: asset_type == LibraryAssetType::Bitmap,
            }
        },
    }
}

/// The name under which the library's context menu shows the asset with
/// identifier `id`: the name of the first asset with that identifier, or
/// "Unknown".
pub open spec fn display_name(assets: Seq<LibraryAsset>, id: Seq<char>, name: Seq<char>) -> bool {
    if exists|i: int| 0 <= i < assets.len() && assets[i].id@ == id {
        exists|i: int|
            0 <= i < assets.len() && assets[i].id@ == id && name == assets[i].name@ && forall|j: int|
                0 <= j < i ==> assets[j].id@ != id
    } else {
        name == "Unknown"@
    }
}

/// The name of the asset with identifier `id`, or "Unknown".
pub fn asset_display_name(assets: &Vec<LibraryAsset>, id: &String) -> (name: String)
    ensures
        display_name(assets@, id@, name@),
{
    let mut i: usize = 0;
    while i < assets.len()
        invariant
            i <= assets@.len(),
            forall|j: int| 0 <= j < i ==> assets@[j].id@ != id@,
        decreases assets@.len() - i,
    {
        if assets[i].id == *id {
            return assets[i].name.clone();
        }
        i = i + 1;
    }
    String::from_str("Unknown")
}

/// The folders that the asset tree always shows, in their order.
pub open spec fn fixed_folders() -> Seq<Seq<char>> {
    seq!["Sounds"@, "Fonts"@, "Bitmaps"@, "Graphics"@]
}

/// Whether an asset passes the library search: an empty search passes
/// everything; otherwise the lower-case name must contain the lower-case
/// search text.
pub open spec fn passes_search(a: LibraryAsset, search: Seq<char>) -> bool {
    search.len() == 0 || contains_text(lowercase(a.name@), lowercase(search))
}

/// Whether an asset belongs, after the search, under the folder `folder`.
pub open spec fn shown_in(folder: Seq<char>, search: Seq<char>) -> spec_fn(LibraryAsset) -> bool {
    |a: LibraryAsset| a.folder@ == folder && passes_search(a, search)
}

/// A folder of the asset tree and the assets shown in it.
pub struct FolderGroup {
    pub folder: String,
    pub assets: Vec<LibraryAsset>,
}

/// Whether `groups` is the asset tree of `assets` under the search text
/// `search`: first the four fixed folders (Sounds, Fonts, Bitmaps,
/// Graphics), shown even when empty, then one group for each other folder
/// that holds an asset passing the search; each group lists, in library
/// order, the assets of its folder that pass the search. The order of the
/// other folders is not fixed.
pub open spec fn is_asset_tree(groups: Seq<FolderGroup>, assets: Seq<LibraryAsset>, search: Seq<char>) -> bool {
    &&& groups.len() >= 4
    &&& forall|k: int| 0 <= k < 4 ==> (#[trigger] groups[k]).folder@ == fixed_folders()[k]
    &&& forall|g: int|
        0 <= g < groups.len() ==> (#[trigger] groups[g]).assets@ == assets.filter(
            shown_in(groups[g].folder@, search),
        )
    &&& forall|g: int, h: int| 0 <= g < h < groups.len() ==> groups[g].folder@ != groups[h].folder@
    &&& forall|g: int| 4 <= g < groups.len() ==> (#[trigger] groups[g]).assets@.len() > 0
    &&& forall|i: int|
        0 <= i < assets.len() && passes_search(#[trigger] assets[i], search) ==> exists|g: int|
            0 <= g < groups.len() && groups[g].folder@ == assets[i].folder@
}

fn passes(a: &LibraryAsset, search: &str, lower_search: &str) -> (ok: bool)
    requires
        lower_search@ == lowercase(search@),
    ensures
        ok == passes_search(*a, search@),
{
    if search.unicode_len() == 0 {
        return true;
    }
    let lower_name = to_lowercase(a.name.as_str());
    find_text(lower_name.as_str(), lower_search)
}

fn empty_group(name: &str) -> (g: FolderGroup)
    ensures
        g.folder@ == name@,
        g.assets@.len() == 0,
{
    FolderGroup { folder: String::from_str(name), assets: Vec::new() }
}

/// The asset tree of the library for the search text `search`.
pub fn asset_tree(assets: &Vec<LibraryAsset>, search: &str) -> (groups: Vec<FolderGroup>)
    ensures
        is_asset_tree(groups@, assets@, search@),
{
    let lower_search = to_lowercase(search);
    let mut groups: Vec<FolderGroup> = Vec::new();
    groups.push(empty_group("Sounds"));
    groups.push(empty_group("Fonts"));
    groups.push(empty_group("Bitmaps"));
    groups.push(empty_group("Graphics"));
    proof {
        reveal_strlit("Sounds");
        reveal_strlit("Fonts");
        reveal_strlit("Bitmaps");
        reveal_strlit("Graphics");
        assert(groups@[0].folder@.len() == 6 && groups@[1].folder@.len() == 5
            && groups@[2].folder@.len() == 7 && groups@[3].folder@.len() == 8);
        assert forall|g: int| 0 <= g < groups@.len() implies groups@[g].assets@ == assets@.take(0).filter(
            shown_in(groups@[g].folder@, search@),
        ) by {
            reveal(Seq::filter);
            assert(assets@.take(0).len() == 0);
        }
    }
    let n = assets.len();
    let mut i: usize = 0;
    while i < n
        invariant
            n == assets@.len(),
            i <= n,
            lower_search@ == lowercase(search@),
            groups@.len() >= 4,
            forall|k: int| 0 <= k < 4 ==> (#[trigger] groups@[k]).folder@ == fixed_folders()[k],
            forall|g: int|
                0 <= g < groups@.len() ==> (#[trigger] groups@[g]).assets@ == assets@.take(
                    i as int,
                ).filter(shown_in(groups@[g].folder@, search@)),
            forall|g: int, h: int|
                0 <= g < h < groups@.len() ==> groups@[g].folder@ != groups@[h].folder@,
            forall|g: int| 4 <= g < groups@.len() ==> (#[trigger] groups@[g]).assets@.len() > 0,
            forall|j: int|
                0 <= j < i && passes_search(#[trigger] assets@[j], search@) ==> exists|g: int|
                    0 <= g < groups@.len() && groups@[g].folder@ == assets@[j].folder@,
        decreases n - i,
    {
        let a = &assets[i];
        let ghost before = assets@.take(i as int);
        let ghost after = assets@.take(i + 1);
        assert(after =~= before.push(*a));
        if passes(a, search, lower_search.as_str()) {
            let mut k: usize = 0;
            let mut found: Option<usize> = None;
            while k < groups.len()
                invariant
                    k <= groups@.len(),
                    found is None ==> forall|g: int| 0 <= g < k ==> groups@[g].folder@ != a.folder@,
                    found matches Some(f) ==> f < groups@.len() && groups@[f as int].folder@ == a.folder@,
                decreases groups@.len() - k,
            {
                if found.is_none() && groups[k].folder == a.folder {
                    found = Some(k);
                }
                k = k + 1;
            }
            let ghost old_groups = groups@;
            match found {
                Some(f) => {
                    let mut g = groups.remove(f);
                    g.assets.push(a.clone());
                    groups.insert(f, g);
                    proof {
                        assert forall|h: int| 0 <= h < groups@.len() implies (#[trigger] groups@[h]).assets@
                            == after.filter(shown_in(groups@[h].folder@, search@)) by {
                            before.lemma_filter_push(*a, shown_in(groups@[h].folder@, search@));
                            if h != f {
                                assert(groups@[h] == old_groups[h]);
                            }
                        }
                        assert forall|g1: int, h1: int|
                            0 <= g1 < h1 < groups@.len() implies groups@[g1].folder@ != groups@[h1].folder@ by {
                            assert(groups@[g1].folder == old_groups[g1].folder);
                            assert(groups@[h1].folder == old_groups[h1].folder);
                        }
                        assert forall|j: int|
                            0 <= j < i + 1 && passes_search(#[trigger] assets@[j], search@) implies exists|g: int|
                                0 <= g < groups@.len() && groups@[g].folder@ == assets@[j].folder@ by {
                            if j < i {
                                let g0 = choose|g: int|
                                    0 <= g < old_groups.len() && old_groups[g].folder@ == assets@[j].folder@;
                                assert(groups@[g0].folder == old_groups[g0].folder);
                            } else {
                                assert(groups@[f as int].folder@ == assets@[j].folder@);
                            }
                        }
                        assert forall|k2: int| 0 <= k2 < 4 implies (#[trigger] groups@[k2]).folder@ == fixed_folders()[k2] by {
                            assert(groups@[k2].folder == old_groups[k2].folder);
                        }
                        assert forall|g2: int| 4 <= g2 < groups@.len() implies (#[trigger] groups@[g2]).assets@.len() > 0 by {
                            if g2 != f {
                                assert(groups@[g2] == old_groups[g2]);
                            }
                        }
                    }
                },
                None => {
                    let mut fresh = Vec::new();
                    fresh.push(a.clone());
                    groups.push(FolderGroup { folder: a.folder.clone(), assets: fresh });
                    proof {
                        let last = (groups@.len() - 1) as int;
                        assert forall|h: int| 0 <= h < groups@.len() implies (#[trigger] groups@[h]).assets@
                            == after.filter(shown_in(groups@[h].folder@, search@)) by {
                            before.lemma_filter_push(*a, shown_in(groups@[h].folder@, search@));
                            if h != last {
                                assert(groups@[h] == old_groups[h]);
                            } else {
                                lemma_none_shown(before, a.folder@, search@);
                                reveal(Seq::filter);
                                assert(groups@[h].assets@ =~= seq![*a]);
                                assert(Seq::<LibraryAsset>::empty().push(*a) =~= seq![*a]);
                            }
                        }
                        assert forall|j: int|
                            0 <= j < i + 1 && passes_search(#[trigger] assets@[j], search@) implies exists|g: int|
                                0 <= g < groups@.len() && groups@[g].folder@ == assets@[j].folder@ by {
                            if j < i {
                                let g0 = choose|g: int|
                                    0 <= g < old_groups.len() && old_groups[g].folder@ == assets@[j].folder@;
                                assert(groups@[g0] == old_groups[g0]);
                            } else {
                                assert(groups@[last].folder@ == assets@[j].folder@);
                            }
                        }
                    }
                },
            }
        } else {
            proof {
                assert forall|h: int| 0 <= h < groups@.len() implies (#[trigger] groups@[h]).assets@
                    == after.filter(shown_in(groups@[h].folder@, search@)) by {
                    before.lemma_filter_push(*a, shown_in(groups@[h].folder@, search@));
                }
            }
        }
        i = i + 1;
    }
    assert(assets@.take(n as int) =~= assets@);
    groups
}

/// When a folder matches no earlier asset's folder among those that pass
/// the search, its filtered list is empty.
proof fn lemma_none_shown(before: Seq<LibraryAsset>, folder: Seq<char>, search: Seq<char>)
    requires
        forall|j: int|
            0 <= j < before.len() && passes_search(#[trigger] before[j], search) ==> before[j].folder@
                != folder,
    ensures
        before.filter(shown_in(folder, search)).len() == 0,
    decreases before.len(),
{
    reveal(Seq::filter);
    if before.len() > 0 {
        let rest = before.drop_last();
        assert forall|j: int|
            0 <= j < rest.len() && passes_search(#[trigger] rest[j], search) implies rest[j].folder@
            != folder by {
            assert(rest[j] == before[j]);
        }
        lemma_none_shown(rest, folder, search);
        assert(before[before.len() - 1] == before.last());
    }
}

/// The positions, in library order, of the assets exported for code access
/// (those with a linkage class), as the ActionScript tab lists them.
pub fn linked_assets(assets: &Vec<LibraryAsset>) -> (positions: Vec<usize>)
    ensures
        forall|k: int|
            0 <= k < positions@.len() ==> positions@[k] < assets@.len()
                && assets@[positions@[k] as int].properties.linkage_class is Some,
        forall|a: int, b: int| 0 <= a < b < positions@.len() ==> positions@[a] < positions@[b],
        forall|i: int|
            0 <= i < assets@.len() && (#[trigger] assets@[i]).properties.linkage_class is Some
                ==> positions@.contains(i as usize),
{
    let mut positions: Vec<usize> = Vec::new();
    let mut i: usize = 0;
    while i < assets.len()
        invariant
            i <= assets@.len(),
            forall|k: int|
                0 <= k < positions@.len() ==> positions@[k] < i
                    && assets@[positions@[k] as int].properties.linkage_class is Some,
            forall|a: int, b: int| 0 <= a < b < positions@.len() ==> positions@[a] < positions@[b],
            forall|j: int|
                0 <= j < i && (#[trigger] assets@[j]).properties.linkage_class is Some
                    ==> positions@.contains(j as usize),
        decreases assets@.len() - i,
    {
        if assets[i].properties.linkage_class.is_some() {
            let ghost prior = positions@;
            positions.push(i);
            assert forall|j: int|
                0 <= j <= i && (#[trigger] assets@[j]).properties.linkage_class is Some
                    implies positions@.contains(j as usize) by {
                if j < i {
                    let k = choose|k: int| 0 <= k < prior.len() && prior[k] == j as usize;
                    assert(positions@[k] == j as usize);
                } else {
                    assert(positions@[prior.len() as int] == i);
                }
            }
        }
        i = i + 1;
    }
    positions
}

/// The asset tree shows an asset in the group of its own folder and in no
/// other, and only when the search is empty or the search text, lower-cased,
/// occurs somewhere in the asset's lower-cased name, at any position and not
/// only at its start (so "Background Music" is shown for "music"); such an
/// asset is always shown.
pub proof fn lemma_search_finds_text_anywhere(
    groups: Seq<FolderGroup>,
    assets: Seq<LibraryAsset>,
    search: Seq<char>,
    i: int,
)
    requires
        is_asset_tree(groups, assets, search),
        0 <= i < assets.len(),
    ensures
        ({
            let name = lowercase(assets[i].name@);
            let text = lowercase(search);
            let matched = search.len() == 0 || exists|at: int|
                0 <= at && at + text.len() <= name.len() && #[trigger] name.subrange(at, at + text.len())
                    == text;
            &&& forall|g: int|
                0 <= g < groups.len() ==> ((#[trigger] groups[g]).assets@.contains(assets[i]) <==> (
                groups[g].folder@ == assets[i].folder@ && matched))
            &&& matched ==> exists|g: int|
                0 <= g < groups.len() && groups[g].folder@ == assets[i].folder@ && (#[trigger] groups[g]).assets@.contains(
                    assets[i],
                )
        }),
{
    let a = assets[i];
    let name = lowercase(a.name@);
    let text = lowercase(search);
    let matched = search.len() == 0 || exists|at: int|
        0 <= at && at + text.len() <= name.len() && #[trigger] name.subrange(at, at + text.len()) == text;
    assert(matched == passes_search(a, search)) by {
        if search.len() != 0 {
            if contains_text(name, text) {
                let at = choose|at: int| crate::text::occurs_at(name, text, at);
                assert(name.subrange(at, at + text.len()) == text);
            }
            if exists|at: int|
                0 <= at && at + text.len() <= name.len() && #[trigger] name.subrange(at, at + text.len())
                    == text {
                let at = choose|at: int|
                    0 <= at && at + text.len() <= name.len() && #[trigger] name.subrange(at, at + text.len())
                        == text;
                assert(crate::text::occurs_at(name, text, at));
            }
        }
    }
    assert forall|g: int| 0 <= g < groups.len() implies ((#[trigger] groups[g]).assets@.contains(a) <==> (
    groups[g].folder@ == a.folder@ && matched)) by {
        let keep = shown_in(groups[g].folder@, search);
        assert(groups[g].assets@ == assets.filter(keep));
        if groups[g].folder@ == a.folder@ && matched {
            assets.lemma_filter_contains(keep, i);
        }
        if groups[g].assets@.contains(a) {
            let k = choose|k: int| 0 <= k < assets.filter(keep).len() && assets.filter(keep)[k] == a;
            assets.lemma_filter_pred(keep, k);
        }
    }
    if matched {
        let g = choose|g: int| 0 <= g < groups.len() && groups[g].folder@ == a.folder@;
        let keep = shown_in(groups[g].folder@, search);
        assets.lemma_filter_contains(keep, i);
        assert(groups[g].assets@.contains(a));
    }
}

/// The extensions of dropped files that the library takes, with the kind
/// of asset and MIME family of each: png, jpg, jpeg, gif and bmp are
/// bitmaps (image/*); mp3, wav, ogg and aac sounds (audio/*); mp4, mov, avi
/// and webm videos (video/*); ttf, otf, woff and woff2 fonts (font/*); every
/// other extension is refused.
pub proof fn lemma_extension_table(e: Seq<char>)
    ensures
        e == "png"@ || e == "jpg"@ || e == "jpeg"@ || e == "gif"@ || e == "bmp"@ ==> extension_kind(e)
            == Some((LibraryAssetType::Bitmap, "image/*"@)),
        e == "mp3"@ || e == "wav"@ || e == "ogg"@ || e == "aac"@ ==> extension_kind(e) == Some(
            (LibraryAssetType::Sound, "audio/*"@),
        ),
        e == "mp4"@ || e == "mov"@ || e == "avi"@ || e == "webm"@ ==> extension_kind(e) == Some(
            (LibraryAssetType::Video, "video/*"@),
        ),
        e == "ttf"@ || e == "otf"@ || e == "woff"@ || e == "woff2"@ ==> extension_kind(e) == Some(
            (LibraryAssetType::Font, "font/*"@),
        ),
        extension_kind(e) is None <==> !(e == "png"@ || e == "jpg"@ || e == "jpeg"@ || e == "gif"@
            || e == "bmp"@ || e == "mp3"@ || e == "wav"@ || e == "ogg"@ || e == "aac"@ || e == "mp4"@
            || e == "mov"@ || e == "avi"@ || e == "webm"@ || e == "ttf"@ || e == "otf"@ || e
            == "woff"@ || e == "woff2"@),
{
    reveal_strlit("png");
    reveal_strlit("jpg");
    reveal_strlit("jpeg");
    reveal_strlit("gif");
    reveal_strlit("bmp");
    reveal_strlit("mp3");
    reveal_strlit("wav");
    reveal_strlit("ogg");
    reveal_strlit("aac");
    reveal_strlit("mp4");
    reveal_strlit("mov");
    reveal_strlit("avi");
    reveal_strlit("webm");
    reveal_strlit("ttf");
    reveal_strlit("otf");
    reveal_strlit("woff");
    reveal_strlit("woff2");
    assert("png"@ =~= seq!['p', 'n', 'g']);
    assert("jpg"@ =~= seq!['j', 'p', 'g']);
    assert("jpeg"@ =~= seq!['j', 'p', 'e', 'g']);
    assert("gif"@ =~= seq!['g', 'i', 'f']);
    assert("bmp"@ =~= seq!['b', 'm', 'p']);
    assert("mp3"@ =~= seq!['m', 'p', '3']);
    assert("wav"@ =~= seq!['w', 'a', 'v']);
    assert("ogg"@ =~= seq!['o', 'g', 'g']);
    assert("aac"@ =~= seq!['a', 'a', 'c']);
    assert("mp4"@ =~= seq!['m', 'p', '4']);
    assert("mov"@ =~= seq!['m', 'o', 'v']);
    assert("avi"@ =~= seq!['a', 'v', 'i']);
    assert("webm"@ =~= seq!['w', 'e', 'b', 'm']);
    assert("ttf"@ =~= seq!['t', 't', 'f']);
    assert("otf"@ =~= seq!['o', 't', 'f']);
    assert("woff"@ =~= seq!['w', 'o', 'f', 'f']);
    assert("woff2"@ =~= seq!['w', 'o', 'f', 'f', '2']);
    if e.len() >= 3 {
        assert(e[0] == e[0] && e[1] == e[1] && e[2] == e[2]);
    }
}

} // verus!
