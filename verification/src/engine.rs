//! The timeline engine that the editor drives: layers, the playhead and the
//! frames that hold content. It stands in, in-process, for the RustFlash
//! editor that the timeline would otherwise talk to.

use vstd::prelude::*;
use crate::ids::{fresh_uuid, is_v4_uuid, uuid_hyphenated, uuid_text};
use crate::text::same_text;

verus! {

/// The identifier of a layer.
#[derive(PartialEq, Eq, Debug)]
pub struct LayerId(pub String);

impl LayerId {
    /// The layer identifier with the given text.
    pub fn new(id: String) -> (layer_id: LayerId)
        ensures
            layer_id@ == id@,
    {
        LayerId(id)
    }
}

impl View for LayerId {
    type V = Seq<char>;

    open spec fn view(&self) -> Seq<char> {
        self.0@
    }
}

impl Clone for LayerId {
    fn clone(&self) -> (copy: Self)
        ensures
            copy == *self,
    {
        LayerId(self.0.clone())
    }
}

/// The kinds of layer.
#[derive(Clone, Copy, PartialEq, Eq, Debug, Structural)]
pub enum LayerType {
    Normal,
    Folder,
    Guide,
}

/// What the timeline shows of a layer.
#[derive(PartialEq, Eq, Debug)]
pub struct LayerInfo {
    pub id: LayerId,
    pub name: String,
    pub layer_type: LayerType,
    pub visible: bool,
    pub locked: bool,
    pub parent_id: Option<LayerId>,
    pub children: Vec<LayerId>,
}

/// A layer as the contracts see it: its texts as character sequences.
pub struct LayerInfoView {
    pub id: Seq<char>,
    pub name: Seq<char>,
    pub layer_type: LayerType,
    pub visible: bool,
    pub locked: bool,
    pub parent_id: Option<Seq<char>>,
    pub children: Seq<Seq<char>>,
}

impl View for LayerInfo {
    type V = LayerInfoView;

    open spec fn view(&self) -> LayerInfoView {
        LayerInfoView {
            id: self.id@,
            name: self.name@,
            layer_type: self.layer_type,
            visible: self.visible,
            locked: self.locked,
            parent_id: match self.parent_id {
                Some(p) => Some(p@),
                None => None,
            },
            children: self.children@.map_values(|c: LayerId| c@),
        }
    }
}

/// The views of a sequence of layers.
pub open spec fn layers_view(layers: Seq<LayerInfo>) -> Seq<LayerInfoView> {
    layers.map_values(|l: LayerInfo| l@)
}

impl Clone for LayerInfo {
    fn clone(&self) -> (copy: Self)
        ensures
            copy@ == self@,
    {
        let parent_id = match &self.parent_id {
            Some(p) => Some(p.clone()),
            None => None,
        };
        let children = self.children.clone();
        assert forall|i: int| 0 <= i < children@.len() implies children@[i] == self.children@[i] by {
            assert(cloned::<LayerId>(self.children@[i], children@[i]));
        }
        assert(children@.map_values(|c: LayerId| c@) =~= self.children@.map_values(|c: LayerId| c@));
        LayerInfo {
            id: self.id.clone(),
            name: self.name.clone(),
            layer_type: self.layer_type,
            visible: self.visible,
            locked: self.locked,
            parent_id,
            children,
        }
    }
}

/// The identifier of a keyframe: a random UUID, held as a 128-bit number.
#[derive(Clone, Copy, PartialEq, Eq, Debug, Structural)]
pub struct KeyframeId(pub u128);

impl KeyframeId {
    /// A fresh random keyframe identifier.
    pub fn new() -> (id: KeyframeId)
        ensures
            is_v4_uuid(id.0),
    {
        KeyframeId(fresh_uuid())
    }
}

/// What a frame of a layer holds.
#[derive(Clone, Copy, PartialEq, Eq, Debug, Structural)]
pub enum FrameType {
    Empty,
    Keyframe,
    Tween,
}

/// One frame of one layer.
#[derive(Clone, Copy, PartialEq, Eq, Debug, Structural)]
pub struct FrameData {
    pub frame_number: u32,
    pub frame_type: FrameType,
    pub has_content: bool,
    pub id: KeyframeId,
}

/// A stored frame, under the layer and frame number it belongs to.
struct FrameEntry {
    layer: LayerId,
    frame: u32,
    data: FrameData,
}

/// The key under which a frame is stored: the layer's identifier and the
/// frame number.
pub type FrameKey = (Seq<char>, u32);

spec fn entry_key(e: FrameEntry) -> FrameKey {
    (e.layer@, e.frame)
}

spec fn entries_hold(entries: Seq<FrameEntry>, key: FrameKey) -> bool {
    exists|i: int| 0 <= i < entries.len() && entry_key(entries[i]) == key
}

spec fn entries_data(entries: Seq<FrameEntry>, key: FrameKey) -> FrameData {
    entries[choose|i: int| 0 <= i < entries.len() && entry_key(entries[i]) == key].data
}

spec fn entries_map(entries: Seq<FrameEntry>) -> Map<FrameKey, FrameData> {
    Map::new(|key: FrameKey| entries_hold(entries, key), |key: FrameKey| entries_data(entries, key))
}

spec fn keys_distinct(entries: Seq<FrameEntry>) -> bool {
    forall|i: int, j: int|
        0 <= i < entries.len() && 0 <= j < entries.len() && i != j ==> entry_key(entries[i])
            != entry_key(entries[j])
}

/// Reading the map through a stored entry gives that entry's data.
proof fn lemma_entry_in_map(entries: Seq<FrameEntry>, i: int)
    requires
        keys_distinct(entries),
        0 <= i < entries.len(),
    ensures
        entries_map(entries).contains_key(entry_key(entries[i])),
        entries_map(entries)[entry_key(entries[i])] == entries[i].data,
{
    let key = entry_key(entries[i]);
    assert(entries_hold(entries, key));
    let c = choose|c: int| 0 <= c < entries.len() && entry_key(entries[c]) == key;
    assert(c == i);
}

/// Removing the stored entry at `i` removes its key from the map.
proof fn lemma_remove_entry(entries: Seq<FrameEntry>, i: int)
    requires
        keys_distinct(entries),
        0 <= i < entries.len(),
    ensures
        keys_distinct(entries.remove(i)),
        entries_map(entries.remove(i)) =~= entries_map(entries).remove(entry_key(entries[i])),
{
    let rest = entries.remove(i);
    let key = entry_key(entries[i]);
    assert forall|a: int, b: int|
        0 <= a < rest.len() && 0 <= b < rest.len() && a != b implies entry_key(rest[a])
        != entry_key(rest[b]) by {
        let oa = if a < i { a } else { a + 1 };
        let ob = if b < i { b } else { b + 1 };
        assert(rest[a] == entries[oa]);
        assert(rest[b] == entries[ob]);
    }
    assert forall|k: FrameKey| #[trigger] entries_map(rest).contains_key(k) <==> entries_map(entries).remove(key).contains_key(k) by {
        if entries_hold(rest, k) {
            let a = choose|a: int| 0 <= a < rest.len() && entry_key(rest[a]) == k;
            let oa = if a < i { a } else { a + 1 };
            assert(rest[a] == entries[oa]);
            assert(oa != i);
            assert(entries_hold(entries, k));
        }
        if entries_hold(entries, k) && k != key {
            let a = choose|a: int| 0 <= a < entries.len() && entry_key(entries[a]) == k;
            assert(a != i);
            let ra = if a < i { a } else { a - 1 };
            assert(rest[ra] == entries[a]);
            assert(entries_hold(rest, k));
        }
    }
    assert forall|k: FrameKey| #[trigger] entries_map(rest).contains_key(k) implies entries_map(rest)[k]
        == entries_map(entries).remove(key)[k] by {
        let a = choose|a: int| 0 <= a < rest.len() && entry_key(rest[a]) == k;
        let oa = if a < i { a } else { a + 1 };
        assert(rest[a] == entries[oa]);
        lemma_entry_in_map(rest, a);
        lemma_entry_in_map(entries, oa);
    }
}

/// Appending an entry under a key not yet stored adds that key to the map.
proof fn lemma_push_entry(entries: Seq<FrameEntry>, e: FrameEntry)
    requires
        keys_distinct(entries),
        !entries_hold(entries, entry_key(e)),
    ensures
        keys_distinct(entries.push(e)),
        entries_map(entries.push(e)) =~= entries_map(entries).insert(entry_key(e), e.data),
{
    let more = entries.push(e);
    let n = entries.len() as int;
    assert forall|a: int, b: int|
        0 <= a < more.len() && 0 <= b < more.len() && a != b implies entry_key(more[a])
        != entry_key(more[b]) by {
        if a < n && b < n {
            assert(more[a] == entries[a] && more[b] == entries[b]);
        } else if a < n {
            assert(more[a] == entries[a]);
        } else {
            assert(more[b] == entries[b]);
        }
    }
    assert forall|k: FrameKey| #[trigger] entries_map(more).contains_key(k) <==> entries_map(entries).insert(entry_key(e), e.data).contains_key(k) by {
        if entries_hold(more, k) {
            let a = choose|a: int| 0 <= a < more.len() && entry_key(more[a]) == k;
            if a < n {
                assert(more[a] == entries[a]);
            }
        }
        if entries_hold(entries, k) {
            let a = choose|a: int| 0 <= a < entries.len() && entry_key(entries[a]) == k;
            assert(more[a] == entries[a]);
        }
        if k == entry_key(e) {
            assert(more[n] == e);
        }
    }
    assert forall|k: FrameKey| #[trigger] entries_map(more).contains_key(k) implies entries_map(more)[k]
        == entries_map(entries).insert(entry_key(e), e.data)[k] by {
        let a = choose|a: int| 0 <= a < more.len() && entry_key(more[a]) == k;
        lemma_entry_in_map(more, a);
        if a < n {
            assert(more[a] == entries[a]);
            lemma_entry_in_map(entries, a);
        }
    }
}

/// Replacing the stored entry at `i` by an entry under the same key replaces
/// its data in the map.
proof fn lemma_update_entry(entries: Seq<FrameEntry>, i: int, e: FrameEntry)
    requires
        keys_distinct(entries),
        0 <= i < entries.len(),
        entry_key(e) == entry_key(entries[i]),
    ensures
        keys_distinct(entries.update(i, e)),
        entries_map(entries.update(i, e)) =~= entries_map(entries).insert(entry_key(e), e.data),
{
    let data = e.data;
    let next = entries.update(i, e);
    assert forall|a: int, b: int|
        0 <= a < next.len() && 0 <= b < next.len() && a != b implies entry_key(next[a])
        != entry_key(next[b]) by {
        assert(entry_key(next[a]) == entry_key(entries[a]));
        assert(entry_key(next[b]) == entry_key(entries[b]));
    }
    assert forall|k: FrameKey| #[trigger] entries_map(next).contains_key(k) <==> entries_map(entries).insert(entry_key(e), data).contains_key(k) by {
        if entries_hold(next, k) {
            let a = choose|a: int| 0 <= a < next.len() && entry_key(next[a]) == k;
            assert(entry_key(next[a]) == entry_key(entries[a]));
        }
        if entries_hold(entries, k) {
            let a = choose|a: int| 0 <= a < entries.len() && entry_key(entries[a]) == k;
            assert(entry_key(next[a]) == entry_key(entries[a]));
        }
        if k == entry_key(e) {
            assert(next[i] == e);
        }
    }
    assert forall|k: FrameKey| #[trigger] entries_map(next).contains_key(k) implies entries_map(next)[k]
        == entries_map(entries).insert(entry_key(e), data)[k] by {
        let a = choose|a: int| 0 <= a < next.len() && entry_key(next[a]) == k;
        lemma_entry_in_map(next, a);
        if a != i {
            assert(next[a] == entries[a]);
            lemma_entry_in_map(entries, a);
        }
    }
}

/// Whether `i` is the position of the first layer whose identifier is `id`.
pub open spec fn is_first_layer_with(layers: Seq<LayerInfoView>, id: Seq<char>, i: int) -> bool {
    &&& 0 <= i < layers.len()
    &&& layers[i].id == id
    &&& forall|j: int| 0 <= j < i ==> layers[j].id != id
}

/// The position of the first layer whose identifier is `id`, or -1 when no
/// layer has it.
pub open spec fn layer_index(layers: Seq<LayerInfoView>, id: Seq<char>) -> int {
    if exists|i: int| is_first_layer_with(layers, id, i) {
        choose|i: int| is_first_layer_with(layers, id, i)
    } else {
        -1
    }
}

/// At most one position is the first with a given identifier.
pub proof fn lemma_first_layer_unique(layers: Seq<LayerInfoView>, id: Seq<char>, i: int)
    requires
        is_first_layer_with(layers, id, i),
    ensures
        layer_index(layers, id) == i,
{
    let c = choose|c: int| is_first_layer_with(layers, id, c);
    assert(!(c < i));
    assert(!(i < c));
}

/// When no layer has the identifier, its index is -1.
pub proof fn lemma_no_layer(layers: Seq<LayerInfoView>, id: Seq<char>)
    requires
        forall|j: int| 0 <= j < layers.len() ==> layers[j].id != id,
    ensures
        layer_index(layers, id) == -1,
{
}

/// The layers after the property `property` of the first layer with
/// identifier `id` was set to `value`: "visible" and "locked" are the
/// properties that a layer has; any other name, or a missing layer, leaves
/// the layers unchanged.
pub open spec fn layers_with_property(
    layers: Seq<LayerInfoView>,
    id: Seq<char>,
    property: Seq<char>,
    value: bool,
) -> Seq<LayerInfoView> {
    let i = layer_index(layers, id);
    if i < 0 {
        layers
    } else if property == "visible"@ {
        layers.update(i, LayerInfoView { visible: value, ..layers[i] })
    } else if property == "locked"@ {
        layers.update(i, LayerInfoView { locked: value, ..layers[i] })
    } else {
        layers
    }
}

/// The property `property` of the first layer with identifier `id`: false
/// for a missing layer or an unknown property.
pub open spec fn layer_property(layers: Seq<LayerInfoView>, id: Seq<char>, property: Seq<char>) -> bool {
    let i = layer_index(layers, id);
    if i < 0 {
        false
    } else if property == "visible"@ {
        layers[i].visible
    } else if property == "locked"@ {
        layers[i].locked
    } else {
        false
    }
}

/// The layers after the first layer with identifier `id` was renamed.
pub open spec fn layers_renamed(layers: Seq<LayerInfoView>, id: Seq<char>, name: Seq<char>) -> Seq<LayerInfoView> {
    let i = layer_index(layers, id);
    if i < 0 {
        layers
    } else {
        layers.update(i, LayerInfoView { name: name, ..layers[i] })
    }
}

/// Whether `layer` is a new, visible and unlocked top-level layer without
/// children, with the given identifier, name and kind.
pub open spec fn is_fresh_layer(layer: LayerInfoView, id: Seq<char>, name: Seq<char>, layer_type: LayerType) -> bool {
    &&& layer.id == id
    &&& layer.name == name
    &&& layer.layer_type == layer_type
    &&& layer.visible
    &&& !layer.locked
    &&& layer.parent_id is None
    &&& layer.children.len() == 0
}

/// Whether `now` is `before` with one more layer at the end, and that layer
/// is fresh, with the given identifier, name and kind.
pub open spec fn appended_fresh_layer(
    before: Seq<LayerInfoView>,
    now: Seq<LayerInfoView>,
    id: Seq<char>,
    name: Seq<char>,
    layer_type: LayerType,
) -> bool {
    &&& now.len() == before.len() + 1
    &&& now.drop_last() == before
    &&& is_fresh_layer(now.last(), id, name, layer_type)
}

/// The identifier text of a layer created with the random UUID `value`.
pub open spec fn generated_layer_id(value: u128) -> Seq<char> {
    "rustflash_layer_"@ + uuid_hyphenated(value)
}

/// Whether `id` was generated for a new layer: the prefix `rustflash_layer_`
/// and a random UUID.
pub open spec fn is_generated_layer_id(id: Seq<char>) -> bool {
    exists|value: u128| is_v4_uuid(value) && id == generated_layer_id(value)
}

/// The layers that the engine starts with.
pub open spec fn initial_layers_hold(layers: Seq<LayerInfoView>) -> bool {
    &&& layers.len() == 2
    &&& layers[0].id == "rustflash_layer_1"@
    &&& layers[0].name == "Animation"@
    &&& layers[1].id == "rustflash_layer_2"@
    &&& layers[1].name == "Background"@
    &&& forall|i: int|
        0 <= i < 2 ==> {
            &&& (#[trigger] layers[i]).layer_type == LayerType::Normal
            &&& layers[i].visible
            &&& !layers[i].locked
            &&& layers[i].parent_id is None
            &&& layers[i].children.len() == 0
        }
}

/// Whether the stored frames are the ones the engine starts with: on the
/// first layer, keyframes at frames 0, 15 and 30 and tweens between them;
/// every stored frame has content and a random identifier.
pub open spec fn initial_frames_hold(frames: Map<FrameKey, FrameData>) -> bool {
    forall|key: FrameKey|
        #![trigger frames.contains_key(key)]
        (frames.contains_key(key) <==> (key.0 == "rustflash_layer_1"@ && key.1 <= 30)) && (
        frames.contains_key(key) ==> {
            let d = frames[key];
            &&& d.frame_number == key.1
            &&& d.frame_type == (if key.1 % 15 == 0 {
                FrameType::Keyframe
            } else {
                FrameType::Tween
            })
            &&& d.has_content
            &&& is_v4_uuid(d.id.0)
        })
}

/// Whether a layer's identifier differs from `id`.
pub open spec fn other_than(id: Seq<char>) -> spec_fn(LayerInfoView) -> bool {
    |l: LayerInfoView| l.id != id
}

/// The abstract state of the engine.
pub struct EngineView {
    pub layers: Seq<LayerInfoView>,
    pub current_frame: u32,
    pub total_frames: u32,
    pub fps: u32,
    pub is_playing: bool,
    pub frames: Map<FrameKey, FrameData>,
}

/// The in-process timeline engine.
pub struct RustFlashIntegration {
    layers: Vec<LayerInfo>,
    current_frame: u32,
    total_frames: u32,
    fps: u32,
    is_playing: bool,
    frame_data: Vec<FrameEntry>,
}

impl View for RustFlashIntegration {
    type V = EngineView;

    closed spec fn view(&self) -> EngineView {
        EngineView {
            layers: layers_view(self.layers@),
            current_frame: self.current_frame,
            total_frames: self.total_frames,
            fps: self.fps,
            is_playing: self.is_playing,
            frames: entries_map(self.frame_data@),
        }
    }
}

/// Where the playhead lands when asked to go to `frame`: there, or at the
/// last frame when `frame` is past it.
pub open spec fn seek_target(total: u32, frame: u32) -> u32 {
    if frame < total { frame } else { total }
}

/// The empty frame that a lookup answers where nothing is stored.
pub open spec fn is_empty_frame(d: FrameData, frame: u32) -> bool {
    &&& d.frame_number == frame
    &&& d.frame_type == FrameType::Empty
    &&& !d.has_content
    &&& is_v4_uuid(d.id.0)
}

impl RustFlashIntegration {
    #[verifier::type_invariant]
    closed spec fn well_formed(self) -> bool {
        &&& keys_distinct(self.frame_data@)
        &&& 0 < self.total_frames
        &&& self.current_frame <= self.total_frames
    }

    /// An engine with two layers, "Animation" and "Background", a hundred
    /// frames at 24 frames per second, stopped at frame 0, and a tweened
    /// animation on the first layer.
    pub fn new() -> (engine: RustFlashIntegration)
        ensures
            initial_layers_hold(engine@.layers),
            initial_frames_hold(engine@.frames),
            engine@.current_frame == 0,
            engine@.total_frames == 100,
            engine@.fps == 24,
            !engine@.is_playing,
    {
        let mut layers: Vec<LayerInfo> = Vec::new();
        layers.push(
            LayerInfo {
                id: LayerId::new(String::from_str("rustflash_layer_1")),
                name: String::from_str("Animation"),
                layer_type: LayerType::Normal,
                visible: true,
                locked: false,
                parent_id: None,
                children: Vec::new(),
            },
        );
        layers.push(
            LayerInfo {
                id: LayerId::new(String::from_str("rustflash_layer_2")),
                name: String::from_str("Background"),
                layer_type: LayerType::Normal,
                visible: true,
                locked: false,
                parent_id: None,
                children: Vec::new(),
            },
        );
        let mut frame_data: Vec<FrameEntry> = Vec::new();
        let mut frame: u32 = 0;
        while frame <= 30
            invariant
                frame <= 31,
                frame_data@.len() == frame,
                forall|i: int|
                    #![trigger frame_data@[i]]
                    0 <= i < frame ==> {
                        &&& frame_data@[i].layer@ == "rustflash_layer_1"@
                        &&& frame_data@[i].frame == i
                        &&& frame_data@[i].data.frame_number == i
                        &&& frame_data@[i].data.frame_type == (if i % 15 == 0 {
                            FrameType::Keyframe
                        } else {
                            FrameType::Tween
                        })
                        &&& frame_data@[i].data.has_content
                        &&& is_v4_uuid(frame_data@[i].data.id.0)
                    },
            decreases 31 - frame,
        {
            let frame_type = if frame % 15 == 0 {
                FrameType::Keyframe
            } else {
                FrameType::Tween
            };
            frame_data.push(
                FrameEntry {
                    layer: LayerId::new(String::from_str("rustflash_layer_1")),
                    frame,
                    data: FrameData { frame_number: frame, frame_type, has_content: true, id: KeyframeId::new() },
                },
            );
            frame = frame + 1;
        }
        let engine = RustFlashIntegration {
            layers,
            current_frame: 0,
            total_frames: 100,
            fps: 24,
            is_playing: false,
            frame_data,
        };
        proof {
            let entries = engine.frame_data@;
            assert forall|key: FrameKey|
                #![trigger entries_map(entries).contains_key(key)]
                (entries_map(entries).contains_key(key) <==> (key.0 == "rustflash_layer_1"@ && key.1 <= 30)) && (
                entries_map(entries).contains_key(key) ==> {
                    let d = entries_map(entries)[key];
                    &&& d.frame_number == key.1
                    &&& d.frame_type == (if key.1 % 15 == 0 {
                        FrameType::Keyframe
                    } else {
                        FrameType::Tween
                    })
                    &&& d.has_content
                    &&& is_v4_uuid(d.id.0)
                }) by {
                if key.0 == "rustflash_layer_1"@ && key.1 <= 30 {
                    assert(entry_key(entries[key.1 as int]) == key);
                }
                if entries_hold(entries, key) {
                    let c = choose|c: int| 0 <= c < entries.len() && entry_key(entries[c]) == key;
                    assert(entries[c].frame == c);
                }
            }
            assert(engine@.layers[0].children =~= Seq::<Seq<char>>::empty());
            assert(engine@.layers[1].children =~= Seq::<Seq<char>>::empty());
        }
        engine
    }

    /// Advances the playhead by one frame, wrapping at the end, while playing.
    pub fn receive_state(&mut self)
        ensures
            final(self)@ == (EngineView {
                current_frame: if old(self)@.is_playing {
                    ((old(self)@.current_frame + 1) % (old(self)@.total_frames as int)) as u32
                } else {
                    old(self)@.current_frame
                },
                ..old(self)@
            }),
    {
        proof { use_type_invariant(&*self); }
        if self.is_playing {
            let next = (self.current_frame as u64 + 1) % (self.total_frames as u64);
            self.current_frame = next as u32;
        }
    }

    /// The layers, in their order.
    pub fn get_layers(&self) -> (layers: Vec<LayerInfo>)
        ensures
            layers_view(layers@) == self@.layers,
    {
        let layers = self.layers.clone();
        assert forall|i: int| 0 <= i < layers@.len() implies layers@[i]@ == self.layers@[i]@ by {
            assert(cloned::<LayerInfo>(self.layers@[i], layers@[i]));
        }
        assert(layers_view(layers@) =~= layers_view(self.layers@));
        layers
    }

    /// Finds the stored frame under (`layer`, `frame`).
    fn find_frame(&self, layer: &LayerId, frame: u32) -> (found: Option<usize>)
        ensures
            match found {
                Some(i) => i < self.frame_data@.len() && entry_key(self.frame_data@[i as int]) == (
                layer.0@,
                frame,
                ),
                None => !entries_hold(self.frame_data@, (layer@, frame)),
            },
    {
        let mut i: usize = 0;
        while i < self.frame_data.len()
            invariant
                i <= self.frame_data@.len(),
                forall|j: int| 0 <= j < i ==> entry_key(self.frame_data@[j]) != (layer@, frame),
            decreases self.frame_data@.len() - i,
        {
            if self.frame_data[i].frame == frame && self.frame_data[i].layer.0 == layer.0 {
                return Some(i);
            }
            i = i + 1;
        }
        None
    }

    /// The frame `frame` of the layer `layer_id`: what is stored there, or an
    /// empty frame with a fresh identifier.
    pub fn get_frame_data(&self, layer_id: LayerId, frame: u32) -> (data: FrameData)
        ensures
            self@.frames.contains_key((layer_id@, frame)) ==> data == self@.frames[(layer_id@, frame)],
            !self@.frames.contains_key((layer_id@, frame)) ==> is_empty_frame(data, frame),
    {
        proof { use_type_invariant(self); }
        let fallback = FrameData {
            frame_number: frame,
            frame_type: FrameType::Empty,
            has_content: false,
            id: KeyframeId::new(),
        };
        match self.find_frame(&layer_id, frame) {
            Some(i) => {
                proof { lemma_entry_in_map(self.frame_data@, i as int); }
                self.frame_data[i].data
            },
            None => fallback,
        }
    }

    /// Starts playback.
    pub fn play(&mut self)
        ensures
            final(self)@ == (EngineView { is_playing: true, ..old(self)@ }),
    {
        proof { use_type_invariant(&*self); }
        self.is_playing = true;
    }

    /// Stops playback.
    pub fn pause(&mut self)
        ensures
            final(self)@ == (EngineView { is_playing: false, ..old(self)@ }),
    {
        proof { use_type_invariant(&*self); }
        self.is_playing = false;
    }

    /// Moves the playhead to `frame`, or to the last frame when `frame` is
    /// past it.
    pub fn seek(&mut self, frame: u32)
        ensures
            final(self)@ == (EngineView {
                current_frame: seek_target(old(self)@.total_frames, frame),
                ..old(self)@
            }),
    {
        proof { use_type_invariant(&*self); }
        self.current_frame = if frame < self.total_frames {
            frame
        } else {
            self.total_frames
        };
    }

    /// The frame under the playhead.
    pub fn get_current_frame(&self) -> (frame: u32)
        ensures
            frame == self@.current_frame,
    {
        self.current_frame
    }

    /// The number of frames.
    pub fn get_total_frames(&self) -> (total: u32)
        ensures
            total == self@.total_frames,
    {
        self.total_frames
    }

    /// The frame rate, in frames per second.
    pub fn get_fps(&self) -> (fps: u32)
        ensures
            fps == self@.fps,
    {
        self.fps
    }

    /// Passes the request to insert a frame on to the editor; the engine's
    /// own state does not change.
    pub fn insert_frame(&mut self, layer_id: LayerId, frame: u32)
        ensures
            final(self)@ == old(self)@,
    {
    }

    /// Passes the request to remove a frame on to the editor; the engine's
    /// own state does not change.
    pub fn remove_frame(&mut self, layer_id: LayerId, frame: u32)
        ensures
            final(self)@ == old(self)@,
    {
    }

    /// Stores `data` under (`layer`, `frame`), replacing what was there.
    fn store_frame(&mut self, layer: LayerId, frame: u32, data: FrameData)
        ensures
            final(self)@ == (EngineView {
                frames: old(self)@.frames.insert((layer@, frame), data),
                ..old(self)@
            }),
    {
        proof { use_type_invariant(&*self); }
        let ghost key = (layer@, frame);
        let found = self.find_frame(&layer, frame);
        let mut entries = Vec::new();
        std::mem::swap(&mut entries, &mut self.frame_data);
        match found {
            Some(i) => {
                let entry = FrameEntry { layer, frame, data };
                proof { lemma_update_entry(entries@, i as int, entry); }
                entries.set(i, entry);
            },
            None => {
                let entry = FrameEntry { layer, frame, data };
                proof { lemma_push_entry(entries@, entry); }
                entries.push(entry);
            },
        }
        self.frame_data = entries;
    }

    /// Removes what is stored under (`layer`, `frame`), if anything.
    fn drop_frame(&mut self, layer: &LayerId, frame: u32) -> (removed: Option<FrameData>)
        ensures
            final(self)@ == (EngineView {
                frames: old(self)@.frames.remove((layer@, frame)),
                ..old(self)@
            }),
            removed == (if old(self)@.frames.contains_key((layer@, frame)) {
                Some(old(self)@.frames[(layer@, frame)])
            } else {
                None
            }),
    {
        proof { use_type_invariant(&*self); }
        match self.find_frame(layer, frame) {
            Some(i) => {
                proof {
                    lemma_remove_entry(self.frame_data@, i as int);
                    lemma_entry_in_map(self.frame_data@, i as int);
                }
                let mut entries = Vec::new();
                std::mem::swap(&mut entries, &mut self.frame_data);
                let entry = entries.remove(i);
                self.frame_data = entries;
                Some(entry.data)
            },
            None => {
                assert(entries_map(self.frame_data@).remove((layer@, frame)) =~= entries_map(
                    self.frame_data@,
                ));
                None
            },
        }
    }

    /// Makes frame `frame` of the layer a keyframe with content and a fresh
    /// identifier.
    pub fn insert_keyframe(&mut self, layer_id: LayerId, frame: u32)
        ensures
            ({
                let d = final(self)@.frames[(layer_id@, frame)];
                &&& d.frame_number == frame
                &&& d.frame_type == FrameType::Keyframe
                &&& d.has_content
                &&& is_v4_uuid(d.id.0)
                &&& final(self)@ == (EngineView {
                    frames: old(self)@.frames.insert((layer_id@, frame), d),
                    ..old(self)@
                })
            }),
    {
        let data = FrameData {
            frame_number: frame,
            frame_type: FrameType::Keyframe,
            has_content: true,
            id: KeyframeId::new(),
        };
        self.store_frame(layer_id, frame, data);
    }

    /// Empties frame `frame` of the layer.
    pub fn clear_keyframe(&mut self, layer_id: LayerId, frame: u32)
        ensures
            final(self)@ == (EngineView {
                frames: old(self)@.frames.remove((layer_id@, frame)),
                ..old(self)@
            }),
    {
        self.drop_frame(&layer_id, frame);
    }

    /// Passes the request for a motion tween on to the editor; the engine's
    /// own state does not change.
    pub fn create_motion_tween(&mut self, layer_id: LayerId, frame: u32)
        ensures
            final(self)@ == old(self)@,
    {
    }

    /// Passes the request for a shape tween on to the editor; the engine's
    /// own state does not change.
    pub fn create_shape_tween(&mut self, layer_id: LayerId, frame: u32)
        ensures
            final(self)@ == old(self)@,
    {
    }

    /// Moves what is stored at `from_frame` of the layer to `to_frame`,
    /// unchanged; nothing happens when `from_frame` holds nothing.
    pub fn move_keyframe(&mut self, layer_id: LayerId, from_frame: u32, to_frame: u32)
        ensures
            old(self)@.frames.contains_key((layer_id@, from_frame)) ==> final(self)@ == (EngineView {
                frames: old(self)@.frames.remove((layer_id@, from_frame)).insert(
                    (layer_id@, to_frame),
                    old(self)@.frames[(layer_id@, from_frame)],
                ),
                ..old(self)@
            }),
            !old(self)@.frames.contains_key((layer_id@, from_frame)) ==> final(self)@ == old(self)@,
    {
        match self.drop_frame(&layer_id, from_frame) {
            Some(data) => {
                self.store_frame(layer_id, to_frame, data);
            },
            None => {
                assert(self@.frames =~= old(self)@.frames);
            },
        }
    }

    /// What is stored at frame `frame` of the layer, if anything.
    pub fn copy_keyframe(&mut self, layer_id: LayerId, frame: u32) -> (copied: Option<FrameData>)
        ensures
            final(self)@ == old(self)@,
            copied == (if old(self)@.frames.contains_key((layer_id@, frame)) {
                Some(old(self)@.frames[(layer_id@, frame)])
            } else {
                None
            }),
    {
        proof { use_type_invariant(&*self); }
        match self.find_frame(&layer_id, frame) {
            Some(i) => {
                proof { lemma_entry_in_map(self.frame_data@, i as int); }
                Some(self.frame_data[i].data)
            },
            None => None,
        }
    }

    /// Stores `data`, unchanged, at frame `frame` of the layer.
    pub fn paste_keyframe(&mut self, layer_id: LayerId, frame: u32, data: FrameData)
        ensures
            final(self)@ == (EngineView {
                frames: old(self)@.frames.insert((layer_id@, frame), data),
                ..old(self)@
            }),
    {
        self.store_frame(layer_id, frame, data);
    }

    /// Empties frame `frame` of the layer.
    pub fn delete_keyframe(&mut self, layer_id: LayerId, frame: u32)
        ensures
            final(self)@ == (EngineView {
                frames: old(self)@.frames.remove((layer_id@, frame)),
                ..old(self)@
            }),
    {
        self.drop_frame(&layer_id, frame);
    }

    /// The position of the first layer with the identifier, if any.
    fn find_layer(&self, layer_id: &LayerId) -> (found: Option<usize>)
        ensures
            match found {
                Some(i) => is_first_layer_with(self@.layers, layer_id@, i as int),
                None => forall|j: int| 0 <= j < self@.layers.len() ==> self@.layers[j].id != layer_id@,
            },
    {
        let mut i: usize = 0;
        while i < self.layers.len()
            invariant
                i <= self.layers@.len(),
                forall|j: int| 0 <= j < i ==> self@.layers[j].id != layer_id@,
            decreases self.layers@.len() - i,
        {
            if self.layers[i].id.0 == layer_id.0 {
                return Some(i);
            }
            i = i + 1;
        }
        None
    }

    /// Sets the "visible" or "locked" property of the first layer with the
    /// identifier; other property names and missing layers change nothing.
    pub fn set_property(&mut self, layer_id: LayerId, frame: u32, property: &str, value: bool)
        ensures
            final(self)@ == (EngineView {
                layers: layers_with_property(old(self)@.layers, layer_id@, property@, value),
                ..old(self)@
            }),
    {
        proof { use_type_invariant(&*self); }
        proof { reveal_strlit("visible"); reveal_strlit("locked"); }
        match self.find_layer(&layer_id) {
            Some(i) => {
                proof { lemma_first_layer_unique(self@.layers, layer_id@, i as int); }
                let mut layers = Vec::new();
                std::mem::swap(&mut layers, &mut self.layers);
                if same_text(property, "visible") {
                    let mut layer = layers.remove(i);
                    layer.visible = value;
                    layers.insert(i, layer);
                } else if same_text(property, "locked") {
                    let mut layer = layers.remove(i);
                    layer.locked = value;
                    layers.insert(i, layer);
                }
                self.layers = layers;
                assert(layers_view(self.layers@) =~= layers_with_property(old(self)@.layers, layer_id@, property@, value));
            },
            None => {
                proof { lemma_no_layer(self@.layers, layer_id@); }
            },
        }
    }

    /// The "visible" or "locked" property of the first layer with the
    /// identifier; false for any other property or a missing layer.
    pub fn get_property(&self, layer_id: LayerId, frame: u32, property: &str) -> (value: bool)
        ensures
            value == layer_property(self@.layers, layer_id@, property@),
    {
        proof { reveal_strlit("visible"); reveal_strlit("locked"); }
        match self.find_layer(&layer_id) {
            Some(i) => {
                proof { lemma_first_layer_unique(self@.layers, layer_id@, i as int); }
                if same_text(property, "visible") {
                    self.layers[i].visible
                } else if same_text(property, "locked") {
                    self.layers[i].locked
                } else {
                    false
                }
            },
            None => {
                proof { lemma_no_layer(self@.layers, layer_id@); }
                false
            },
        }
    }

    /// Renames the first layer with the identifier, if there is one.
    pub fn rename_layer(&mut self, layer_id: LayerId, new_name: String)
        ensures
            final(self)@ == (EngineView {
                layers: layers_renamed(old(self)@.layers, layer_id@, new_name@),
                ..old(self)@
            }),
    {
        proof { use_type_invariant(&*self); }
        match self.find_layer(&layer_id) {
            Some(i) => {
                proof { lemma_first_layer_unique(self@.layers, layer_id@, i as int); }
                let mut layers = Vec::new();
                std::mem::swap(&mut layers, &mut self.layers);
                let mut layer = layers.remove(i);
                layer.name = new_name;
                layers.insert(i, layer);
                self.layers = layers;
                assert(layers_view(self.layers@) =~= layers_renamed(old(self)@.layers, layer_id@, new_name@));
            },
            None => {
                proof { lemma_no_layer(self@.layers, layer_id@); }
            },
        }
    }

    /// A new layer identifier: `rustflash_layer_` and a random UUID.
    fn generate_layer_id() -> (id: LayerId)
        ensures
            is_generated_layer_id(id@),
    {
        let value = fresh_uuid();
        let text = uuid_text(value);
        let id = String::from_str("rustflash_layer_").concat(text.as_str());
        assert(is_v4_uuid(value) && id@ == generated_layer_id(value));
        LayerId(id)
    }

    /// Appends a new visible, unlocked, top-level layer with a generated
    /// identifier, and returns that identifier.
    pub fn add_layer(&mut self, name: String, layer_type: LayerType) -> (id: LayerId)
        ensures
            is_generated_layer_id(id@),
            appended_fresh_layer(old(self)@.layers, final(self)@.layers, id@, name@, layer_type),
            final(self)@ == (EngineView { layers: final(self)@.layers, ..old(self)@ }),
    {
        proof { use_type_invariant(&*self); }
        let id = Self::generate_layer_id();
        let layer = LayerInfo {
            id: id.clone(),
            name,
            layer_type,
            visible: true,
            locked: false,
            parent_id: None,
            children: Vec::new(),
        };
        let mut layers = Vec::new();
        std::mem::swap(&mut layers, &mut self.layers);
        layers.push(layer);
        self.layers = layers;
        assert(layers_view(self.layers@).drop_last() =~= old(self)@.layers);
        id
    }

    /// Removes every layer with the identifier.
    pub fn delete_layer(&mut self, layer_id: LayerId)
        ensures
            final(self)@ == (EngineView {
                layers: old(self)@.layers.filter(other_than(layer_id@)),
                ..old(self)@
            }),
    {
        proof { use_type_invariant(&*self); }
        let ghost keep = other_than(layer_id@);
        let mut kept: Vec<LayerInfo> = Vec::new();
        let mut rest = Vec::new();
        std::mem::swap(&mut rest, &mut self.layers);
        let ghost all = rest@;
        let n = rest.len();
        let mut i: usize = 0;
        assert(layers_view(all.take(0)).filter(keep) =~= layers_view(kept@));
        while i < n
            invariant
                n == all.len(),
                i <= n,
                keep == other_than(layer_id@),
                rest@ == all.subrange(i as int, n as int),
                layers_view(kept@) == layers_view(all.take(i as int)).filter(keep),
            decreases n - i,
        {
            let layer = rest.remove(0);
            assert(layer == all[i as int]);
            assert(layers_view(all.take(i + 1)) =~= layers_view(all.take(i as int)).push(layer@));
            proof { layers_view(all.take(i as int)).lemma_filter_push(layer@, keep); }
            let ghost before = kept@;
            let ghost layer_view = layer@;
            let differs = !(layer.id.0 == layer_id.0);
            assert(differs == keep(layer_view));
            if differs {
                kept.push(layer);
                assert(layers_view(kept@) =~= layers_view(before).push(layer_view));
            }
            assert(layers_view(kept@) =~= layers_view(all.take(i + 1)).filter(keep));
            assert(rest@ =~= all.subrange(i + 1, n as int));
            i = i + 1;
        }
        assert(all.take(n as int) =~= all);
        self.layers = kept;
        assert(layers_view(self.layers@) =~= old(self)@.layers.filter(keep));
    }

    /// Appends a copy of the first layer with the identifier, named after it
    /// with " copy" added and given a generated identifier, and returns that
    /// identifier; when no layer has the identifier, adds a new normal layer
    /// named "Layer copy" instead.
    pub fn duplicate_layer(&mut self, layer_id: LayerId) -> (id: LayerId)
        ensures
            is_generated_layer_id(id@),
            ({
                let i = layer_index(old(self)@.layers, layer_id@);
                let added = final(self)@.layers.last();
                &&& final(self)@.layers.len() == old(self)@.layers.len() + 1
                &&& final(self)@.layers.drop_last() == old(self)@.layers
                &&& final(self)@ == (EngineView { layers: final(self)@.layers, ..old(self)@ })
                &&& i >= 0 ==> added == (LayerInfoView {
                    id: id@,
                    name: old(self)@.layers[i].name + " copy"@,
                    ..old(self)@.layers[i]
                })
                &&& i < 0 ==> is_fresh_layer(added, id@, "Layer copy"@, LayerType::Normal)
            }),
    {
        proof { use_type_invariant(&*self); }
        match self.find_layer(&layer_id) {
            Some(i) => {
                proof { lemma_first_layer_unique(self@.layers, layer_id@, i as int); }
                let new_id = Self::generate_layer_id();
                let mut copy = self.layers[i].clone();
                copy.id = new_id.clone();
                copy.name = copy.name.clone().concat(" copy");
                let mut layers = Vec::new();
                std::mem::swap(&mut layers, &mut self.layers);
                layers.push(copy);
                self.layers = layers;
                assert(layers_view(self.layers@).drop_last() =~= old(self)@.layers);
                new_id
            },
            None => {
                proof { lemma_no_layer(self@.layers, layer_id@); }
                self.add_layer(String::from_str("Layer copy"), LayerType::Normal)
            },
        }
    }

    /// Appends a new folder layer; see `add_layer`.
    pub fn add_folder_layer(&mut self, name: String) -> (id: LayerId)
        ensures
            is_generated_layer_id(id@),
            appended_fresh_layer(old(self)@.layers, final(self)@.layers, id@, name@, LayerType::Folder),
            final(self)@ == (EngineView { layers: final(self)@.layers, ..old(self)@ }),
    {
        self.add_layer(name, LayerType::Folder)
    }

    /// Appends a new motion guide layer; see `add_layer`.
    pub fn add_motion_guide_layer(&mut self, name: String) -> (id: LayerId)
        ensures
            is_generated_layer_id(id@),
            appended_fresh_layer(old(self)@.layers, final(self)@.layers, id@, name@, LayerType::Guide),
            final(self)@ == (EngineView { layers: final(self)@.layers, ..old(self)@ }),
    {
        self.add_layer(name, LayerType::Guide)
    }
}

/// A generated layer identifier is longer than the identifiers the engine
/// starts with, so it is none of them.
proof fn lemma_generated_id_is_new(id: Seq<char>)
    requires
        is_generated_layer_id(id),
    ensures
        id != "rustflash_layer_1"@,
        id != "rustflash_layer_2"@,
{
    reveal_strlit("rustflash_layer_");
    reveal_strlit("rustflash_layer_1");
    reveal_strlit("rustflash_layer_2");
    let value = choose|value: u128| is_v4_uuid(value) && id == generated_layer_id(value);
    assert(id.len() == 52);
}

/// Runs the demonstration on a new engine: play, seek to frame 15 and pause;
/// add an "Animation Layer" and rename it "Renamed Layer"; insert a keyframe
/// at frame 10 of it, ask for a motion tween there, and move the keyframe to
/// frame 20. Returns the engine in the state the demonstration leaves.
pub fn demo_rustflash_integration() -> (engine: RustFlashIntegration)
    ensures
        !engine@.is_playing,
        engine@.current_frame == 15,
        engine@.total_frames == 100,
        engine@.fps == 24,
        engine@.layers.len() == 3,
        initial_layers_hold(engine@.layers.take(2)),
        is_generated_layer_id(engine@.layers[2].id),
        is_fresh_layer(engine@.layers[2], engine@.layers[2].id, "Renamed Layer"@, LayerType::Normal),
        ({
            let moved = (engine@.layers[2].id, 20u32);
            &&& engine@.frames.contains_key(moved)
            &&& engine@.frames[moved].frame_number == 10
            &&& engine@.frames[moved].frame_type == FrameType::Keyframe
            &&& engine@.frames[moved].has_content
            &&& !engine@.frames.contains_key((engine@.layers[2].id, 10u32))
            &&& initial_frames_hold(engine@.frames.remove(moved))
        }),
{
    let mut integration = RustFlashIntegration::new();
    let ghost start = integration@;
    integration.play();
    integration.seek(15);
    integration.pause();
    let new_layer = integration.add_layer(String::from_str("Animation Layer"), LayerType::Normal);
    let ghost added = integration@;
    let ghost id = new_layer@;
    proof {
        lemma_generated_id_is_new(id);
        assert(added.layers.drop_last() == start.layers);
        assert(added.layers[0] == start.layers[0] && added.layers[1] == start.layers[1]);
        assert(is_first_layer_with(added.layers, id, 2));
        lemma_first_layer_unique(added.layers, id, 2);
        assert(!start.frames.contains_key((id, 10u32)));
        assert(!start.frames.contains_key((id, 20u32)));
    }
    integration.rename_layer(new_layer.clone(), String::from_str("Renamed Layer"));
    integration.insert_keyframe(new_layer.clone(), 10);
    let ghost inserted = integration@;
    integration.create_motion_tween(new_layer.clone(), 10);
    integration.move_keyframe(new_layer.clone(), 10, 20);
    proof {
        let moved = (id, 20u32);
        assert(inserted.frames.contains_key((id, 10u32)));
        assert(integration@.frames.remove(moved) =~= start.frames);
        assert(integration@.layers.take(2) =~= start.layers);
    }
    integration
}

} // verus!

verus! {

/// Setting a layer property and reading it back gives the value set, when a
/// layer has the identifier and the property is "visible" or "locked".
pub proof fn lemma_property_read_back(
    layers: Seq<LayerInfoView>,
    id: Seq<char>,
    property: Seq<char>,
    value: bool,
)
    requires
        layer_index(layers, id) >= 0,
        property == "visible"@ || property == "locked"@,
    ensures
        layer_property(layers_with_property(layers, id, property, value), id, property) == value,
{
    let i = layer_index(layers, id);
    assert(is_first_layer_with(layers, id, i));
    let after = layers_with_property(layers, id, property, value);
    assert(is_first_layer_with(after, id, i));
    lemma_first_layer_unique(after, id, i);
}

/// Setting one of the two layer properties leaves the other as it was.
pub proof fn lemma_property_independent(
    layers: Seq<LayerInfoView>,
    id: Seq<char>,
    property: Seq<char>,
    value: bool,
    other: Seq<char>,
)
    requires
        property == "visible"@ || property == "locked"@,
        other == "visible"@ || other == "locked"@,
        property != other,
    ensures
        layer_property(layers_with_property(layers, id, property, value), id, other)
            == layer_property(layers, id, other),
{
    let i = layer_index(layers, id);
    if i >= 0 {
        assert(is_first_layer_with(layers, id, i));
        let after = layers_with_property(layers, id, property, value);
        assert(is_first_layer_with(after, id, i));
        lemma_first_layer_unique(after, id, i);
    } else {
        assert(layers_with_property(layers, id, property, value) == layers);
    }
}

/// Setting a property of one layer, or renaming it, changes no other layer
/// and not the number of layers.
pub proof fn lemma_layer_edits_are_local(
    layers: Seq<LayerInfoView>,
    id: Seq<char>,
    property: Seq<char>,
    value: bool,
    name: Seq<char>,
    j: int,
)
    requires
        0 <= j < layers.len(),
        j != layer_index(layers, id),
    ensures
        layers_with_property(layers, id, property, value).len() == layers.len(),
        layers_with_property(layers, id, property, value)[j] == layers[j],
        layers_renamed(layers, id, name).len() == layers.len(),
        layers_renamed(layers, id, name)[j] == layers[j],
{
}

/// After a layer is deleted, no layer with its identifier is left, and
/// reading any property of it gives false.
pub proof fn lemma_deleted_layer_is_gone(layers: Seq<LayerInfoView>, id: Seq<char>, property: Seq<char>)
    ensures
        forall|j: int|
            0 <= j < layers.filter(other_than(id)).len() ==> layers.filter(other_than(id))[j].id != id,
        layer_property(layers.filter(other_than(id)), id, property) == false,
{
    let rest = layers.filter(other_than(id));
    assert forall|j: int| 0 <= j < rest.len() implies rest[j].id != id by {
        layers.lemma_filter_pred(other_than(id), j);
    }
    lemma_no_layer(rest, id);
}

/// Deleting a layer that was just added with an identifier no other layer
/// had gives back the layers as they were before.
pub proof fn lemma_add_then_delete(
    before: Seq<LayerInfoView>,
    now: Seq<LayerInfoView>,
    id: Seq<char>,
    name: Seq<char>,
    layer_type: LayerType,
)
    requires
        appended_fresh_layer(before, now, id, name, layer_type),
        forall|j: int| 0 <= j < before.len() ==> before[j].id != id,
    ensures
        now.filter(other_than(id)) == before,
{
    assert(now =~= before.push(now.last()));
    before.lemma_filter_push(now.last(), other_than(id));
    assert(before.filter(other_than(id)) == before) by {
        lemma_filter_keeps_all(before, other_than(id));
    }
}

/// Filtering keeps a sequence whole when every element passes.
proof fn lemma_filter_keeps_all(s: Seq<LayerInfoView>, keep: spec_fn(LayerInfoView) -> bool)
    requires
        forall|j: int| 0 <= j < s.len() ==> keep(s[j]),
    ensures
        s.filter(keep) == s,
    decreases s.len(),
{
    if s.len() > 0 {
        lemma_filter_keeps_all(s.drop_last(), keep);
        assert(s =~= s.drop_last().push(s.last()));
        s.drop_last().lemma_filter_push(s.last(), keep);
    } else {
        reveal(Seq::filter);
    }
}

/// Moving a keyframe from one frame to another leaves the source frame
/// empty, gives the target exactly what the source held, and touches no
/// other frame.
pub proof fn lemma_move_keyframe(
    frames: Map<FrameKey, FrameData>,
    layer: Seq<char>,
    from_frame: u32,
    to_frame: u32,
    other: FrameKey,
)
    requires
        frames.contains_key((layer, from_frame)),
        from_frame != to_frame,
        other != (layer, from_frame),
        other != (layer, to_frame),
    ensures
        ({
            let moved = frames.remove((layer, from_frame)).insert(
                (layer, to_frame),
                frames[(layer, from_frame)],
            );
            &&& !moved.contains_key((layer, from_frame))
            &&& moved[(layer, to_frame)] == frames[(layer, from_frame)]
            &&& moved.contains_key(other) == frames.contains_key(other)
            &&& frames.contains_key(other) ==> moved[other] == frames[other]
        }),
{
}

/// Pasting what was copied from one frame into another makes the two frames
/// hold the same data, and the copied frame keeps it.
pub proof fn lemma_copy_then_paste(
    frames: Map<FrameKey, FrameData>,
    source: FrameKey,
    target: FrameKey,
)
    requires
        frames.contains_key(source),
    ensures
        frames.insert(target, frames[source])[target] == frames[source],
        frames.insert(target, frames[source]).contains_key(source),
        frames.insert(target, frames[source])[source] == frames[source],
{
}

/// Inserting a keyframe into an empty frame and then deleting it gives back
/// the frames as they were.
pub proof fn lemma_insert_then_delete_keyframe(
    frames: Map<FrameKey, FrameData>,
    key: FrameKey,
    data: FrameData,
)
    requires
        !frames.contains_key(key),
    ensures
        frames.insert(key, data).remove(key) == frames,
{
    assert(frames.insert(key, data).remove(key) =~= frames);
}

/// The playhead never moves past the last frame, and seeking to where the
/// playhead already is does not move it.
pub proof fn lemma_seek_in_range(total: u32, frame: u32)
    ensures
        seek_target(total, frame) <= total,
        seek_target(total, seek_target(total, frame)) == seek_target(total, frame),
{
}

} // verus!
