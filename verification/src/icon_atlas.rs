//! The icon atlas: a cache of vector icons keyed by the hash of their drawing
//! parameters, the queue of icons still to be rasterised into the atlas texture,
//! and the decisions of the pass that rasterises them.
//!
//! Where an icon lands in the texture is computed in floating point by the caller,
//! which keeps those numbers at the slot number that this cache hands out.
use vstd::prelude::*;
use std::collections::HashMap;
use vstd::string::StringSliceAdditionalSpecFns;
use makepad_live_id::LiveId;
use crate::icon_atlas_laws::lemma_lookup_keeps_wf;
use crate::svg_path::{PathSegment, SegmentView, SvgPathError, parse_spec, parse_svg_path, segments_view};

verus! {

broadcast use vstd::std_specs::hash::group_hash_axioms;

/// An icon in the atlas: the key it is filed under and the path that was read for it.
#[derive(Debug)]
pub struct CxIconAtlasEntry {
    pub key: u64,
    pub path: Vec<PathSegment>,
}

/// The mathematical content of an entry.
#[verifier::ext_equal]
pub struct EntryView {
    pub key: u64,
    pub path: Seq<SegmentView>,
}

impl View for CxIconAtlasEntry {
    type V = EntryView;

    open spec fn view(&self) -> EntryView {
        EntryView { key: self.key, path: segments_view(self.path@) }
    }
}

/// The mathematical content of an atlas: its texture, whether the texture must be
/// cleared before the next rasterisation, its entries in the order they were added
/// (an entry's position is its slot), and the keys still to be rasterised.
#[verifier::ext_equal]
pub struct IconAtlasView {
    pub texture_id: u64,
    pub clear_buffer: bool,
    pub entries: Seq<EntryView>,
    pub todo: Seq<u64>,
}

/// Whether some entry is filed under `key`.
pub open spec fn has_key(entries: Seq<EntryView>, key: u64) -> bool {
    exists|i: int| 0 <= i < entries.len() && #[trigger] entries[i].key == key
}

/// No two entries share a key, every queued key has an entry, and no key is queued twice.
pub open spec fn atlas_wf(v: IconAtlasView) -> bool {
    &&& forall|i: int, j: int|
        0 <= i < v.entries.len() && 0 <= j < v.entries.len() && i != j ==> #[trigger] v.entries[i].key
            != #[trigger] v.entries[j].key
    &&& forall|t: int| 0 <= t < v.todo.len() ==> has_key(v.entries, #[trigger] v.todo[t])
    &&& v.todo.no_duplicates()
}

/// The outcome of looking an icon up.
#[derive(Clone, Copy, Debug, PartialEq, Eq)]
pub enum IconSlot {
    /// The icon was in the atlas already, in this slot.
    Cached(usize),
    /// The icon was added in this slot and queued for rasterisation.
    Added(usize),
    /// The icon was not in the atlas and its path could not be read.
    Unreadable(SvgPathError),
}

/// What looking up the icon `key`, drawn by `path`, gives and leaves: an icon already
/// there is found in its slot; otherwise a readable path is added in the next slot and
/// queued; an unreadable one changes nothing.
pub open spec fn lookup_icon(v: IconAtlasView, key: u64, path: Seq<u8>) -> (IconSlot, IconAtlasView) {
    if has_key(v.entries, key) {
        let i = choose|i: int| 0 <= i < v.entries.len() && #[trigger] v.entries[i].key == key;
        (IconSlot::Cached(i as usize), v)
    } else {
        match parse_spec(path) {
            Ok(segs) => (
                IconSlot::Added(v.entries.len() as usize),
                IconAtlasView {
                    entries: v.entries.push(EntryView { key, path: segs }),
                    todo: v.todo.push(key),
                    ..v
                },
            ),
            Err(e) => (IconSlot::Unreadable(e), v),
        }
    }
}

/// One byte of the `makepad_live_id` hash: the byte is added to the state, which is
/// then mixed by shifts, exclusive ors and multiplications, all modulo 2^64.
pub open spec fn live_id_mix(x: u64, b: u8) -> u64 {
    let x1 = (x + b) as u64;
    let x2 = x1 ^ (x1 >> 32u64);
    let x3 = (x2 * 0xd6e8_feb8_6659_fd93u64) as u64;
    let x4 = x3 ^ (x3 >> 32u64);
    let x5 = (x4 * 0xd6e8_feb8_6659_fd93u64) as u64;
    x5 ^ (x5 >> 32u64)
}

/// The hash state after the bytes, from `seed`.
pub open spec fn live_id_fold(seed: u64, bytes: Seq<u8>) -> u64
    decreases bytes.len(),
{
    if bytes.len() == 0 {
        seed
    } else {
        live_id_mix(live_id_fold(seed, bytes.drop_last()), bytes.last())
    }
}

/// The id of `bytes` hashed from `seed`: the hash with its top bit set.
pub open spec fn live_id_bytes(seed: u64, bytes: Seq<u8>) -> u64 {
    (live_id_fold(seed, bytes) & 0x7fff_ffff_ffff_ffffu64) | 0x8000_0000_0000_0000u64
}

/// The seed of `makepad_live_id` hashes.
pub open spec fn live_id_seed() -> u64 {
    0xd6e8_feb8_6659_fd93u64
}

/// The id of the icon drawn by a path with the given chunks of parameter bytes: the id of
/// the path, then each chunk appended in turn.
pub open spec fn icon_key_spec(path: Seq<u8>, chunks: Seq<Seq<u8>>) -> u64
    decreases chunks.len(),
{
    if chunks.len() == 0 {
        live_id_bytes(live_id_seed(), path)
    } else {
        live_id_bytes(icon_key_spec(path, chunks.drop_last()), chunks.last())
    }
}

/// The views of chunks of bytes.
pub open spec fn chunks_view(chunks: Seq<Vec<u8>>) -> Seq<Seq<u8>> {
    chunks.map_values(|c: Vec<u8>| c@)
}

/// Calls `makepad_live_id::LiveId::from_str(path)` and returns the id's number: the
/// [`live_id_bytes`] of the path's UTF-8 bytes from the crate's seed, as the crate's
/// source (`from_str`, `from_bytes`) computes it.
#[verifier::external_body]
fn live_id_from_str(path: &str) -> (id: u64)
    ensures
        id == live_id_bytes(live_id_seed(), path.spec_bytes()),
{
    LiveId::from_str(path).0
}

/// Calls `makepad_live_id::LiveId(id).bytes_append(bytes)` and returns the id's number:
/// the [`live_id_bytes`] of the bytes from `id`, as the crate's source (`bytes_append`,
/// `from_bytes`) computes it.
#[verifier::external_body]
fn live_id_append(id: u64, bytes: &[u8]) -> (r: u64)
    ensures
        r == live_id_bytes(id, bytes@),
{
    LiveId(id).bytes_append(bytes).0
}

/// The key an icon is filed under: the `makepad_live_id` id of its path, with each chunk
/// of its parameter bytes appended in turn.
pub fn icon_key(path: &str, params: &Vec<Vec<u8>>) -> (k: u64)
    ensures
        k == icon_key_spec(path.spec_bytes(), chunks_view(params@)),
{
    let mut key = live_id_from_str(path);
    let mut i: usize = 0;
    assert(chunks_view(params@).take(0) =~= Seq::<Seq<u8>>::empty());
    while i < params.len()
        invariant
            i <= params.len(),
            key == icon_key_spec(path.spec_bytes(), chunks_view(params@).take(i as int)),
        decreases params.len() - i,
    {
        key = live_id_append(key, params[i].as_slice());
        proof {
            let c = chunks_view(params@);
            assert(c.take(i + 1).drop_last() =~= c.take(i as int));
            assert(c.take(i + 1).last() == params@[i as int]@);
        }
        i += 1;
    }
    assert(chunks_view(params@).take(i as int) =~= chunks_view(params@));
    key
}

/// How the atlas texture is prepared for a rasterisation pass.
#[derive(Clone, Copy, Debug, PartialEq, Eq)]
pub enum AtlasClear {
    /// Cleared, because the atlas was reset since the last pass.
    ClearWith,
    /// Kept: the new icons are drawn over what is there.
    InitWith,
}

/// The pass of rasterisation that the atlas asks for, when it has queued icons.
pub open spec fn draw_spec(v: IconAtlasView) -> (Option<(AtlasClear, Seq<u64>)>, IconAtlasView) {
    if v.todo.len() == 0 {
        (None, v)
    } else {
        (
            Some(
                (
                    if v.clear_buffer {
                        AtlasClear::ClearWith
                    } else {
                        AtlasClear::InitWith
                    },
                    v.todo,
                ),
            ),
            IconAtlasView { clear_buffer: false, todo: Seq::empty(), ..v },
        )
    }
}

/// The cache of vector icons that share one atlas texture.
pub struct CxIconAtlas {
    texture_id: u64,
    clear_buffer: bool,
    entries: Vec<CxIconAtlasEntry>,
    index: HashMap<u64, usize>,
    todo: Vec<u64>,
}

pub open spec fn entries_view(s: Seq<CxIconAtlasEntry>) -> Seq<EntryView> {
    s.map_values(|e: CxIconAtlasEntry| e@)
}

impl View for CxIconAtlas {
    type V = IconAtlasView;

    closed spec fn view(&self) -> IconAtlasView {
        IconAtlasView {
            texture_id: self.texture_id,
            clear_buffer: self.clear_buffer,
            entries: entries_view(self.entries@),
            todo: self.todo@,
        }
    }
}

impl CxIconAtlas {
    /// The atlas is well formed ([`atlas_wf`]) and its key index agrees with its entries.
    pub closed spec fn wf(&self) -> bool {
        &&& atlas_wf(self@)
        &&& forall|k: u64|
            #[trigger] self.index@.contains_key(k) <==> has_key(entries_view(self.entries@), k)
        &&& forall|k: u64|
            #[trigger] self.index@.contains_key(k) ==> self.index@[k] < self.entries@.len()
                && self.entries@[self.index@[k] as int].key == k
    }

    /// A well-formed atlas meets [`atlas_wf`], so the laws stated over views apply to it.
    pub proof fn lemma_wf_view(&self)
        requires
            self.wf(),
        ensures
            atlas_wf(self@),
    {
    }

    /// An empty atlas on the texture `texture_id`.
    pub fn new(texture_id: u64) -> (a: Self)
        ensures
            a.wf(),
            a@ == (IconAtlasView {
                texture_id,
                clear_buffer: false,
                entries: Seq::empty(),
                todo: Seq::empty(),
            }),
    {
        let a = CxIconAtlas {
            texture_id,
            clear_buffer: false,
            entries: Vec::new(),
            index: HashMap::new(),
            todo: Vec::new(),
        };
        assert(entries_view(a.entries@) =~= Seq::<EntryView>::empty());
        assert(a.todo@ =~= Seq::<u64>::empty());
        a
    }

    /// The texture the atlas draws into.
    pub fn get_internal_atlas_texture_id(&self) -> (id: u64)
        ensures
            id == self@.texture_id,
    {
        self.texture_id
    }

    /// Whether the texture will be cleared before the next pass.
    pub fn clear_buffer(&self) -> (b: bool)
        ensures
            b == self@.clear_buffer,
    {
        self.clear_buffer
    }

    /// The number of icons in the atlas.
    pub fn len(&self) -> (n: usize)
        ensures
            n == self@.entries.len(),
    {
        self.entries.len()
    }

    /// The keys queued for rasterisation, in the order they were added.
    pub fn todo(&self) -> (t: &Vec<u64>)
        ensures
            t@ == self@.todo,
    {
        &self.todo
    }

    /// The icon in slot `slot`.
    pub fn entry(&self, slot: usize) -> (e: &CxIconAtlasEntry)
        requires
            slot < self@.entries.len(),
        ensures
            e@ == self@.entries[slot as int],
    {
        &self.entries[slot]
    }

    /// The slot of the icon filed under `key`, if there is one.
    pub fn slot_of(&self, key: u64) -> (r: Option<usize>)
        requires
            self.wf(),
        ensures
            r is Some <==> has_key(self@.entries, key),
            r matches Some(i) ==> i < self@.entries.len() && self@.entries[i as int].key == key,
    {
        match self.index.get(&key) {
            Some(i) => Some(*i),
            None => None,
        }
    }

    /// Looks up the icon drawn by the SVG path `path` with the drawing parameters whose
    /// bytes come in the chunks `params`; it is filed under its [`icon_key`], and read and
    /// added when it is not there yet (see [`lookup_icon`]).
    pub fn get_icon_pos(&mut self, path: &str, params: &Vec<Vec<u8>>) -> (r: IconSlot)
        requires
            old(self).wf(),
        ensures
            final(self).wf(),
            (r, final(self)@) == lookup_icon(
                old(self)@,
                icon_key_spec(path.spec_bytes(), chunks_view(params@)),
                path.spec_bytes(),
            ),
    {
        let key = icon_key(path, params);
        self.lookup_or_add(key, path.as_bytes())
    }

    /// Looks the icon `key` up, reading and adding `path` when it is not there yet
    /// (see [`lookup_icon`]).
    pub fn lookup_or_add(&mut self, key: u64, path: &[u8]) -> (r: IconSlot)
        requires
            old(self).wf(),
        ensures
            final(self).wf(),
            (r, final(self)@) == lookup_icon(old(self)@, key, path@),
    {
        let ghost old_view = self@;
        match self.index.get(&key) {
            Some(i) => {
                let slot = *i;
                proof {
                    assert(has_key(old_view.entries, key));
                    let j = choose|j: int| 0 <= j < old_view.entries.len() && #[trigger] old_view.entries[j].key == key;
                    assert(old_view.entries[slot as int].key == key);
                    assert(j == slot);
                }
                return IconSlot::Cached(slot);
            },
            None => {},
        }
        assert(!has_key(old_view.entries, key));
        match parse_svg_path(path) {
            Ok(segs) => {
                let slot = self.entries.len();
                let ghost segv = segments_view(segs@);
                let ghost old_entries = self.entries@;
                self.entries.push(CxIconAtlasEntry { key, path: segs });
                self.index.insert(key, slot);
                self.todo.push(key);
                proof {
                    let ev = EntryView { key, path: segv };
                    assert(entries_view(self.entries@) =~= old_view.entries.push(ev));
                    let nv = self@;
                    assert(nv =~= IconAtlasView {
                        entries: old_view.entries.push(ev),
                        todo: old_view.todo.push(key),
                        ..old_view
                    });
                    lemma_lookup_keeps_wf(old_view, key, path@);
                    assert forall|k: u64| has_key(old_view.entries, k) implies has_key(nv.entries, k) by {
                        let i = choose|i: int| 0 <= i < old_view.entries.len() && #[trigger] old_view.entries[i].key == k;
                        assert(nv.entries[i] == old_view.entries[i]);
                    }
                    assert(nv.entries[old_view.entries.len() as int].key == key);
                    assert forall|k: u64| #[trigger] has_key(nv.entries, k) implies (has_key(old_view.entries, k) || k == key) by {
                        let i = choose|i: int| 0 <= i < nv.entries.len() && #[trigger] nv.entries[i].key == k;
                        if i < old_view.entries.len() {
                            assert(nv.entries[i] == old_view.entries[i]);
                        }
                    }
                    assert forall|k: u64| #[trigger] self.index@.contains_key(k) implies self.index@[k] < self.entries@.len()
                        && self.entries@[self.index@[k] as int].key == k by {
                        if k != key {
                            assert(self.entries@[self.index@[k] as int] == old_entries[self.index@[k] as int]);
                        }
                    }
                }
                IconSlot::Added(slot)
            },
            Err(e) => IconSlot::Unreadable(e),
        }
    }

    /// Starts the atlas over: the texture is cleared at the next pass. The icons stay
    /// cached and queued (their places are the caller's to forget).
    pub fn reset_vector_atlas(&mut self)
        requires
            old(self).wf(),
        ensures
            final(self).wf(),
            final(self)@ == (IconAtlasView { clear_buffer: true, ..old(self)@ }),
    {
        self.clear_buffer = true;
    }

    /// Takes the queued keys and the clearing decision for a rasterisation pass (see
    /// [`draw_spec`]).
    pub fn take_pass(&mut self) -> (r: Option<(AtlasClear, Vec<u64>)>)
        requires
            old(self).wf(),
        ensures
            final(self).wf(),
            final(self)@ == draw_spec(old(self)@).1,
            match (r, draw_spec(old(self)@).0) {
                (None, None) => true,
                (Some((c, t)), Some((c2, t2))) => c == c2 && t@ == t2,
                _ => false,
            },
    {
        if self.todo.len() == 0 {
            return None;
        }
        let clear = if self.clear_buffer {
            self.clear_buffer = false;
            AtlasClear::ClearWith
        } else {
            AtlasClear::InitWith
        };
        let mut todo: Vec<u64> = Vec::new();
        std::mem::swap(&mut todo, &mut self.todo);
        assert(self.todo@ =~= Seq::<u64>::empty());
        assert(self@ =~= draw_spec(old(self)@).1);
        Some((clear, todo))
    }
}

} // verus!

verus! {

/// The platform resources that rasterise the atlas, by id: its pass, its view and its
/// texture.
#[derive(Clone, Copy, Debug, PartialEq, Eq)]
pub struct CxDrawIconAtlas {
    pub atlas_pass: u64,
    pub atlas_view: u64,
    pub atlas_texture: u64,
}

impl CxDrawIconAtlas {
    /// The resources made for the atlas.
    pub fn new(atlas_pass: u64, atlas_view: u64, atlas_texture: u64) -> (d: Self)
        ensures
            d.atlas_pass == atlas_pass,
            d.atlas_view == atlas_view,
            d.atlas_texture == atlas_texture,
    {
        CxDrawIconAtlas { atlas_pass, atlas_view, atlas_texture }
    }
}

/// A rasterisation pass to run: the resources to run it with, how to prepare the
/// texture, and the keys of the icons to draw, in the order they were added.
#[derive(Debug)]
pub struct IconAtlasPass {
    pub atlas_pass: u64,
    pub atlas_view: u64,
    pub atlas_texture: u64,
    pub clear: AtlasClear,
    pub todo: Vec<u64>,
}

/// The icon-atlas globals that a drawing context reaches: the icon atlas and the
/// resources that rasterise it, each present once constructed.
pub struct Cx2d {
    pub icon_atlas: Option<CxIconAtlas>,
    pub draw_icon_atlas: Option<CxDrawIconAtlas>,
}

impl Cx2d {
    pub open spec fn wf(&self) -> bool {
        self.icon_atlas matches Some(a) ==> a.wf()
    }

    /// A context in which no icon atlas was constructed yet.
    pub fn new() -> (cx: Self)
        ensures
            cx.wf(),
            cx.icon_atlas is None,
            cx.draw_icon_atlas is None,
    {
        Cx2d { icon_atlas: None, draw_icon_atlas: None }
    }

    /// Whether the icon atlas was constructed.
    pub fn has_icon_atlas(&self) -> (b: bool)
        ensures
            b == self.icon_atlas is Some,
    {
        self.icon_atlas.is_some()
    }

    /// Constructs the icon atlas on the texture of `draw_atlas`, and keeps `draw_atlas`
    /// to rasterise it, unless an atlas exists already; says whether it constructed.
    pub fn lazy_construct_icon_atlas(&mut self, draw_atlas: CxDrawIconAtlas) -> (constructed: bool)
        requires
            old(self).wf(),
        ensures
            final(self).wf(),
            constructed == (old(self).icon_atlas is None),
            constructed ==> final(self).draw_icon_atlas == Some(draw_atlas),
            constructed ==> (final(self).icon_atlas matches Some(a) && a@ == (IconAtlasView {
                texture_id: draw_atlas.atlas_texture,
                clear_buffer: false,
                entries: Seq::empty(),
                todo: Seq::empty(),
            })),
            !constructed ==> final(self).icon_atlas == old(self).icon_atlas
                && final(self).draw_icon_atlas == old(self).draw_icon_atlas,
    {
        if self.icon_atlas.is_none() {
            let atlas = CxIconAtlas::new(draw_atlas.atlas_texture);
            self.draw_icon_atlas = Some(draw_atlas);
            self.icon_atlas = Some(atlas);
            true
        } else {
            false
        }
    }

    /// Resets the icon atlas, when there is one (see [`CxIconAtlas::reset_vector_atlas`]).
    pub fn reset_icon_atlas(&mut self)
        requires
            old(self).wf(),
        ensures
            final(self).wf(),
            final(self).draw_icon_atlas == old(self).draw_icon_atlas,
            old(self).icon_atlas is None ==> final(self).icon_atlas is None,
            old(self).icon_atlas matches Some(a) ==> (final(self).icon_atlas matches Some(b) && b@
                == (IconAtlasView { clear_buffer: true, ..a@ })),
    {
        match self.icon_atlas.take() {
            Some(mut atlas) => {
                atlas.reset_vector_atlas();
                self.icon_atlas = Some(atlas);
            },
            None => {},
        }
    }

    /// Decides the rasterisation pass of the atlas: none while no icon is queued;
    /// otherwise a pass with the atlas resources that draws the queued icons, clearing
    /// the texture first if the atlas was reset; the queue is then empty and the reset
    /// forgotten.
    pub fn draw_icon_atlas(&mut self) -> (pass: Option<IconAtlasPass>)
        requires
            old(self).wf(),
            old(self).icon_atlas is Some,
            old(self).draw_icon_atlas is Some,
        ensures
            final(self).wf(),
            final(self).draw_icon_atlas == old(self).draw_icon_atlas,
            final(self).icon_atlas matches Some(b) && b@ == draw_spec(old(self).icon_atlas.unwrap()@).1,
            match (pass, draw_spec(old(self).icon_atlas.unwrap()@).0) {
                (None, None) => true,
                (Some(p), Some((c, t))) => {
                    &&& p.clear == c
                    &&& p.todo@ == t
                    &&& p.atlas_pass == old(self).draw_icon_atlas.unwrap().atlas_pass
                    &&& p.atlas_view == old(self).draw_icon_atlas.unwrap().atlas_view
                    &&& p.atlas_texture == old(self).draw_icon_atlas.unwrap().atlas_texture
                },
                _ => false,
            },
    {
        let draw = self.draw_icon_atlas.unwrap();
        let mut atlas = self.icon_atlas.take().unwrap();
        let taken = atlas.take_pass();
        self.icon_atlas = Some(atlas);
        match taken {
            Some((clear, todo)) => Some(
                IconAtlasPass {
                    atlas_pass: draw.atlas_pass,
                    atlas_view: draw.atlas_view,
                    atlas_texture: draw.atlas_texture,
                    clear,
                    todo,
                },
            ),
            None => None,
        }
    }
}

} // verus!
