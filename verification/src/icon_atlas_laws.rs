//! Laws of the icon atlas cache.
use vstd::prelude::*;
use crate::icon_atlas::{
    IconAtlasView, IconSlot, AtlasClear, atlas_wf, draw_spec, has_key, lookup_icon, icon_key_spec,
    live_id_bytes, live_id_seed,
};

verus! {

/// Looking an icon up keeps the atlas well formed.
pub proof fn lemma_lookup_keeps_wf(v: IconAtlasView, key: u64, path: Seq<u8>)
    requires
        atlas_wf(v),
    ensures
        atlas_wf(lookup_icon(v, key, path).1),
{
    let (r, w) = lookup_icon(v, key, path);
    if !has_key(v.entries, key) && r is Added {
        assert forall|i: int, j: int|
            0 <= i < w.entries.len() && 0 <= j < w.entries.len() && i != j implies #[trigger] w.entries[i].key
                != #[trigger] w.entries[j].key by {
            if i < v.entries.len() && j < v.entries.len() {
                assert(w.entries[i] == v.entries[i]);
                assert(w.entries[j] == v.entries[j]);
            } else if i < v.entries.len() {
                assert(w.entries[i] == v.entries[i]);
            } else {
                assert(w.entries[j] == v.entries[j]);
            }
        }
        assert(w.entries[v.entries.len() as int].key == key);
        assert forall|t: int| 0 <= t < w.todo.len() implies has_key(w.entries, #[trigger] w.todo[t]) by {
            if t < v.todo.len() {
                assert(w.todo[t] == v.todo[t]);
                let i = choose|i: int| 0 <= i < v.entries.len() && #[trigger] v.entries[i].key == v.todo[t];
                assert(w.entries[i] == v.entries[i]);
            }
        }
        assert forall|t: int| 0 <= t < v.todo.len() implies v.todo[t] != key by {
            assert(has_key(v.entries, v.todo[t]));
        }
        assert forall|a: int, b: int| 0 <= a < w.todo.len() && 0 <= b < w.todo.len() && a != b
            implies w.todo[a] != w.todo[b] by {
            if a < v.todo.len() && b < v.todo.len() {
            } else if a < v.todo.len() {
                assert(w.todo[a] == v.todo[a]);
            } else {
                assert(w.todo[b] == v.todo[b]);
            }
        }
    }
}

/// What a read gives back of a write: once an icon was added in a slot, looking it up
/// again, with any path, finds it cached in that slot and changes nothing.
pub proof fn lemma_added_icon_is_cached(v: IconAtlasView, key: u64, path: Seq<u8>, again: Seq<u8>)
    requires
        atlas_wf(v),
        lookup_icon(v, key, path).0 is Added,
    ensures
        ({
            let w = lookup_icon(v, key, path).1;
            let slot = lookup_icon(v, key, path).0->Added_0;
            lookup_icon(w, key, again) == (IconSlot::Cached(slot), w)
        }),
{
    let w = lookup_icon(v, key, path).1;
    lemma_lookup_keeps_wf(v, key, path);
    let n = v.entries.len() as int;
    assert(w.entries[n].key == key);
    assert(has_key(w.entries, key));
    let i = choose|i: int| 0 <= i < w.entries.len() && #[trigger] w.entries[i].key == key;
    assert(i == n);
}

/// A cached icon is found in the slot that holds its key, and the lookup changes nothing.
pub proof fn lemma_cached_lookup_is_pure(v: IconAtlasView, key: u64, path: Seq<u8>)
    requires
        atlas_wf(v),
        has_key(v.entries, key),
        v.entries.len() <= usize::MAX,
    ensures
        lookup_icon(v, key, path).1 == v,
        lookup_icon(v, key, path).0 matches IconSlot::Cached(slot) && slot < v.entries.len()
            && v.entries[slot as int].key == key,
{
}

/// Lookups never drop or move an icon: the entries before a lookup are a prefix of the
/// entries after it, so a slot, once handed out, keeps its icon.
pub proof fn lemma_lookup_keeps_slots(v: IconAtlasView, key: u64, path: Seq<u8>)
    ensures
        ({
            let w = lookup_icon(v, key, path).1;
            &&& v.entries.len() <= w.entries.len()
            &&& w.entries.take(v.entries.len() as int) == v.entries
            &&& w.texture_id == v.texture_id
            &&& w.clear_buffer == v.clear_buffer
        }),
{
    let w = lookup_icon(v, key, path).1;
    assert(w.entries.take(v.entries.len() as int) =~= v.entries);
}

/// A rasterisation pass draws exactly the queued icons, each of which has its entry;
/// afterwards nothing is queued, the entries are as they were, the texture is no
/// longer to be cleared, and another pass right away has nothing to do.
pub proof fn lemma_pass_drains_queue(v: IconAtlasView)
    requires
        atlas_wf(v),
    ensures
        ({
            let (pass, w) = draw_spec(v);
            &&& pass is Some <==> v.todo.len() > 0
            &&& (pass matches Some((clear, todo)) ==> {
                &&& todo == v.todo
                &&& (clear == AtlasClear::ClearWith <==> v.clear_buffer)
                &&& forall|t: int| 0 <= t < todo.len() ==> has_key(w.entries, #[trigger] todo[t])
            })
            &&& w.todo.len() == 0
            &&& w.entries == v.entries
            &&& atlas_wf(w)
            &&& draw_spec(w).0 is None
        }),
{
}

/// Every chunk of parameter bytes is hashed: the key of a path with chunks `cs` is the
/// id of the path's bytes from the hash seed, with each chunk appended in turn, whatever
/// its bytes.
pub proof fn lemma_every_chunk_is_hashed(path: Seq<u8>, cs: Seq<Seq<u8>>, c: Seq<u8>)
    ensures
        icon_key_spec(path, Seq::empty()) == live_id_bytes(live_id_seed(), path),
        icon_key_spec(path, cs.push(c)) == live_id_bytes(icon_key_spec(path, cs), c),
        icon_key_spec(path, cs) == cs.fold_left(
            live_id_bytes(live_id_seed(), path),
            |k: u64, chunk: Seq<u8>| live_id_bytes(k, chunk),
        ),
    decreases cs.len(),
{
    assert(cs.push(c).drop_last() =~= cs);
    if cs.len() > 0 {
        lemma_every_chunk_is_hashed(path, cs.drop_last(), cs.last());
    }
}

/// A pass never asks the next one to clear the texture: after a pass, lookups keep the
/// clear flag down, so the next pass, unless the atlas is reset in between, keeps what
/// the texture holds.
pub proof fn lemma_no_clear_without_reset(v: IconAtlasView, key: u64, path: Seq<u8>)
    requires
        v.todo.len() > 0,
    ensures
        !draw_spec(v).1.clear_buffer,
        !lookup_icon(draw_spec(v).1, key, path).1.clear_buffer,
        draw_spec(lookup_icon(draw_spec(v).1, key, path).1).0 matches Some((clear, _)) ==> clear
            == AtlasClear::InitWith,
        draw_spec(v).0 matches Some((clear, _)) && (clear == AtlasClear::ClearWith <==> v.clear_buffer),
{
}

} // verus!
