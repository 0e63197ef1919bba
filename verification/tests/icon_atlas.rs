use makepad_draw::icon_atlas::{icon_key, AtlasClear, Cx2d, CxDrawIconAtlas, CxIconAtlas, IconSlot};
use makepad_live_id::LiveId;
use makepad_draw::svg_path::{SvgCommand, SvgPathError};

#[test]
fn new_atlas_is_empty() {
    let a = CxIconAtlas::new(42);
    assert_eq!(a.get_internal_atlas_texture_id(), 42);
    assert_eq!(a.len(), 0);
    assert!(!a.clear_buffer());
    assert!(a.todo().is_empty());
}

#[test]
fn lookup_adds_then_finds() {
    let mut a = CxIconAtlas::new(1);
    assert_eq!(a.lookup_or_add(7, b"M1 2"), IconSlot::Added(0));
    assert_eq!(a.lookup_or_add(7, b"garbage"), IconSlot::Cached(0));
    assert_eq!(a.lookup_or_add(8, b"bad"), IconSlot::Unreadable(SvgPathError::UnexpectedCharacter(b'b')));
    assert_eq!(a.len(), 1);
    assert_eq!(a.lookup_or_add(9, b"L1 2"), IconSlot::Added(1));
    assert_eq!(a.todo(), &vec![7, 9]);
    assert_eq!(a.slot_of(9), Some(1));
    let e = a.entry(1);
    assert_eq!(e.key, 9);
    assert_eq!(e.path.len(), 1);
    assert_eq!(e.path[0].command, SvgCommand::Line(true));
    assert!(a.slot_of(8).is_none());
    assert_eq!(a.entry(0).key, 7);
}

#[test]
fn icon_hash_tells_parameters_apart() {
    let mut a = CxIconAtlas::new(1);
    let p1 = vec![vec![0u8, 0, 0, 0], vec![1, 2, 3, 4]];
    let p2 = vec![vec![0u8, 0, 0, 0], vec![1, 2, 3, 5]];
    assert_eq!(a.get_icon_pos("M1 2L3 4", &p1), IconSlot::Added(0));
    assert_eq!(a.get_icon_pos("M1 2L3 4", &p1), IconSlot::Cached(0));
    assert_eq!(a.get_icon_pos("M1 2L3 4", &p2), IconSlot::Added(1));
    assert_eq!(a.get_icon_pos("M1 2L3 5", &p1), IconSlot::Added(2));
    assert_eq!(a.get_icon_pos("M1 2L3 5", &p1), IconSlot::Cached(2));
    assert_eq!(a.get_icon_pos("M1 2 L3 4", &p1), IconSlot::Added(3));
    assert_eq!(a.todo().len(), 4);
}

#[test]
fn reset_raises_clear_and_keeps_icons() {
    let mut a = CxIconAtlas::new(1);
    a.lookup_or_add(3, b"M0 0");
    a.reset_vector_atlas();
    assert!(a.clear_buffer());
    assert_eq!(a.len(), 1);
    assert_eq!(a.todo(), &vec![3]);
    assert_eq!(a.lookup_or_add(3, b"M0 0"), IconSlot::Cached(0));
}

#[test]
fn pass_takes_queue_and_clear_flag() {
    let mut a = CxIconAtlas::new(1);
    assert!(a.take_pass().is_none());
    a.lookup_or_add(3, b"M0 0");
    a.lookup_or_add(4, b"M1 1");
    let (clear, todo) = a.take_pass().unwrap();
    assert_eq!(clear, AtlasClear::InitWith);
    assert_eq!(todo, vec![3, 4]);
    assert!(a.take_pass().is_none());
    a.reset_vector_atlas();
    a.lookup_or_add(5, b"M1 1");
    let (clear, todo) = a.take_pass().unwrap();
    assert_eq!(clear, AtlasClear::ClearWith);
    assert_eq!(todo, vec![5]);
    assert!(!a.clear_buffer());
}

#[test]
fn draw_icon_atlas_new() {
    let d = CxDrawIconAtlas::new(10, 11, 12);
    assert_eq!(d.atlas_pass, 10);
    assert_eq!(d.atlas_view, 11);
    assert_eq!(d.atlas_texture, 12);
}

#[test]
fn lazy_construct_only_once() {
    let mut cx = Cx2d::new();
    assert!(!cx.has_icon_atlas());
    assert!(cx.lazy_construct_icon_atlas(CxDrawIconAtlas::new(1, 2, 3)));
    assert!(cx.has_icon_atlas());
    assert_eq!(cx.icon_atlas.as_ref().unwrap().get_internal_atlas_texture_id(), 3);
    assert!(!cx.lazy_construct_icon_atlas(CxDrawIconAtlas::new(4, 5, 6)));
    assert_eq!(cx.draw_icon_atlas.unwrap(), CxDrawIconAtlas::new(1, 2, 3));
    assert_eq!(cx.icon_atlas.as_ref().unwrap().get_internal_atlas_texture_id(), 3);
}

#[test]
fn reset_icon_atlas_without_atlas_does_nothing() {
    let mut cx = Cx2d::new();
    cx.reset_icon_atlas();
    assert!(!cx.has_icon_atlas());
}

#[test]
fn draw_icon_atlas_runs_a_pass_only_with_work() {
    let mut cx = Cx2d::new();
    cx.lazy_construct_icon_atlas(CxDrawIconAtlas::new(1, 2, 3));
    assert!(cx.draw_icon_atlas().is_none());
    cx.icon_atlas.as_mut().unwrap().lookup_or_add(77, b"M1 1 L2 2 Z");
    let pass = cx.draw_icon_atlas().unwrap();
    assert_eq!((pass.atlas_pass, pass.atlas_view, pass.atlas_texture), (1, 2, 3));
    assert_eq!(pass.clear, AtlasClear::InitWith);
    assert_eq!(pass.todo, vec![77]);
    assert!(cx.draw_icon_atlas().is_none());
    cx.reset_icon_atlas();
    assert!(cx.icon_atlas.as_ref().unwrap().clear_buffer());
    cx.icon_atlas.as_mut().unwrap().lookup_or_add(78, b"M1 1");
    let pass = cx.draw_icon_atlas().unwrap();
    assert_eq!(pass.clear, AtlasClear::ClearWith);
    assert_eq!(pass.todo, vec![78]);
    assert!(!cx.icon_atlas.as_ref().unwrap().clear_buffer());
}

fn mix(x: u64, b: u8) -> u64 {
    let mut x = x.wrapping_add(b as u64);
    x ^= x >> 32;
    x = x.wrapping_mul(0xd6e8_feb8_6659_fd93);
    x ^= x >> 32;
    x = x.wrapping_mul(0xd6e8_feb8_6659_fd93);
    x ^ (x >> 32)
}

fn id_of(seed: u64, bytes: &[u8]) -> u64 {
    let mut x = seed;
    for b in bytes {
        x = mix(x, *b);
    }
    (x & 0x7fff_ffff_ffff_ffff) | 0x8000_0000_0000_0000
}

#[test]
fn icon_key_appends_each_chunk() {
    let chunks = vec![
        1.5f32.to_be_bytes().to_vec(),
        0.25f32.to_be_bytes().to_vec(),
        16.0f32.to_be_bytes().to_vec(),
        16.0f32.to_be_bytes().to_vec(),
        3.0f64.to_be_bytes().to_vec(),
        4.0f64.to_be_bytes().to_vec(),
        2.0f64.to_be_bytes().to_vec(),
    ];
    let mut expected = LiveId::from_str("M1 2L3 4");
    for c in &chunks {
        expected = expected.bytes_append(c);
    }
    assert_eq!(icon_key("M1 2L3 4", &chunks), expected.0);
    let mut by_formula = id_of(0xd6e8_feb8_6659_fd93, b"M1 2L3 4");
    for c in &chunks {
        by_formula = id_of(by_formula, c);
    }
    assert_eq!(icon_key("M1 2L3 4", &chunks), by_formula);
    let joined: Vec<u8> = chunks.concat();
    assert_ne!(icon_key("M1 2L3 4", &chunks), icon_key("M1 2L3 4", &vec![joined]));
    assert_eq!(icon_key("Z", &vec![]), LiveId::from_str("Z").0);
}
