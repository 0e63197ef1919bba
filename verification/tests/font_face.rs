use makepad_draw::font_face::FontFace;

fn be16(v: &mut Vec<u8>, x: u16) {
    v.extend_from_slice(&x.to_be_bytes());
}

fn be32(v: &mut Vec<u8>, x: u32) {
    v.extend_from_slice(&x.to_be_bytes());
}

/// A font with only the `head`, `hhea` and `maxp` tables, and one glyph.
fn tiny_font() -> Vec<u8> {
    let mut head = vec![0u8; 54];
    head[18..20].copy_from_slice(&1000u16.to_be_bytes());
    let hhea = vec![0u8; 36];
    let mut maxp = Vec::new();
    be32(&mut maxp, 0x0000_5000);
    be16(&mut maxp, 1);
    let tables: [(&[u8; 4], &Vec<u8>); 3] = [(b"head", &head), (b"hhea", &hhea), (b"maxp", &maxp)];
    let mut font = Vec::new();
    be32(&mut font, 0x0001_0000);
    be16(&mut font, 3);
    be16(&mut font, 0);
    be16(&mut font, 0);
    be16(&mut font, 0);
    let mut offset = 12 + 16 * 3;
    for (tag, data) in tables.iter() {
        font.extend_from_slice(&tag[..]);
        be32(&mut font, 0);
        be32(&mut font, offset as u32);
        be32(&mut font, data.len() as u32);
        offset += data.len();
    }
    for (_, data) in tables.iter() {
        font.extend_from_slice(data);
    }
    font
}

#[test]
fn garbage_is_no_face() {
    assert!(FontFace::from_data_and_index(vec![1, 2, 3, 4, 5], 0).is_none());
    assert!(FontFace::from_data_and_index(Vec::new(), 0).is_none());
}

#[test]
fn a_parsing_font_is_a_face() {
    let font = tiny_font();
    let face = FontFace::from_data_and_index(font.clone(), 0).unwrap();
    assert_eq!(face.data(), &font[..]);
    assert_eq!(face.index(), 0);
    assert!(face.variations().is_empty());
}

#[test]
fn a_face_index_past_a_single_font_is_refused() {
    assert!(FontFace::from_data_and_index(tiny_font(), 1).is_none());
}

#[test]
fn set_variations_replaces_them() {
    let mut face = FontFace::from_data_and_index(tiny_font(), 0).unwrap();
    let wght = u32::from_be_bytes(*b"wght");
    face.set_variations(&[(wght, 700.0f32.to_bits())]);
    assert_eq!(face.variations(), &[(wght, 700.0f32.to_bits())][..]);
    face.set_variations(&[]);
    assert!(face.variations().is_empty());
    assert_eq!(face.data(), &tiny_font()[..]);
}

#[test]
fn clone_keeps_everything() {
    let mut face = FontFace::from_data_and_index(tiny_font(), 0).unwrap();
    face.set_variations(&[(1, 2), (3, 4)]);
    let c = face.clone();
    assert_eq!(c.data(), face.data());
    assert_eq!(c.index(), face.index());
    assert_eq!(c.variations(), face.variations());
}
