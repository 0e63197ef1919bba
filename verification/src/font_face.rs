//! A font face: font data, the index of the face in it, and the variation settings
//! that shaping applies. A face can only be made of data in which the face parses,
//! so that the parsed tables that shaping needs can always be had later.
use vstd::prelude::*;
use rustybuzz::ttf_parser;

verus! {

/// Whether `ttf_parser::Face::parse` accepts face `index` of the font `data`.
pub uninterp spec fn face_parses(data: Seq<u8>, index: u32) -> bool;

/// Calls `rustybuzz::ttf_parser::Face::parse(data, index)` and says whether it gave `Ok`.
/// The contract claims only that the answer is a function of the bytes and the index
/// (named [`face_parses`]); which fonts parse is left to the parser.
#[verifier::external_body]
fn ttf_face_parses(data: &[u8], index: u32) -> (ok: bool)
    ensures
        ok == face_parses(data@, index),
{
    ttf_parser::Face::parse(data, index).is_ok()
}

/// Calls `ttf_parser::Tag::from_bytes` on the big-endian bytes of `tag` and returns the
/// tag's number. The contract claims that this is `tag` itself, as the source of
/// `from_bytes` (the bytes read back big-endian) shows.
#[verifier::external_body]
fn tag_from_u32(tag: u32) -> (t: u32)
    ensures
        t == tag,
{
    ttf_parser::Tag::from_bytes(&tag.to_be_bytes()).0
}

/// The mathematical content of a font face: its data, the index of the face in it, and
/// its variations as (axis tag, bits of the `f32` axis value) pairs.
#[verifier::ext_equal]
pub struct FontFaceView {
    pub data: Seq<u8>,
    pub index: u32,
    pub variations: Seq<(u32, u32)>,
}

/// A font face that is known to parse.
pub struct FontFace {
    data: Vec<u8>,
    index: u32,
    variations: Vec<(u32, u32)>,
}

impl View for FontFace {
    type V = FontFaceView;

    closed spec fn view(&self) -> FontFaceView {
        FontFaceView { data: self.data@, index: self.index, variations: self.variations@ }
    }
}

impl FontFace {
    #[verifier::type_invariant]
    spec fn inv(self) -> bool {
        face_parses(self.data@, self.index)
    }

    /// The face `index` of `data`, if it parses; with no variations set.
    pub fn from_data_and_index(data: Vec<u8>, index: u32) -> (r: Option<FontFace>)
        ensures
            r is Some <==> face_parses(data@, index),
            r matches Some(f) ==> f@ == (FontFaceView {
                data: data@,
                index,
                variations: Seq::empty(),
            }),
    {
        if !ttf_face_parses(data.as_slice(), index) {
            return None;
        }
        let f = FontFace { data, index, variations: Vec::new() };
        assert(f@ =~= FontFaceView { data: data@, index, variations: Seq::empty() });
        Some(f)
    }

    /// The font data; the face parses in it.
    pub fn data(&self) -> (d: &[u8])
        ensures
            d@ == self@.data,
            face_parses(d@, self@.index),
    {
        proof {
            use_type_invariant(self);
        }
        self.data.as_slice()
    }

    /// The index of the face in the font data.
    pub fn index(&self) -> (i: u32)
        ensures
            i == self@.index,
    {
        self.index
    }

    /// The variations, as (axis tag, bits of the axis value) pairs.
    pub fn variations(&self) -> (v: &[(u32, u32)])
        ensures
            v@ == self@.variations,
    {
        self.variations.as_slice()
    }

    /// Replaces the variations by `variations`, given as (axis tag, bits of the `f32`
    /// axis value) pairs; the data and the index stay.
    pub fn set_variations(&mut self, variations: &[(u32, u32)])
        ensures
            final(self)@ == (FontFaceView { variations: variations@, ..old(self)@ }),
    {
        proof {
            use_type_invariant(&*self);
        }
        let mut vs: Vec<(u32, u32)> = Vec::new();
        let mut i: usize = 0;
        while i < variations.len()
            invariant
                i <= variations.len(),
                vs@ == variations@.take(i as int),
            decreases variations.len() - i,
        {
            let (tag, value) = variations[i];
            let t = tag_from_u32(tag);
            vs.push((t, value));
            assert(variations@.take(i + 1) =~= variations@.take(i as int).push(variations@[i as int]));
            i += 1;
        }
        assert(variations@.take(i as int) =~= variations@);
        self.variations = vs;
    }
}

impl Clone for FontFace {
    /// The same face, data, index and variations.
    fn clone(&self) -> (c: Self)
        ensures
            c@ == self@,
    {
        proof {
            use_type_invariant(self);
        }
        let mut data: Vec<u8> = Vec::new();
        let mut i: usize = 0;
        while i < self.data.len()
            invariant
                i <= self.data.len(),
                data@ == self.data@.take(i as int),
            decreases self.data.len() - i,
        {
            data.push(self.data[i]);
            assert(self.data@.take(i + 1) =~= self.data@.take(i as int).push(self.data@[i as int]));
            i += 1;
        }
        assert(self.data@.take(i as int) =~= self.data@);
        let mut vs: Vec<(u32, u32)> = Vec::new();
        let mut j: usize = 0;
        while j < self.variations.len()
            invariant
                j <= self.variations.len(),
                vs@ == self.variations@.take(j as int),
            decreases self.variations.len() - j,
        {
            vs.push(self.variations[j]);
            assert(self.variations@.take(j + 1) =~= self.variations@.take(j as int).push(self.variations@[j as int]));
            j += 1;
        }
        assert(self.variations@.take(j as int) =~= self.variations@);
        FontFace { data, index: self.index, variations: vs }
    }
}

} // verus!
