use vstd::prelude::*;

use crate::graphics::FontKey;
use crate::save::str_eq;

verus! {

/// A rectangle of the texture atlas, from its top-left to its bottom-right
/// texel, and the offset at which it is drawn.
#[derive(Clone, Copy, Debug)]
pub struct Image {
    uv: ((u32, u32), (u32, u32)),
    origin: (i32, i32),
}

impl Image {
    /// The bottom-right corner never lies above or left of the top-left one.
    #[verifier::type_invariant]
    spec fn corners_ordered(self) -> bool {
        self.uv.0.0 <= self.uv.1.0 && self.uv.0.1 <= self.uv.1.1
    }

    /// The top-left texel.
    pub closed spec fn spec_min(self) -> (u32, u32) {
        self.uv.0
    }

    /// The texel past the bottom-right corner.
    pub closed spec fn spec_max(self) -> (u32, u32) {
        self.uv.1
    }

    /// The offset at which the image is drawn.
    pub closed spec fn spec_origin(self) -> (i32, i32) {
        self.origin
    }

    /// The empty image at the origin.
    pub fn zero() -> (r: Image)
        ensures
            r.spec_min() == (0u32, 0u32),
            r.spec_max() == (0u32, 0u32),
            r.spec_origin() == (0i32, 0i32),
    {
        Image { uv: ((0, 0), (0, 0)), origin: (0, 0) }
    }

    /// The `w` by `h` rectangle at `(x, y)`, drawn at offset `(ox, oy)`.
    pub fn new(x: u32, y: u32, w: u32, h: u32, ox: i32, oy: i32) -> (r: Image)
        requires
            x + w <= u32::MAX,
            y + h <= u32::MAX,
        ensures
            r.spec_min() == (x, y),
            r.spec_max() == ((x + w) as u32, (y + h) as u32),
            r.spec_origin() == (ox, oy),
    {
        Image { uv: ((x, y), (x + w, y + h)), origin: (ox, oy) }
    }

    /// The offset at which the image is drawn.
    pub fn origin(&self) -> (r: (i32, i32))
        ensures
            r == self.spec_origin(),
    {
        self.origin
    }

    /// The width and height of the image.
    pub fn size(&self) -> (r: (u32, u32))
        ensures
            r.0 == self.spec_max().0 - self.spec_min().0,
            r.1 == self.spec_max().1 - self.spec_min().1,
    {
        proof {
            use_type_invariant(self);
        }
        (self.uv.1.0 - self.uv.0.0, self.uv.1.1 - self.uv.0.1)
    }

    /// The four corners, clockwise from the top-left.
    pub fn uv_coords(&self) -> (r: [(u32, u32); 4])
        ensures
            r@ == seq![
                (self.spec_min().0, self.spec_min().1),
                (self.spec_max().0, self.spec_min().1),
                (self.spec_max().0, self.spec_max().1),
                (self.spec_min().0, self.spec_max().1),
            ],
    {
        let r = [
            (self.uv.0.0, self.uv.0.1),
            (self.uv.1.0, self.uv.0.1),
            (self.uv.1.0, self.uv.1.1),
            (self.uv.0.0, self.uv.1.1),
        ];
        assert(r@ =~= seq![
            (self.spec_min().0, self.spec_min().1),
            (self.spec_max().0, self.spec_min().1),
            (self.spec_max().0, self.spec_max().1),
            (self.spec_min().0, self.spec_max().1),
        ]);
        r
    }
}

/// The images of a font's characters, indexed by code point.
#[derive(Debug)]
pub struct StaticFont(pub Vec<Image>);

impl StaticFont {
    /// The image of `ch`, or the font's first image for a character past its end.
    pub fn get_char_image(&self, ch: char) -> (r: &Image)
        requires
            self.0@.len() > 0,
        ensures
            (ch as u32) < self.0@.len() ==> *r == self.0@[ch as u32 as int],
            (ch as u32) >= self.0@.len() ==> *r == self.0@[0],
    {
        let idx = ch as u32 as usize;
        if idx < self.0.len() {
            &self.0[idx]
        } else {
            &self.0[0]
        }
    }
}

/// The first image named `name` in `images`, or `fallback` if none is.
pub open spec fn lookup_image(images: Seq<(&'static str, Image)>, name: Seq<char>, fallback: Image) -> Image
    decreases images.len(),
{
    if images.len() == 0 {
        fallback
    } else if images[0].0@ == name {
        images[0].1
    } else {
        lookup_image(images.drop_first(), name, fallback)
    }
}

/// The first font in `fonts` that is bold and italic as asked, if any.
pub open spec fn lookup_font(fonts: Seq<(FontKey<'static>, StaticFont)>, bold: bool, italic: bool) -> Option<int>
    decreases fonts.len(),
{
    if fonts.len() == 0 {
        None
    } else if fonts[0].0.bold == bold && fonts[0].0.italic == italic {
        Some(0)
    } else {
        match lookup_font(fonts.drop_first(), bold, italic) {
            Some(i) => Some(i + 1),
            None => None,
        }
    }
}

/// The texture atlas built into the program: its encoded file, its side, the
/// image drawn for a missing name, a white image, and its named images and fonts.
#[derive(Debug)]
pub struct StaticAtlasData {
    pub file: &'static [u8],
    pub size: u32,
    pub replacement_image: Image,
    pub white: Image,
    pub images: Vec<(&'static str, Image)>,
    pub fonts: Vec<(FontKey<'static>, StaticFont)>,
}

impl StaticAtlasData {
    /// The first image named `name`, or the replacement image if none is.
    pub fn get_image(&self, name: &str) -> (r: &Image)
        ensures
            *r == lookup_image(self.images@, name@, self.replacement_image),
    {
        let mut i: usize = 0;
        assert(self.images@.skip(0) =~= self.images@);
        while i < self.images.len()
            invariant
                i <= self.images@.len(),
                lookup_image(self.images@, name@, self.replacement_image)
                    == lookup_image(self.images@.skip(i as int), name@, self.replacement_image),
            decreases self.images@.len() - i,
        {
            if str_eq(self.images[i].0, name) {
                return &self.images[i].1;
            }
            assert(self.images@.skip(i as int).drop_first() =~= self.images@.skip(i + 1));
            i = i + 1;
        }
        &self.replacement_image
    }

    /// The first font that is bold and italic as asked, or the first font if
    /// none is; the size is not looked at.
    pub fn get_font(&self, _size: u32, bold: bool, italic: bool) -> (r: &(FontKey<'static>, StaticFont))
        requires
            self.fonts@.len() > 0,
        ensures
            (match lookup_font(self.fonts@, bold, italic) {
                Some(i) => *r == self.fonts@[i],
                None => *r == self.fonts@[0],
            }),
    {
        let mut i: usize = 0;
        assert(self.fonts@.skip(0) =~= self.fonts@);
        while i < self.fonts.len()
            invariant
                i <= self.fonts@.len(),
                lookup_font(self.fonts@, bold, italic) == match lookup_font(self.fonts@.skip(i as int), bold, italic) {
                    Some(k) => Some(k + i),
                    None => None::<int>,
                },
            decreases self.fonts@.len() - i,
        {
            if self.fonts[i].0.bold == bold && self.fonts[i].0.italic == italic {
                return &self.fonts[i];
            }
            assert(self.fonts@.skip(i as int).drop_first() =~= self.fonts@.skip(i + 1));
            i = i + 1;
        }
        &self.fonts[0]
    }
}

} // verus!
