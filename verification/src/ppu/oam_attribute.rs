use crate::gba::system::SystemMemory;
use crate::utils::{bit_of, channel_spec, Bitable, BittableColor};
use vstd::prelude::*;

verus! {

pub const ROT_SCALE_FLAG: u32 = 0x100;

pub const OBJECT_FLAG: u32 = 0x200;

/// The first word of the object palettes in palette RAM (byte 0x200).
pub const BASE_OBJ_PALETTE: usize = 0x80;

/// Whether an object attribute entry is shown: its mode bits 8..9 are not `10`.
pub fn is_oam_entry_enabled(value: &[u32]) -> (r: bool)
    requires
        value.len() >= 1,
    ensures
        r == ((value[0] >> 8u32) & 0b11 != 0b10),
{
    (value[0] >> 8 & 0b11) != 0b10
}

/// The size of an object in pixels.
#[derive(Debug, PartialEq, Eq, Structural, Clone, Copy)]
pub struct Shape {
    pub w: u32,
    pub h: u32,
}

/// Bit 9 of an object: double size for a rotated object, disabled otherwise.
#[derive(Debug, PartialEq, Eq, Structural, Clone, Copy)]
pub enum ObjectFlag {
    DoublSize(bool),
    Disbale(bool),
}

impl ObjectFlag {
    pub open spec fn decoded(value: Seq<u32>) -> Self {
        let rot = value[0] & ROT_SCALE_FLAG == ROT_SCALE_FLAG;
        let val = value[0] & OBJECT_FLAG == OBJECT_FLAG;
        if rot {
            ObjectFlag::DoublSize(val)
        } else {
            ObjectFlag::Disbale(val)
        }
    }

    pub fn from(value: &[u32]) -> (r: Self)
        requires
            value.len() >= 1,
        ensures
            r == Self::decoded(value@),
    {
        let rot = value[0] & ROT_SCALE_FLAG == ROT_SCALE_FLAG;
        let val = value[0] & OBJECT_FLAG == OBJECT_FLAG;
        if rot {
            ObjectFlag::DoublSize(val)
        } else {
            ObjectFlag::Disbale(val)
        }
    }
}

/// How an object is drawn: through a rotation/scaling parameter set, or flipped.
#[derive(Debug, PartialEq, Eq, Structural, Clone, Copy)]
pub enum Transformation {
    RotScale { idx: usize },
    Flip { horizontal: bool, veritical: bool },
}

impl Transformation {
    pub open spec fn decoded(value: Seq<u32>) -> Self {
        if value[0] & ROT_SCALE_FLAG == ROT_SCALE_FLAG {
            Transformation::RotScale { idx: ((value[0] >> 24u32) & 0x1f) as usize }
        } else {
            Transformation::Flip {
                horizontal: (value[0] >> 27u32) == 0x1,
                veritical: (value[0] >> 28u32) == 0x1,
            }
        }
    }

    pub fn from(value: &[u32]) -> (r: Self)
        requires
            value.len() >= 1,
        ensures
            r == Self::decoded(value@),
    {
        let rot = value[0] & ROT_SCALE_FLAG == ROT_SCALE_FLAG;
        if rot {
            let rot_scale_param = (value[0] >> 24) & 0x1f;
            Transformation::RotScale { idx: rot_scale_param as usize }
        } else {
            let horizontal = (value[0] >> 27) == 0x1;
            let veritical = (value[0] >> 28) == 0x1;
            Transformation::Flip { horizontal, veritical }
        }
    }
}

/// The side of an object of size `obj_size`: 8, 16, 32 or 64 pixels.
pub open spec fn base_size(obj_size: u32) -> u32 {
    if obj_size == 0 {
        8
    } else if obj_size == 1 {
        16
    } else if obj_size == 2 {
        32
    } else {
        64
    }
}

/// The shorter side of a wide or tall object of size `obj_size`.
pub open spec fn secondary_size(obj_size: u32) -> u32 {
    if obj_size <= 1 {
        8
    } else if obj_size == 2 {
        16
    } else {
        32
    }
}

/// The size of an object of shape `obj_shape` (square, wide, tall) and size `obj_size`.
pub open spec fn shape_of(obj_shape: u32, obj_size: u32) -> Shape {
    if obj_shape == 0 {
        Shape { w: base_size(obj_size), h: base_size(obj_size) }
    } else if obj_shape == 1 {
        Shape { w: base_size(obj_size), h: secondary_size(obj_size) }
    } else {
        Shape { w: secondary_size(obj_size), h: base_size(obj_size) }
    }
}

/// The attributes of an object, from its first two words in object attribute memory.
#[derive(Debug, PartialEq, Eq, Structural, Clone, Copy)]
pub struct OamAttribute {
    pub y_coord: u32,
    pub x_coord: u32,
    pub is_rot_scale: bool,
    pub object_flag: ObjectFlag,
    pub obj_mode: u32,
    pub obj_mosaic: bool,
    pub colors: bool,
    pub obj_shape: Shape,
    pub character_name: u32,
    pub priority: u32,
    pub palette_idx: usize,
    pub transformation: Transformation,
}

/// The shape field of an object's first word; the value 3 is not a shape.
pub open spec fn shape_field(w0: u32) -> u32 {
    (w0 >> 14u32) & 0b11
}

impl OamAttribute {
    pub open spec fn decoded(value: Seq<u32>) -> Self {
        OamAttribute {
            y_coord: value[0] & 0xff,
            x_coord: value[1] & 0x1ff,
            is_rot_scale: bit_of(value[0], 8),
            object_flag: ObjectFlag::decoded(value),
            obj_mode: (value[0] >> 10u32) & 0b11,
            obj_mosaic: bit_of(value[0], 12),
            colors: bit_of(value[0], 13),
            obj_shape: shape_of(shape_field(value[0]), (value[0] >> 30u32) & 0b11),
            character_name: value[1] & 0x3ff,
            priority: (value[1] >> 10u32) & 0b11,
            palette_idx: ((value[1] >> 12u32) & 0b111) as usize,
            transformation: Transformation::decoded(value),
        }
    }

    /// The shape value 3 names no shape and is not accepted.
    pub fn from(value: &[u32]) -> (r: Self)
        requires
            value.len() >= 2,
            shape_field(value[0]) != 3,
        ensures
            r == Self::decoded(value@),
    {
        let obj_shape = (value[0] >> 14) & 0b11;
        let obj_size = (value[0] >> 30) & 0b11;
        let base: u32 = match obj_size {
            0 => 8,
            1 => 16,
            2 => 32,
            _ => 64,
        };
        let secondary: u32 = match obj_size {
            0 | 1 => 8,
            2 => 16,
            _ => 32,
        };
        proof {
            crate::utils::lemma_word_fields(value[0], 30);
        }
        let shape = match obj_shape {
            0 => Shape { w: base, h: base },
            1 => Shape { w: base, h: secondary },
            _ => Shape { w: secondary, h: base },
        };
        OamAttribute {
            y_coord: value[0] & 0xff,
            x_coord: value[1] & 0x1ff,
            is_rot_scale: value[0].bit_is_high(8),
            object_flag: ObjectFlag::from(value),
            obj_shape: shape,
            obj_mode: (value[0] >> 10) & 0b11,
            obj_mosaic: value[0].bit_is_high(12),
            colors: value[0].bit_is_high(13),
            transformation: Transformation::from(value),
            character_name: value[1] & 0x3ff,
            priority: (value[1] >> 10) & 0b11,
            palette_idx: ((value[1] >> 12) & 0b111) as usize,
        }
    }
}

/// One set of rotation and scaling parameters.
#[derive(Debug, PartialEq, Eq, Structural, Clone, Copy)]
pub struct RotationScaleParameter {
    pub dx: u32,
    pub dmx: u32,
    pub dy: u32,
    pub dmy: u32,
}

/// Gathers the parameter halves of object attribute entries, four to a parameter set.
pub struct RotationScaleParameterBuilder {
    parameters: Vec<u32>,
}

impl View for RotationScaleParameterBuilder {
    type V = Seq<u32>;

    closed spec fn view(&self) -> Seq<u32> {
        self.parameters@
    }
}

/// The parameter sets of `params`, four values each.
pub open spec fn parameter_sets(params: Seq<u32>) -> Seq<RotationScaleParameter> {
    Seq::new(
        params.len() / 4,
        |k: int|
            RotationScaleParameter {
                dx: params[4 * k],
                dmx: params[4 * k + 1],
                dy: params[4 * k + 2],
                dmy: params[4 * k + 3],
            },
    )
}

impl RotationScaleParameterBuilder {
    pub fn new() -> (r: Self)
        ensures
            r@ == Seq::<u32>::empty(),
    {
        RotationScaleParameterBuilder { parameters: Vec::new() }
    }

    /// Keeps the upper halfword of `param`.
    pub fn add_parameter(&mut self, param: u32)
        ensures
            final(self)@ == old(self)@.push((param >> 16u32) & 0xffff),
    {
        self.parameters.push((param >> 16) & 0xffff);
    }

    /// The parameter sets, four values each in the order dx, dmx, dy, dmy; the count must
    /// be a multiple of four, since every set takes four.
    pub fn build(&self) -> (r: Vec<RotationScaleParameter>)
        requires
            self@.len() % 4 == 0,
        ensures
            r@ == parameter_sets(self@),
    {
        let mut res: Vec<RotationScaleParameter> = Vec::new();
        let n = self.parameters.len();
        let mut i: usize = 0;
        while i < n
            invariant
                n == self@.len(),
                n % 4 == 0,
                i % 4 == 0,
                i <= n,
                res@ == parameter_sets(self@.subrange(0, i as int)),
                self@ == self.parameters@,
            decreases n - i,
        {
            res.push(
                RotationScaleParameter {
                    dx: self.parameters[i],
                    dmx: self.parameters[i + 1],
                    dy: self.parameters[i + 2],
                    dmy: self.parameters[i + 3],
                },
            );
            i += 4;
            assert(res@ =~= parameter_sets(self@.subrange(0, i as int)));
        }
        assert(self@.subrange(0, n as int) =~= self@);
        res
    }
}

/// The two colours of a palette word as eight-bit RGB triples.
pub open spec fn color_pair(w: u32) -> ((u8, u8, u8), (u8, u8, u8)) {
    (
        (channel_spec(w, 0), channel_spec(w, 5), channel_spec(w, 10)),
        (channel_spec(w, 16), channel_spec(w, 21), channel_spec(w, 26)),
    )
}

/// The colours of a palette word, six fields of five bits from bit 0 up (red, green, blue of
/// the first colour, then of the second at bit 16), each channel becomes four times the six
/// bits starting at its field, cut to eight bits: a full five-bit red 0x1f gives 124.
pub proof fn law_palette_colors(w: u32)
    ensures
        color_pair(w).0.0 as int == (w % 64) * 4,
        color_pair(w).0.1 as int == (w / 0x20 % 64) * 4,
        color_pair(w).0.2 as int == (w / 0x400 % 64) * 4,
        color_pair(w).1.0 as int == (w / 0x1_0000 % 64) * 4,
        color_pair(w).1.1 as int == (w / 0x20_0000 % 64) * 4,
        color_pair(w).1.2 as int == (w / 0x400_0000 % 64) * 4,
{
    assert(channel_spec(w, 0) as int == (w % 64) * 4 && channel_spec(w, 5) as int == (w / 0x20 % 64)
        * 4 && channel_spec(w, 10) as int == (w / 0x400 % 64) * 4 && channel_spec(w, 16) as int == (w
        / 0x1_0000 % 64) * 4 && channel_spec(w, 21) as int == (w / 0x20_0000 % 64) * 4
        && channel_spec(w, 26) as int == (w / 0x400_0000 % 64) * 4) by (bit_vector);
}

/// Colour `k` of the object palettes in palette RAM `words`, two to a word.
pub open spec fn obj_color(words: Seq<u32>, k: int) -> (u8, u8, u8) {
    let pair = color_pair(words[BASE_OBJ_PALETTE as int + k / 2]);
    if k % 2 == 0 {
        pair.0
    } else {
        pair.1
    }
}

/// Sixteen colours.
pub struct Palette {
    pub colors: Vec<(u8, u8, u8)>,
}

/// The object palettes: sixteen palettes of sixteen colours, and the same 256 colours in
/// one table.
pub struct Colors {
    palettes: Vec<Palette>,
    colors: Vec<(u8, u8, u8)>,
}

impl Colors {
    pub closed spec fn palettes_view(self) -> Seq<Seq<(u8, u8, u8)>> {
        self.palettes@.map_values(|p: Palette| p.colors@)
    }

    pub closed spec fn colors_view(self) -> Seq<(u8, u8, u8)> {
        self.colors@
    }

    /// Colours read from palette RAM `words`.
    pub open spec fn read_from(self, words: Seq<u32>) -> bool {
        &&& self.palettes_view().len() == 16
        &&& forall|p: int|
            0 <= p < 16 ==> (#[trigger] self.palettes_view()[p]).len() == 16
        &&& forall|p: int, j: int|
            0 <= p < 16 && 0 <= j < 16 ==> #[trigger] self.palettes_view()[p][j] == obj_color(
                words,
                16 * p + j,
            )
        &&& self.colors_view().len() == 256
        &&& forall|k: int| 0 <= k < 256 ==> #[trigger] self.colors_view()[k] == obj_color(words, k)
    }

    pub fn get_palette(&self, palette_id: usize) -> (r: &Vec<(u8, u8, u8)>)
        requires
            palette_id < self.palettes_view().len(),
        ensures
            r@ == self.palettes_view()[palette_id as int],
    {
        &self.palettes[palette_id].colors
    }

    pub fn num_of_palettes(&self) -> (r: usize)
        ensures
            r == self.palettes_view().len(),
    {
        self.palettes.len()
    }

    /// Colour `idx` of the 256-colour table.
    pub fn get_256_color(&self, idx: usize) -> (r: (u8, u8, u8))
        requires
            idx < self.colors_view().len(),
        ensures
            r == self.colors_view()[idx as int],
    {
        self.colors[idx]
    }

    /// Reads the object palettes from palette RAM, which must hold at least 256 words.
    pub fn from(value: &[u32]) -> (r: Self)
        requires
            value.len() >= 256,
        ensures
            r.read_from(value@),
    {
        let mut palettes: Vec<Palette> = Vec::new();
        let mut colors: Vec<(u8, u8, u8)> = Vec::new();
        let mut p: usize = 0;
        while p < 16
            invariant
                value.len() >= 256,
                p <= 16,
                palettes@.len() == p,
                colors@.len() == 16 * p,
                forall|q: int| 0 <= q < p ==> (#[trigger] palettes@[q]).colors@.len() == 16,
                forall|q: int, j: int|
                    0 <= q < p && 0 <= j < 16 ==> #[trigger] palettes@[q].colors@[j]
                        == obj_color(value@, 16 * q + j),
                forall|k: int| 0 <= k < 16 * p ==> #[trigger] colors@[k] == obj_color(value@, k),
            decreases 16 - p,
        {
            let mut pal_colors: Vec<(u8, u8, u8)> = Vec::new();
            let mut i: usize = 0;
            while i < 8
                invariant
                    value.len() >= 256,
                    p < 16,
                    i <= 8,
                    pal_colors@.len() == 2 * i,
                    colors@.len() == 16 * p + 2 * i,
                    forall|j: int|
                        0 <= j < 2 * i ==> #[trigger] pal_colors@[j] == obj_color(
                            value@,
                            16 * p + j,
                        ),
                    forall|k: int| 0 <= k < 16 * p + 2 * i ==> #[trigger] colors@[k] == obj_color(
                        value@,
                        k,
                    ),
                decreases 8 - i,
            {
                let word = value[BASE_OBJ_PALETTE + 8 * p + i];
                let (c1, c2) = word.to_8bit_color();
                proof {
                    let k0 = 16 * p + 2 * i;
                    assert(k0 / 2 == 8 * p + i);
                    assert((k0 + 1) / 2 == 8 * p + i);
                    assert(k0 % 2 == 0);
                    assert((k0 + 1) % 2 == 1);
                }
                pal_colors.push(c1);
                pal_colors.push(c2);
                colors.push(c1);
                colors.push(c2);
                i += 1;
            }
            palettes.push(Palette { colors: pal_colors });
            p += 1;
        }
        let r = Colors { palettes, colors };
        assert forall|q: int| 0 <= q < 16 implies (#[trigger] r.palettes_view()[q]).len() == 16 by {
            assert(r.palettes_view()[q] == r.palettes@[q].colors@);
        }
        assert forall|q: int, j: int| 0 <= q < 16 && 0 <= j < 16 implies #[trigger] r.palettes_view()[q][j] == obj_color(value@, 16 * q + j) by {
            assert(r.palettes_view()[q] == r.palettes@[q].colors@);
        }
        r
    }
}

/// The object palettes in palette RAM.
pub fn get_palettes(ram: &SystemMemory) -> (r: Colors)
    requires
        ram@[4].len() >= 256,
    ensures
        r.read_from(ram@[4]),
{
    let palette_ram = ram.get_palette_ram_slice();
    Colors::from(palette_ram.as_slice())
}

} // verus!
