//! The compositor: layers stacked on a canvas in a fixed order.
//!
//! From the bottom up the order is background, underlay, base, overlay,
//! second overlay, effect. The base is always there; each of the others may
//! be missing, and a missing layer is skipped. The lowest layer that is
//! there makes the canvas, byte for byte. Each higher layer is painted over
//! what lies below it, pixel on pixel, by alpha-over blending.

use vstd::prelude::*;
use crate::raster::{Raster, PIXELS, RASTER_BYTES};

verus! {

/// Number of layer roles.
pub const LAYER_COUNT: usize = 6;

/// The place of a layer in the stack.
#[derive(Clone, Copy, Debug, PartialEq, Eq, Structural)]
pub enum LayerRole {
    Background,
    Underlay,
    Base,
    Overlay,
    Overlay2,
    Effect,
}

impl LayerRole {
    /// The height of the role in the stack, 0 at the bottom.
    pub open spec fn spec_index(self) -> int {
        match self {
            LayerRole::Background => 0,
            LayerRole::Underlay => 1,
            LayerRole::Base => 2,
            LayerRole::Overlay => 3,
            LayerRole::Overlay2 => 4,
            LayerRole::Effect => 5,
        }
    }

    /// The role at height `i` of the stack.
    pub open spec fn spec_at(i: int) -> LayerRole {
        if i == 0 {
            LayerRole::Background
        } else if i == 1 {
            LayerRole::Underlay
        } else if i == 2 {
            LayerRole::Base
        } else if i == 3 {
            LayerRole::Overlay
        } else if i == 4 {
            LayerRole::Overlay2
        } else {
            LayerRole::Effect
        }
    }

    /// The height of the role in the stack, 0 at the bottom.
    pub fn index(self) -> (i: usize)
        ensures
            i == self.spec_index(),
            i < LAYER_COUNT,
            LayerRole::spec_at(i as int) == self,
    {
        match self {
            LayerRole::Background => 0,
            LayerRole::Underlay => 1,
            LayerRole::Base => 2,
            LayerRole::Overlay => 3,
            LayerRole::Overlay2 => 4,
            LayerRole::Effect => 5,
        }
    }

    /// The role at height `i` of the stack, if the stack is that high.
    pub fn at(i: usize) -> (r: Option<LayerRole>)
        ensures
            i < LAYER_COUNT ==> r == Some(LayerRole::spec_at(i as int)),
            i < LAYER_COUNT ==> LayerRole::spec_at(i as int).spec_index() == i,
            i >= LAYER_COUNT ==> r is None,
    {
        if i == 0 {
            Some(LayerRole::Background)
        } else if i == 1 {
            Some(LayerRole::Underlay)
        } else if i == 2 {
            Some(LayerRole::Base)
        } else if i == 3 {
            Some(LayerRole::Overlay)
        } else if i == 4 {
            Some(LayerRole::Overlay2)
        } else if i == 5 {
            Some(LayerRole::Effect)
        } else {
            None
        }
    }

    /// True for every role but the base, which no request can leave out.
    pub fn is_optional(self) -> (b: bool)
        ensures
            b == (self != LayerRole::Base),
    {
        match self {
            LayerRole::Base => false,
            _ => true,
        }
    }
}

/// What `image`'s alpha blending makes of a pixel `under` with a pixel `over`
/// on top, each given as its four bytes: red, green, blue, alpha.
pub uninterp spec fn blended(under: Seq<u8>, over: Seq<u8>) -> Seq<u8>;

/// Calls `image::Pixel::blend` on two `Rgba<u8>` pixels. Claimed here: the
/// result depends on the eight bytes alone; a fully transparent pixel on top
/// changes nothing; a fully opaque pixel on top replaces what was under it.
#[verifier::external_body]
fn blend(under: (u8, u8, u8, u8), over: (u8, u8, u8, u8)) -> (out: (u8, u8, u8, u8))
    ensures
        seq![out.0, out.1, out.2, out.3] == blended(
            seq![under.0, under.1, under.2, under.3],
            seq![over.0, over.1, over.2, over.3],
        ),
        over.3 == 0 ==> out == under,
        over.3 == 255 ==> out == over,
{
    let mut pixel = image::Rgba([under.0, under.1, under.2, under.3]);
    image::Pixel::blend(&mut pixel, &image::Rgba([over.0, over.1, over.2, over.3]));
    (pixel.0[0], pixel.0[1], pixel.0[2], pixel.0[3])
}

/// The four bytes of pixel `i` of a raster.
pub open spec fn pixel(s: Seq<u8>, i: int) -> Seq<u8> {
    seq![s[4 * i], s[4 * i + 1], s[4 * i + 2], s[4 * i + 3]]
}

/// One pixel painted over another: unchanged under a fully transparent
/// pixel, replaced by a fully opaque one, blended otherwise.
pub open spec fn over_pixel(under: Seq<u8>, over: Seq<u8>) -> Seq<u8> {
    if over[3] == 0 {
        under
    } else if over[3] == 255 {
        over
    } else {
        blended(under, over)
    }
}

/// A raster painted over a canvas, pixel on pixel.
pub open spec fn painted(under: Seq<u8>, over: Seq<u8>) -> Seq<u8> {
    Seq::new(under.len(), |k: int| over_pixel(pixel(under, k / 4), pixel(over, k / 4))[k % 4])
}

/// The canvas before anything is painted: every byte 0, so every pixel is
/// transparent black.
pub open spec fn blank() -> Seq<u8> {
    Seq::new(RASTER_BYTES as nat, |k: int| 0u8)
}

/// The canvas after the lowest `n` places of the stack. There is none until
/// a layer is met. The lowest layer is the canvas as it is, and each layer
/// above it is painted over what is there. A place without a layer changes
/// nothing.
pub open spec fn stacked(slots: Seq<Option<Seq<u8>>>, n: int) -> Option<Seq<u8>>
    decreases n,
{
    if n <= 0 {
        None
    } else {
        match slots[n - 1] {
            None => stacked(slots, n - 1),
            Some(layer) => match stacked(slots, n - 1) {
                None => Some(layer),
                Some(under) => Some(painted(under, layer)),
            },
        }
    }
}

/// The finished canvas of a set of layers: the whole stack, or transparent
/// black where no layer is there.
pub open spec fn composed(slots: Seq<Option<Seq<u8>>>) -> Seq<u8> {
    match stacked(slots, LAYER_COUNT as int) {
        Some(canvas) => canvas,
        None => blank(),
    }
}

/// The canvas that layers are painted on: [`RASTER_BYTES`] bytes of RGBA
/// pixels, laid out like a raster.
#[derive(Debug)]
pub struct Canvas {
    pixels: Vec<u8>,
}

impl View for Canvas {
    type V = Seq<u8>;

    closed spec fn view(&self) -> Seq<u8> {
        self.pixels@
    }
}

/// The bytes of a canvas that may not be there yet.
pub open spec fn canvas_bytes(canvas: Option<Canvas>) -> Option<Seq<u8>> {
    match canvas {
        Some(c) => Some(c@),
        None => None,
    }
}

impl Canvas {
    #[verifier::type_invariant]
    spec fn well_formed(self) -> bool {
        self.pixels@.len() == RASTER_BYTES
    }

    /// A canvas of transparent black.
    pub fn new() -> (canvas: Canvas)
        ensures
            canvas@ == blank(),
    {
        let pixels: Vec<u8> = vec![0u8; RASTER_BYTES];
        assert(pixels@ =~= blank());
        Canvas { pixels }
    }

    /// A canvas that holds the pixels of `raster`.
    pub fn from_raster(raster: &Raster) -> (canvas: Canvas)
        ensures
            canvas@ == raster@,
    {
        Canvas { pixels: raster.to_vec() }
    }

    /// The bytes of the canvas, row by row.
    pub fn bytes(&self) -> (b: &Vec<u8>)
        ensures
            b@ == self@,
            b@.len() == RASTER_BYTES,
    {
        proof {
            use_type_invariant(self);
        }
        &self.pixels
    }

    /// Paints `layer` over the canvas.
    pub fn paint(&mut self, layer: &Raster)
        ensures
            final(self)@ == painted(old(self)@, layer@),
    {
        proof {
            use_type_invariant(&*self);
        }
        let top: &Vec<u8> = layer.bytes();
        let mut result: Vec<u8> = Vec::with_capacity(RASTER_BYTES);
        let mut i: usize = 0;
        while i < PIXELS
            invariant
                i <= PIXELS,
                top@ == layer@,
                top@.len() == RASTER_BYTES,
                self.pixels@.len() == RASTER_BYTES,
                self.pixels@ == old(self).pixels@,
                result@.len() == 4 * i,
                forall|k: int|
                    0 <= k < 4 * i ==> result@[k] == #[trigger] painted(self.pixels@, top@)[k],
            decreases PIXELS - i,
        {
            let at: usize = 4 * i;
            let under: (u8, u8, u8, u8) = (
                self.pixels[at],
                self.pixels[at + 1],
                self.pixels[at + 2],
                self.pixels[at + 3],
            );
            let over: (u8, u8, u8, u8) = (top[at], top[at + 1], top[at + 2], top[at + 3]);
            let out: (u8, u8, u8, u8) = blend(under, over);
            proof {
                assert(pixel(self.pixels@, i as int) =~= seq![under.0, under.1, under.2, under.3]);
                assert(pixel(top@, i as int) =~= seq![over.0, over.1, over.2, over.3]);
                assert(seq![out.0, out.1, out.2, out.3] =~= over_pixel(
                    pixel(self.pixels@, i as int),
                    pixel(top@, i as int),
                ));
            }
            result.push(out.0);
            result.push(out.1);
            result.push(out.2);
            result.push(out.3);
            proof {
                let px = seq![out.0, out.1, out.2, out.3];
                assert forall|k: int| 0 <= k < 4 * (i + 1) implies result@[k]
                    == #[trigger] painted(self.pixels@, top@)[k] by {
                    if k >= 4 * i {
                        assert(k / 4 == i as int);
                        assert(px[k % 4] == result@[k]);
                    }
                }
            }
            i = i + 1;
        }
        assert(result@ =~= painted(self.pixels@, top@));
        self.pixels = result;
    }
}

/// The layers of one icon, each in its place of the stack. The base is always
/// there.
#[derive(Debug)]
pub struct LayerSet {
    slots: Vec<Option<Raster>>,
}

/// The bytes of the raster in a place of the stack, if there is one.
pub open spec fn slot_bytes(slot: Option<Raster>) -> Option<Seq<u8>> {
    match slot {
        Some(raster) => Some(raster@),
        None => None,
    }
}

/// The stack that holds `base` and nothing else.
pub open spec fn base_only(base: Seq<u8>) -> Seq<Option<Seq<u8>>> {
    seq![None, None, Some(base), None, None, None]
}

impl View for LayerSet {
    type V = Seq<Option<Seq<u8>>>;

    closed spec fn view(&self) -> Seq<Option<Seq<u8>>> {
        Seq::new(self.slots@.len(), |i: int| slot_bytes(self.slots@[i]))
    }
}

impl LayerSet {
    #[verifier::type_invariant]
    spec fn well_formed(self) -> bool {
        self.slots@.len() == LAYER_COUNT && self.slots@[2] is Some
    }

    /// The set that holds `base` and no other layer.
    pub fn new(base: Raster) -> (set: LayerSet)
        ensures
            set@ == base_only(base@),
    {
        let mut slots: Vec<Option<Raster>> = Vec::with_capacity(LAYER_COUNT);
        slots.push(None);
        slots.push(None);
        slots.push(Some(base));
        slots.push(None);
        slots.push(None);
        slots.push(None);
        let set = LayerSet { slots };
        assert(set@ =~= base_only(base@));
        set
    }

    /// The set with `raster` in the place of `role`, in the stead of what was
    /// there.
    pub fn with(self, role: LayerRole, raster: Raster) -> (set: LayerSet)
        ensures
            set@ == self@.update(role.spec_index(), Some(raster@)),
            set@.len() == LAYER_COUNT,
    {
        proof {
            use_type_invariant(&self);
        }
        let ghost before = self@;
        let mut slots: Vec<Option<Raster>> = self.slots;
        slots.set(role.index(), Some(raster));
        let set = LayerSet { slots };
        assert(set@ =~= before.update(role.spec_index(), Some(raster@)));
        set
    }

    /// The raster in the place of `role`, if there is one.
    pub fn get(&self, role: LayerRole) -> (r: Option<&Raster>)
        ensures
            self@.len() == LAYER_COUNT,
            self@[2] is Some,
            match r {
                Some(raster) => self@[role.spec_index()] == Some(raster@),
                None => self@[role.spec_index()] is None,
            },
    {
        proof {
            use_type_invariant(self);
        }
        self.slots[role.index()].as_ref()
    }
}

/// Stacks the layers, from the bottom up: the lowest makes the canvas and
/// each higher one is painted over it.
pub fn composite(layers: &LayerSet) -> (canvas: Canvas)
    ensures
        canvas@ == composed(layers@),
{
    let mut canvas: Option<Canvas> = None;
    let mut z: usize = 0;
    while z < LAYER_COUNT
        invariant
            z <= LAYER_COUNT,
            canvas_bytes(canvas) == stacked(layers@, z as int),
        decreases LAYER_COUNT - z,
    {
        if let Some(role) = LayerRole::at(z) {
            match layers.get(role) {
                Some(raster) => {
                    canvas = match canvas {
                        Some(under) => {
                            let mut painted_over: Canvas = under;
                            painted_over.paint(raster);
                            Some(painted_over)
                        },
                        None => Some(Canvas::from_raster(raster)),
                    };
                },
                None => {},
            }
        }
        z = z + 1;
    }
    match canvas {
        Some(finished) => finished,
        None => Canvas::new(),
    }
}

/// A layer whose pixels are all fully transparent changes nothing.
pub proof fn lemma_transparent_layer(under: Seq<u8>, over: Seq<u8>)
    requires
        under.len() == RASTER_BYTES,
        over.len() == RASTER_BYTES,
        forall|i: int| 0 <= i < PIXELS ==> #[trigger] over[4 * i + 3] == 0,
    ensures
        painted(under, over) == under,
{
    assert forall|k: int| 0 <= k < under.len() implies painted(under, over)[k] == under[k] by {
        let i = k / 4;
        assert(over[4 * i + 3] == 0);
        assert(pixel(over, i)[3] == 0);
        assert(pixel(under, i)[k % 4] == under[k]);
    }
    assert(painted(under, over) =~= under);
}

/// A layer whose pixels are all fully opaque hides what is under it.
pub proof fn lemma_opaque_layer(under: Seq<u8>, over: Seq<u8>)
    requires
        under.len() == RASTER_BYTES,
        over.len() == RASTER_BYTES,
        forall|i: int| 0 <= i < PIXELS ==> #[trigger] over[4 * i + 3] == 255,
    ensures
        painted(under, over) == over,
{
    assert forall|k: int| 0 <= k < under.len() implies painted(under, over)[k] == over[k] by {
        let i = k / 4;
        assert(over[4 * i + 3] == 255);
        assert(pixel(over, i)[3] == 255);
        assert(pixel(over, i)[k % 4] == over[k]);
    }
    assert(painted(under, over) =~= over);
}

/// Painting changes pixel `i` by what lies under and over it at `i`, and by
/// nothing else.
pub proof fn lemma_painted_pixel(under: Seq<u8>, over: Seq<u8>, i: int)
    requires
        under.len() == RASTER_BYTES,
        0 <= i < PIXELS,
    ensures
        painted(under, over).len() == RASTER_BYTES,
        over[4 * i + 3] == 0 ==> pixel(painted(under, over), i) == pixel(under, i),
        over[4 * i + 3] == 255 ==> pixel(painted(under, over), i) == pixel(over, i),
{
    let p = painted(under, over);
    assert((4 * i) / 4 == i && (4 * i + 1) / 4 == i && (4 * i + 2) / 4 == i && (4 * i + 3) / 4
        == i);
    assert(pixel(over, i)[3] == over[4 * i + 3]);
    if over[4 * i + 3] == 0 {
        assert(pixel(p, i) =~= pixel(under, i));
    }
    if over[4 * i + 3] == 255 {
        assert(pixel(p, i) =~= pixel(over, i));
    }
}

/// The lowest layer of a stack comes out as it is where nothing that is not
/// fully transparent lies over it.
pub proof fn lemma_base_alone(base: Seq<u8>, effect: Seq<u8>)
    requires
        base.len() == RASTER_BYTES,
        effect.len() == RASTER_BYTES,
        forall|i: int| 0 <= i < PIXELS ==> #[trigger] effect[4 * i + 3] == 0,
    ensures
        composed(base_only(base)) == base,
        composed(base_only(base).update(5, Some(effect))) == base,
{
    let alone = base_only(base);
    let both = alone.update(5, Some(effect));
    reveal_with_fuel(stacked, 7);
    assert(stacked(alone, 2) is None);
    assert(stacked(both, 2) is None);
    assert(stacked(alone, 3) == Some(base));
    assert(stacked(both, 3) == Some(base));
    assert(stacked(alone, 6) == Some(base));
    assert(stacked(both, 5) == Some(base));
    lemma_transparent_layer(base, effect);
    assert(stacked(both, 6) == Some(base));
}

/// A stack with a layer in it gives that layer, or something painted over
/// it, and never the blank canvas in its stead: from the first layer on
/// there is a canvas, and it has the size of a raster.
pub proof fn lemma_stack_has_canvas(slots: Seq<Option<Seq<u8>>>, n: int, at: int)
    requires
        0 <= at < n,
        slots[at] matches Some(layer) && layer.len() == RASTER_BYTES,
        forall|i: int|
            0 <= i < n ==> ((#[trigger] slots[i]) matches Some(layer) ==> layer.len()
                == RASTER_BYTES),
    ensures
        stacked(slots, n) matches Some(canvas) && canvas.len() == RASTER_BYTES,
    decreases n,
{
    if at < n - 1 {
        lemma_stack_has_canvas(slots, n - 1, at);
    } else {
        lemma_stack_size(slots, n - 1);
    }
}

/// Whatever canvas a stack of rasters gives has the size of a raster.
pub proof fn lemma_stack_size(slots: Seq<Option<Seq<u8>>>, n: int)
    requires
        forall|i: int|
            0 <= i < n ==> ((#[trigger] slots[i]) matches Some(layer) ==> layer.len()
                == RASTER_BYTES),
    ensures
        stacked(slots, n) matches Some(canvas) ==> canvas.len() == RASTER_BYTES,
    decreases n,
{
    if n > 0 {
        lemma_stack_size(slots, n - 1);
    }
}

} // verus!
