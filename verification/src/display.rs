use vstd::prelude::*;

verus! {

/// A framebuffer whose pixels are all either fully off or fully on.
pub open spec fn monochrome(disp: Seq<u32>) -> bool {
    forall|j: int| 0 <= j < disp.len() ==> disp[j] == 0u32 || disp[j] == 0xFFFFFFFFu32
}

/// 64x32 monochrome framebuffer; a pixel is either "off" (zero) or "on"
/// (all bits set), mutated only by clear-all or XOR-sprite-blit.
pub struct Display([u32; 2048]);

/// The framebuffer always holds exactly 64 x 32 pixels.
pub broadcast proof fn lemma_display_len(d: &Display)
    ensures
        (#[trigger] d@.len()) == 2048,
{
}

impl Display {
    /// Pixels per framebuffer row.
    pub const WIDTH: usize = 64;

    /// Framebuffer rows.
    pub const HEIGHT: usize = 32;

    /// Pixel value of a lit pixel.
    pub const COLOR_WHITE: u32 = 0xFFFFFFFF;
}

impl View for Display {
    type V = Seq<u32>;

    closed spec fn view(&self) -> Seq<u32> {
        self.0@
    }
}

impl Default for Display {
    /// A fresh framebuffer is fully off.
    fn default() -> (r: Self)
        ensures
            r@.len() == 2048,
            forall|j: int| 0 <= j < 2048 ==> r@[j] == 0u32,
    {
        Display([0u32; 2048])
    }
}

impl Display {
    /// Read-only view of the pixel buffer, row-major, for presentation.
    pub fn as_slice(&self) -> (r: &[u32])
        ensures
            r@ == self@,
    {
        self.0.as_slice()
    }

    /// The pixel at a row-major position.
    pub fn read(&self, idx: usize) -> (r: u32)
        requires
            idx < 2048,
        ensures
            r == self@[idx as int],
    {
        self.0[idx]
    }

    /// Overwrites the pixel at a row-major position.
    pub(crate) fn write(&mut self, idx: usize, pixel: u32)
        requires
            idx < 2048,
        ensures
            final(self)@ == old(self)@.update(idx as int, pixel),
    {
        self.0[idx] = pixel;
    }

    /// Turns every pixel off.
    pub(crate) fn clear(&mut self)
        ensures
            final(self)@ == Seq::new(2048, |j: int| 0u32),
    {
        self.0 = [0u32; 2048];
        proof {
            assert(self@ =~= Seq::new(2048, |j: int| 0u32));
        }
    }
}

} // verus!
