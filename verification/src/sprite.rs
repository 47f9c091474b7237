//! Sprites, the sheets that hold them, and the handles that name them.
//!
//! A [`SpriteSheetBuilder`] gathers checked bitmaps and hands out a handle
//! for each. [`SpriteSheetBuilder::build`] consumes it and gives the
//! [`SpriteSheet`]: the texture to upload and the table by which a frame's
//! [`SpriteInstance`]s are resolved into the records the shader reads.

use crate::packing::{
    lemma_add_all_extends, lemma_add_all_keeps_order, lemma_add_keeps_wf, lemma_blank_wf,
    lemma_room_after, lemma_texture_holds_all_pixels, lemma_total_pixels_grows, total_pixels,
    Packing, SheetView,
};
use vstd::arithmetic::div_mod::{lemma_mod_add_multiples_vanish, lemma_small_mod};
use vstd::prelude::*;

verus! {

/// Most instances that one draw takes.
pub const MAX_INSTANCES: usize = 2048;

/// One row of a sheet's lookup table: where a sprite's pixels start and how
/// it is to be drawn.
#[derive(Debug, Clone, Copy, PartialEq, Eq)]
pub struct SpriteEntry {
    /// Offset of the sprite's first pixel in the sheet's pixel sequence.
    pub address: u32,
    /// Width and height in pixels.
    pub dimensions: (u32, u32),
    /// Displacement of the sprite from the position it is drawn at.
    pub offset: (i32, i32),
}

impl SpriteEntry {
    /// Number of pixels the sprite occupies.
    pub open spec fn area(self) -> nat {
        self.dimensions.0 as nat * self.dimensions.1 as nat
    }

    /// Offset one past the sprite's last pixel.
    pub open spec fn end(self) -> nat {
        self.address as nat + self.area()
    }
}

/// A sprite's bitmap, checked against its dimensions, ready to be added to
/// a sheet.
pub struct SpriteData {
    dimensions: (u32, u32),
    offset: (i32, i32),
    data: Vec<u8>,
}

impl SpriteData {
    /// Width and height in pixels.
    pub closed spec fn dimensions(&self) -> (u32, u32) {
        self.dimensions
    }

    /// Displacement of the sprite from the position it is drawn at.
    pub closed spec fn offset(&self) -> (i32, i32) {
        self.offset
    }

    /// The pixels, four bytes each, row by row from the top.
    pub closed spec fn bytes(&self) -> Seq<u8> {
        self.data@
    }

    /// Number of pixels.
    pub open spec fn pixels(&self) -> nat {
        self.dimensions().0 as nat * self.dimensions().1 as nat
    }

    /// Whether a bitmap of `len` bytes is a sprite of the given
    /// dimensions: neither dimension is zero and there are exactly four
    /// bytes per pixel.
    pub open spec fn accepts(dimensions: (u32, u32), len: nat) -> bool {
        &&& dimensions.0 > 0
        &&& dimensions.1 > 0
        &&& len == dimensions.0 as nat * dimensions.1 as nat * 4
    }

    /// The bitmap is a sprite of the dimensions.
    #[verifier::type_invariant]
    pub open spec fn wf(&self) -> bool {
        Self::accepts(self.dimensions(), self.bytes().len())
    }

    /// Checks `data` against `dimensions`. The result is `None` when a
    /// dimension is zero or when `data` does not hold exactly four bytes for
    /// each pixel; otherwise it is the sprite, with everything as given.
    pub fn new(dimensions: (u32, u32), offset: (i32, i32), data: Vec<u8>) -> (sprite: Option<Self>)
        ensures
            sprite is Some <==> Self::accepts(dimensions, data@.len()),
            sprite matches Some(s) ==> {
                &&& s.wf()
                &&& s.dimensions() == dimensions
                &&& s.offset() == offset
                &&& s.bytes() == data@
            },
    {
        if dimensions.0 == 0 || dimensions.1 == 0 {
            return None;
        }
        assert(dimensions.0 as nat * dimensions.1 as nat <= 0xffff_ffff * 0xffff_ffff)
            by (nonlinear_arith)
            requires
                dimensions.0 <= 0xffff_ffff,
                dimensions.1 <= 0xffff_ffff,
        ;
        let pixels: u64 = dimensions.0 as u64 * dimensions.1 as u64;
        let len: usize = data.len();
        if len % 4 == 0 && (len / 4) as u64 == pixels {
            Some(SpriteData { dimensions, offset, data })
        } else {
            None
        }
    }

    /// Number of pixels.
    pub fn pixel_count(&self) -> (count: usize)
        ensures
            count == self.pixels(),
    {
        proof {
            use_type_invariant(self);
        }
        self.data.len() / 4
    }
}

/// The index of a sprite in the table of the sheet that issued it.
#[derive(Debug, Clone, Copy, PartialEq, Eq)]
pub struct SpriteHandle(usize);

impl View for SpriteHandle {
    type V = nat;

    closed spec fn view(&self) -> nat {
        self.0 as nat
    }
}

impl SpriteHandle {
    /// The index in the table.
    pub fn index(&self) -> (index: usize)
        ensures
            index == self@,
    {
        self.0
    }
}

/// A run of consecutive sprites shown one after the other.
#[derive(Debug, Clone, Copy, PartialEq, Eq)]
pub struct AnimationHandle {
    offset: usize,
    frame_count: usize,
}

impl AnimationHandle {
    /// Index of the first frame in the table.
    pub closed spec fn offset(&self) -> nat {
        self.offset as nat
    }

    /// Number of frames.
    pub closed spec fn frame_count(&self) -> nat {
        self.frame_count as nat
    }

    /// There is at least one frame, and the index of the last one is
    /// representable.
    #[verifier::type_invariant]
    pub open spec fn wf(&self) -> bool {
        &&& self.frame_count() > 0
        &&& self.offset() + self.frame_count() <= usize::MAX
    }

    /// Index of the frame shown at `time`: the frames in order, over and
    /// over.
    pub open spec fn frame(&self, time: nat) -> nat {
        self.offset() + time % self.frame_count()
    }

    /// The frame shown at `time`.
    pub fn get_frame(&self, time: usize) -> (handle: SpriteHandle)
        ensures
            handle@ == self.frame(time as nat),
            self.offset() <= handle@ < self.offset() + self.frame_count(),
    {
        proof {
            use_type_invariant(self);
        }
        SpriteHandle(self.offset + (time % self.frame_count))
    }

    /// Number of frames.
    pub fn len(&self) -> (count: usize)
        ensures
            count == self.frame_count(),
            count > 0,
    {
        proof {
            use_type_invariant(self);
        }
        self.frame_count
    }
}

/// Within the first period the frames come in the order of registration,
/// each a different sprite.
pub proof fn lemma_frames_in_order(animation: AnimationHandle, time: nat, other: nat)
    requires
        animation.wf(),
        time < animation.frame_count(),
        other < animation.frame_count(),
    ensures
        animation.frame(time) == animation.offset() + time,
        time != other ==> animation.frame(time) != animation.frame(other),
        time < other ==> animation.frame(time) < animation.frame(other),
{
    lemma_small_mod(time, animation.frame_count());
    lemma_small_mod(other, animation.frame_count());
}

/// The frames repeat with the frame count as period.
pub proof fn lemma_frames_repeat(animation: AnimationHandle, time: nat)
    requires
        animation.wf(),
    ensures
        animation.frame(time + animation.frame_count()) == animation.frame(time),
{
    let count = animation.frame_count() as int;
    lemma_mod_add_multiples_vanish(time as int, count);
    assert((count + time as int) % count == (time as int) % count);
}

/// A sprite to draw this frame.
#[derive(Debug, Clone, Copy)]
pub struct SpriteInstance {
    /// Position on the canvas.
    pub position: [i32; 2],
    /// Which sprite of the sheet.
    pub sprite: SpriteHandle,
}

/// What the shader is told of one instance.
#[derive(Debug, Clone, Copy, PartialEq, Eq)]
pub struct InstanceData {
    /// Position on the canvas, the sprite's own offset included.
    pub position: (i32, i32),
    /// Width and height in pixels.
    pub dimensions: (u32, u32),
    /// Address of the sprite's first pixel in the sheet.
    pub sheet_position: u32,
}

/// Gathers sprites for one sheet. Made once, filled, then turned into the
/// sheet by [`SpriteSheetBuilder::build`], which consumes it.
pub struct SpriteSheetBuilder {
    max_width: u32,
    table: Vec<SpriteEntry>,
    pixel_count: u32,
    data: Vec<u8>,
}

impl View for SpriteSheetBuilder {
    type V = Packing;

    closed spec fn view(&self) -> Packing {
        Packing { max_width: self.max_width as nat, entries: self.table@, texels: self.data@ }
    }
}

impl SpriteSheetBuilder {
    /// The packing is well formed and the running counter agrees with it.
    pub closed spec fn wf(&self) -> bool {
        &&& self@.wf()
        &&& self.pixel_count as nat == self@.pixel_count()
    }

    /// A well-formed builder holds a well-formed packing.
    pub proof fn lemma_wf_packing(&self)
        requires
            self.wf(),
        ensures
            self@.wf(),
    {
    }

    /// A builder for textures at most `max_width` pixels wide. It starts
    /// with the blank sprite at index 0, so that a sheet is never empty.
    pub fn new(max_width: u32) -> (builder: Self)
        requires
            max_width > 0,
        ensures
            builder.wf(),
            builder@.wf(),
            builder@ == Packing::blank(max_width as nat),
    {
        let mut table: Vec<SpriteEntry> = Vec::new();
        table.push(SpriteEntry { address: 0, dimensions: (1, 1), offset: (0, 0) });
        let mut data: Vec<u8> = Vec::new();
        data.push(0);
        data.push(0);
        data.push(0);
        data.push(0);
        let builder = SpriteSheetBuilder { max_width, table, pixel_count: 1, data };
        proof {
            lemma_blank_wf(max_width as nat);
            assert(builder@.entries =~= Packing::blank(max_width as nat).entries);
            assert(builder@.texels =~= Packing::blank(max_width as nat).texels);
        }
        builder
    }

    /// Whether there is room for `sprite`.
    pub fn can_add(&self, sprite: &SpriteData) -> (room: bool)
        requires
            self.wf(),
        ensures
            room == self@.has_room(sprite.pixels()),
    {
        let pixels: usize = sprite.pixel_count();
        if pixels > (u32::MAX - self.pixel_count) as usize {
            return false;
        }
        let count: u32 = self.pixel_count + pixels as u32;
        count / self.max_width < u32::MAX
    }

    /// Whether there is room for all of `sprites`.
    pub fn can_add_animation(&self, sprites: &Vec<SpriteData>) -> (room: bool)
        requires
            self.wf(),
        ensures
            room == self@.has_room(total_pixels(sprites@)),
    {
        let mut left: u32 = u32::MAX - self.pixel_count;
        let mut i: usize = 0;
        while i < sprites.len()
            invariant
                i <= sprites.len(),
                self.pixel_count as nat == self@.pixel_count(),
                self@.pixel_count() + total_pixels(sprites@.take(i as int)) + left == u32::MAX,
            decreases sprites.len() - i,
        {
            let pixels: usize = sprites[i].pixel_count();
            proof {
                assert(sprites@.take(i + 1).drop_last() =~= sprites@.take(i as int));
                assert(sprites@.take(i + 1).last() == sprites@[i as int]);
            }
            if pixels > left as usize {
                proof {
                    lemma_total_pixels_grows(sprites@, i + 1, sprites@.len() as int);
                    assert(sprites@.take(sprites@.len() as int) =~= sprites@);
                }
                return false;
            }
            left = left - pixels as u32;
            i = i + 1;
        }
        proof {
            assert(sprites@.take(sprites@.len() as int) =~= sprites@);
        }
        let count: u32 = u32::MAX - left;
        count / self.max_width < u32::MAX
    }

    fn push_sprite(&mut self, sprite: SpriteData)
        requires
            old(self).wf(),
            old(self)@.has_room(sprite.pixels()),
        ensures
            final(self).wf(),
            final(self)@ == old(self)@.add(sprite),
    {
        proof {
            use_type_invariant(&sprite);
            lemma_add_keeps_wf(self@, sprite);
        }
        let pixels: usize = sprite.pixel_count();
        let SpriteData { dimensions, offset, data } = sprite;
        let mut data = data;
        self.table.push(SpriteEntry { address: self.pixel_count, dimensions, offset });
        self.data.append(&mut data);
        self.pixel_count = self.pixel_count + pixels as u32;
    }

    /// Appends `sprite` at the current pixel count and returns its index
    /// in the table.
    pub fn add(&mut self, sprite: SpriteData) -> (handle: SpriteHandle)
        requires
            old(self).wf(),
            old(self)@.has_room(sprite.pixels()),
        ensures
            final(self).wf(),
            final(self)@.wf(),
            final(self)@ == old(self)@.add(sprite),
            handle@ == old(self)@.entries.len(),
            final(self)@.entries[handle@ as int] == (SpriteEntry {
                address: old(self)@.pixel_count() as u32,
                dimensions: sprite.dimensions(),
                offset: sprite.offset(),
            }),
    {
        self.push_sprite(sprite);
        SpriteHandle(self.table.len() - 1)
    }

    /// Appends `sprites` in order as the frames of one animation. With no
    /// sprites there is no animation: the result is `None` and nothing
    /// changes.
    pub fn add_animation(&mut self, sprites: Vec<SpriteData>) -> (animation: Option<
        AnimationHandle,
    >)
        requires
            old(self).wf(),
            old(self)@.has_room(total_pixels(sprites@)),
        ensures
            final(self).wf(),
            final(self)@.wf(),
            final(self)@ == old(self)@.add_all(sprites@),
            animation is Some <==> sprites@.len() > 0,
            animation matches Some(a) ==> {
                &&& a.wf()
                &&& a.offset() == old(self)@.entries.len()
                &&& a.frame_count() == sprites@.len()
            },
            final(self)@.entries.len() == old(self)@.entries.len() + sprites@.len(),
            forall|k: int|
                #![trigger sprites@[k]]
                0 <= k < sprites@.len() ==> {
                    let entry = final(self)@.entries[old(self)@.entries.len() + k];
                    &&& entry.dimensions == sprites@[k].dimensions()
                    &&& entry.offset == sprites@[k].offset()
                },
    {
        let offset: usize = self.table.len();
        let ghost start = self@;
        let ghost all = sprites@;
        let ghost count = all.len();
        let mut sprites = sprites;
        let mut rest: Vec<SpriteData> = Vec::new();
        // Turn the frames round, so that they can be taken off the end in
        // order.
        while sprites.len() > 0
            invariant
                sprites@.len() + rest@.len() == count,
                count == all.len(),
                forall|i: int| 0 <= i < sprites@.len() ==> sprites@[i] == all[i],
                forall|i: int| 0 <= i < rest@.len() ==> rest@[i] == all[count - 1 - i],
            decreases sprites.len(),
        {
            let sprite = sprites.pop().unwrap();
            rest.push(sprite);
        }
        while rest.len() > 0
            invariant
                rest@.len() <= count,
                count == all.len(),
                forall|i: int| 0 <= i < rest@.len() ==> rest@[i] == all[count - 1 - i],
                self.wf(),
                self@ == start.add_all(all.take(count - rest@.len())),
                start.max_width > 0,
                start.has_room(total_pixels(all)),
                self.table@.len() == offset + (count - rest@.len()),
            decreases rest.len(),
        {
            let ghost done = count - rest@.len();
            let sprite = rest.pop().unwrap();
            proof {
                assert(sprite == all[done]);
                assert(all.take(done + 1).drop_last() =~= all.take(done));
                assert(all.take(done + 1).last() == all[done]);
                lemma_add_all_extends(start, all.take(done));
                lemma_total_pixels_grows(all, done + 1, count as int);
                assert(all.take(count as int) =~= all);
                lemma_room_after(start, all.take(done), sprite, total_pixels(all));
            }
            self.push_sprite(sprite);
        }
        proof {
            assert(all.take(count as int) =~= all);
            lemma_add_all_extends(start, all);
            assert forall|k: int| 0 <= k < all.len() implies ({
                let entry = start.add_all(all).entries[start.entries.len() + k];
                &&& entry.dimensions == (#[trigger] all[k]).dimensions()
                &&& entry.offset == all[k].offset()
            }) by {
                lemma_add_all_keeps_order(start, all, k);
            }
        }
        let frame_count: usize = self.table.len() - offset;
        if frame_count == 0 {
            None
        } else {
            Some(AnimationHandle { offset, frame_count })
        }
    }

    /// Finishes the sheet: chooses the texture's size, and fills the pixel
    /// sequence up with transparent pixels to that size. The table goes
    /// over unchanged.
    pub fn build(self) -> (sheet: SpriteSheet)
        requires
            self.wf(),
        ensures
            sheet@ == self@.finish(),
            sheet@.width * sheet@.height >= self@.pixel_count(),
            sheet@.texels.len() == 4 * (sheet@.width * sheet@.height),
    {
        let ghost packing = self@;
        proof {
            lemma_texture_holds_all_pixels(packing);
        }
        let SpriteSheetBuilder { max_width, table, pixel_count, data } = self;
        let mut data = data;
        let width: u32 = if pixel_count < max_width {
            pixel_count
        } else {
            max_width
        };
        let height: u32 = 1 + pixel_count / max_width;
        assert(width as u64 * height as u64 == packing.width() * packing.height())
            by (nonlinear_arith)
            requires
                width == packing.width(),
                height == packing.height(),
                packing.width() * packing.height() <= 0x2_0000_0000,
        ;
        let padding: u64 = width as u64 * height as u64 - pixel_count as u64;
        let mut filled: u64 = 0;
        while filled < padding
            invariant
                filled <= padding,
                padding == packing.padding(),
                data@ == packing.texels + Seq::new(4 * filled as nat, |i: int| 0u8),
            decreases padding - filled,
        {
            data.push(0);
            data.push(0);
            data.push(0);
            data.push(0);
            filled = filled + 1;
            assert(data@ =~= packing.texels + Seq::new(4 * filled as nat, |i: int| 0u8));
        }
        SpriteSheet { table, width, height, data }
    }
}

/// A finished sheet: the lookup table and the texture to upload. Nothing
/// changes it once it is built.
pub struct SpriteSheet {
    table: Vec<SpriteEntry>,
    width: u32,
    height: u32,
    data: Vec<u8>,
}

impl View for SpriteSheet {
    type V = SheetView;

    closed spec fn view(&self) -> SheetView {
        SheetView {
            entries: self.table@,
            width: self.width as nat,
            height: self.height as nat,
            texels: self.data@,
        }
    }
}

impl SpriteSheet {
    /// Number of sprites, the blank one included.
    pub fn len(&self) -> (count: usize)
        ensures
            count == self@.entries.len(),
    {
        self.table.len()
    }

    /// Width of the texture in pixels.
    pub fn width(&self) -> (width: u32)
        ensures
            width == self@.width,
    {
        self.width
    }

    /// Height of the texture in pixels.
    pub fn height(&self) -> (height: u32)
        ensures
            height == self@.height,
    {
        self.height
    }

    /// The texture's contents, row by row.
    pub fn texels(&self) -> (texels: &[u8])
        ensures
            texels@ == self@.texels,
    {
        self.data.as_slice()
    }

    /// The lookup table, in the order of registration.
    pub fn table(&self) -> (table: &[SpriteEntry])
        ensures
            table@ == self@.entries,
    {
        self.table.as_slice()
    }

    /// The entry that `handle` stands for, or `None` if the sheet has no
    /// such sprite.
    pub fn entry(&self, handle: SpriteHandle) -> (entry: Option<SpriteEntry>)
        ensures
            entry == if handle@ < self@.entries.len() {
                Some(self@.entries[handle@ as int])
            } else {
                None
            },
    {
        if handle.0 < self.table.len() {
            Some(self.table[handle.0])
        } else {
            None
        }
    }

    /// Whether every one of `sprites` names a sprite of this sheet and
    /// has a representable draw position.
    pub fn drawable(&self, sprites: &[SpriteInstance]) -> (ok: bool)
        ensures
            ok == self@.can_place_all(sprites@),
    {
        let mut i: usize = 0;
        while i < sprites.len()
            invariant
                i <= sprites.len(),
                forall|k: int| 0 <= k < i ==> self@.can_place(#[trigger] sprites@[k]),
            decreases sprites.len() - i,
        {
            let instance = &sprites[i];
            if instance.sprite.0 >= self.table.len() {
                assert(!self@.can_place(sprites@[i as int]));
                return false;
            }
            let entry = &self.table[instance.sprite.0];
            if instance.position[0].checked_add(entry.offset.0).is_none()
                || instance.position[1].checked_add(entry.offset.1).is_none() {
                assert(!self@.can_place(sprites@[i as int]));
                return false;
            }
            i = i + 1;
        }
        true
    }

    /// Resolves this frame's sprites into the records to upload, in draw
    /// order. Every handle must name a sprite of this sheet. More than
    /// [`MAX_INSTANCES`] are refused with `None`.
    pub fn instances(&self, sprites: &[SpriteInstance]) -> (records: Option<Vec<InstanceData>>)
        requires
            self@.can_place_all(sprites@),
        ensures
            records is Some <==> sprites@.len() <= MAX_INSTANCES,
            records matches Some(r) ==> r@ == self@.place_all(sprites@),
    {
        if sprites.len() > MAX_INSTANCES {
            return None;
        }
        let mut records: Vec<InstanceData> = Vec::new();
        let mut i: usize = 0;
        while i < sprites.len()
            invariant
                i <= sprites.len(),
                self@.can_place_all(sprites@),
                records@ == self@.place_all(sprites@.take(i as int)),
            decreases sprites.len() - i,
        {
            let instance = &sprites[i];
            assert(self@.can_place(sprites@[i as int]));
            let entry = &self.table[instance.sprite.0];
            records.push(
                InstanceData {
                    position: (
                        instance.position[0] + entry.offset.0,
                        instance.position[1] + entry.offset.1,
                    ),
                    dimensions: entry.dimensions,
                    sheet_position: entry.address,
                },
            );
            i = i + 1;
            assert(records@ =~= self@.place_all(sprites@.take(i as int)));
        }
        assert(sprites@.take(i as int) =~= sprites@);
        Some(records)
    }
}

} // verus!
