//! The model of a sprite sheet, and what holds of it.
//!
//! Sprites are not packed as boxes in a grid. Their pixels are laid end to
//! end in one long sequence, and that sequence is folded row by row into a
//! texture no wider than the hardware allows. A sprite is found again by
//! the address of its first pixel, which is the number of pixels laid down
//! before it.

use crate::sprite::{InstanceData, SpriteData, SpriteEntry, SpriteInstance};
use vstd::arithmetic::div_mod::{
    lemma_basic_div, lemma_div_is_ordered, lemma_fundamental_div_mod, lemma_mod_bound,
};
use vstd::prelude::*;

verus! {

/// Sum of the areas of `entries`.
pub open spec fn total_area(entries: Seq<SpriteEntry>) -> nat
    decreases entries.len(),
{
    if entries.len() == 0 {
        0
    } else {
        total_area(entries.drop_last()) + entries.last().area()
    }
}

/// Every sprite starts where the one before it ends, the first at zero.
pub open spec fn contiguous(entries: Seq<SpriteEntry>) -> bool {
    forall|i: int|
        0 <= i < entries.len() ==> (#[trigger] entries[i]).address == total_area(entries.take(i))
}

/// Sum of the pixel counts of `sprites`.
pub open spec fn total_pixels(sprites: Seq<SpriteData>) -> nat
    decreases sprites.len(),
{
    if sprites.len() == 0 {
        0
    } else {
        total_pixels(sprites.drop_last()) + sprites.last().pixels()
    }
}

/// The entry of the blank sprite that opens every sheet.
pub open spec fn blank_entry() -> SpriteEntry {
    SpriteEntry { address: 0, dimensions: (1, 1), offset: (0, 0) }
}

/// What a builder has gathered: the lookup table and the pixel sequence,
/// with the texture width they will be folded to.
pub struct Packing {
    /// Widest texture the hardware takes.
    pub max_width: nat,
    /// The lookup table, in the order of registration.
    pub entries: Seq<SpriteEntry>,
    /// The pixel sequence, four bytes per pixel.
    pub texels: Seq<u8>,
}

/// What a finished sheet holds: the lookup table and the texture.
pub struct SheetView {
    /// The lookup table; a handle is an index into it.
    pub entries: Seq<SpriteEntry>,
    /// Width of the texture in pixels.
    pub width: nat,
    /// Height of the texture in pixels.
    pub height: nat,
    /// The texture row by row, four bytes per pixel.
    pub texels: Seq<u8>,
}

impl Packing {
    /// Number of pixels gathered so far; the address the next sprite gets.
    pub open spec fn pixel_count(self) -> nat {
        total_area(self.entries)
    }

    /// A fresh packing: the blank sprite, one transparent pixel, alone.
    pub open spec fn blank(max_width: nat) -> Packing {
        Packing { max_width, entries: seq![blank_entry()], texels: seq![0u8, 0u8, 0u8, 0u8] }
    }

    /// The packing after `sprite` is appended.
    pub open spec fn add(self, sprite: SpriteData) -> Packing {
        Packing {
            max_width: self.max_width,
            entries: self.entries.push(
                SpriteEntry {
                    address: self.pixel_count() as u32,
                    dimensions: sprite.dimensions(),
                    offset: sprite.offset(),
                },
            ),
            texels: self.texels + sprite.bytes(),
        }
    }

    /// The packing after each of `sprites` is appended in turn.
    pub open spec fn add_all(self, sprites: Seq<SpriteData>) -> Packing
        decreases sprites.len(),
    {
        if sprites.len() == 0 {
            self
        } else {
            self.add_all(sprites.drop_last()).add(sprites.last())
        }
    }

    /// The table is gapless from zero, starts with the blank sprite, holds
    /// no empty sprite, and the pixel sequence has four bytes for each
    /// pixel the table accounts for. Every address and the height of the
    /// texture are representable.
    pub open spec fn wf(self) -> bool {
        &&& self.max_width > 0
        &&& self.entries.len() > 0
        &&& self.entries[0] == blank_entry()
        &&& forall|i: int|
            0 <= i < self.entries.len() ==> (#[trigger] self.entries[i]).area() > 0
        &&& contiguous(self.entries)
        &&& self.pixel_count() <= u32::MAX
        &&& self.height() <= u32::MAX
        &&& self.texels.len() == 4 * self.pixel_count()
    }

    /// Whether `pixels` more pixels can be taken: the pixel count and the
    /// height of the texture stay representable.
    pub open spec fn has_room(self, pixels: nat) -> bool {
        &&& self.pixel_count() + pixels <= u32::MAX
        &&& 1 + (self.pixel_count() + pixels) / self.max_width <= u32::MAX
    }

    /// Width of the texture: the whole sequence in one row if it is
    /// shorter than the widest row the hardware takes, else that row.
    pub open spec fn width(self) -> nat {
        if self.pixel_count() < self.max_width {
            self.pixel_count()
        } else {
            self.max_width
        }
    }

    /// Height of the texture: one row more than the full rows the
    /// sequence fills.
    pub open spec fn height(self) -> nat {
        1 + self.pixel_count() / self.max_width
    }

    /// Pixels of the texture that no sprite covers.
    pub open spec fn padding(self) -> nat {
        (self.width() * self.height() - self.pixel_count()) as nat
    }

    /// The pixel sequence filled up with transparent pixels to the size of
    /// the texture.
    pub open spec fn padded_texels(self) -> Seq<u8> {
        self.texels + Seq::new(4 * self.padding(), |i: int| 0u8)
    }

    /// The sheet that the packing is finished into.
    pub open spec fn finish(self) -> SheetView {
        SheetView {
            entries: self.entries,
            width: self.width(),
            height: self.height(),
            texels: self.padded_texels(),
        }
    }
}

impl SheetView {
    /// Column and row of the texture at which the pixel with the given
    /// address lies: the pixel sequence wraps every `width` pixels.
    pub open spec fn coordinate(self, address: nat) -> (nat, nat) {
        (address % self.width, address / self.width)
    }

    /// The bytes of the sprite behind `entry`, as the texture holds them.
    pub open spec fn sprite_texels(self, entry: SpriteEntry) -> Seq<u8> {
        self.texels.subrange(4 * entry.address as int, 4 * entry.end() as int)
    }

    /// Whether `instance` names a sprite of this sheet and its draw
    /// position is representable.
    pub open spec fn can_place(self, instance: SpriteInstance) -> bool {
        &&& instance.sprite@ < self.entries.len()
        &&& i32::MIN <= instance.position[0] + self.entries[instance.sprite@ as int].offset.0
            <= i32::MAX
        &&& i32::MIN <= instance.position[1] + self.entries[instance.sprite@ as int].offset.1
            <= i32::MAX
    }

    /// The record for `instance`: its sprite's address and dimensions, and
    /// its position moved by the sprite's offset.
    pub open spec fn place(self, instance: SpriteInstance) -> InstanceData {
        let entry = self.entries[instance.sprite@ as int];
        InstanceData {
            position: (
                (instance.position[0] + entry.offset.0) as i32,
                (instance.position[1] + entry.offset.1) as i32,
            ),
            dimensions: entry.dimensions,
            sheet_position: entry.address,
        }
    }

    /// Whether every one of `instances` can be placed.
    pub open spec fn can_place_all(self, instances: Seq<SpriteInstance>) -> bool {
        forall|i: int| 0 <= i < instances.len() ==> self.can_place(#[trigger] instances[i])
    }

    /// The records for `instances`, in the same order.
    pub open spec fn place_all(self, instances: Seq<SpriteInstance>) -> Seq<InstanceData> {
        Seq::new(instances.len(), |i: int| self.place(instances[i]))
    }
}

/// Appending an entry adds its area to the total.
pub proof fn lemma_total_area_push(entries: Seq<SpriteEntry>, entry: SpriteEntry)
    ensures
        total_area(entries.push(entry)) == total_area(entries) + entry.area(),
{
    assert(entries.push(entry).drop_last() =~= entries);
}

/// The total area of a prefix does not exceed that of a longer prefix.
pub proof fn lemma_total_area_grows(entries: Seq<SpriteEntry>, i: int, j: int)
    requires
        0 <= i <= j <= entries.len(),
    ensures
        total_area(entries.take(i)) <= total_area(entries.take(j)),
    decreases j - i,
{
    if i < j {
        lemma_total_area_grows(entries, i, j - 1);
        assert(entries.take(j).drop_last() =~= entries.take(j - 1));
    }
}

/// The pixel total of a prefix does not exceed that of a longer prefix.
pub proof fn lemma_total_pixels_grows(sprites: Seq<SpriteData>, i: int, j: int)
    requires
        0 <= i <= j <= sprites.len(),
    ensures
        total_pixels(sprites.take(i)) <= total_pixels(sprites.take(j)),
    decreases j - i,
{
    if i < j {
        lemma_total_pixels_grows(sprites, i, j - 1);
        assert(sprites.take(j).drop_last() =~= sprites.take(j - 1));
    }
}

/// Sprites in a gapless table do not overlap: an earlier one ends at or
/// before the start of every later one.
pub proof fn lemma_entries_disjoint(entries: Seq<SpriteEntry>, i: int, j: int)
    requires
        contiguous(entries),
        0 <= i < j < entries.len(),
    ensures
        entries[i].end() <= entries[j].address,
{
    assert(entries.take(i + 1).drop_last() =~= entries.take(i));
    assert(entries.take(i + 1).last() == entries[i]);
    lemma_total_area_grows(entries, i + 1, j);
}

/// Every sprite of a gapless table lies within the pixels counted, and
/// the last one ends exactly where the count stands.
pub proof fn lemma_entries_within_count(entries: Seq<SpriteEntry>, i: int)
    requires
        contiguous(entries),
        0 <= i < entries.len(),
    ensures
        entries[i].end() <= total_area(entries),
        i == entries.len() - 1 ==> entries[i].end() == total_area(entries),
{
    assert(entries.take(i + 1).drop_last() =~= entries.take(i));
    assert(entries.take(i + 1).last() == entries[i]);
    lemma_total_area_grows(entries, i + 1, entries.len() as int);
    assert(entries.take(entries.len() as int) =~= entries);
}

/// In a gapless table the address of each sprite after the first exceeds
/// that of the one before it by exactly the area of the one before it.
pub proof fn lemma_address_delta(entries: Seq<SpriteEntry>, i: int)
    requires
        contiguous(entries),
        0 <= i < entries.len() - 1,
    ensures
        entries[i + 1].address - entries[i].address == entries[i].area(),
{
    assert(entries.take(i + 1).drop_last() =~= entries.take(i));
    assert(entries.take(i + 1).last() == entries[i]);
}

/// The fresh packing is well formed and holds one pixel.
pub proof fn lemma_blank_wf(max_width: nat)
    requires
        max_width > 0,
    ensures
        Packing::blank(max_width).wf(),
        Packing::blank(max_width).pixel_count() == 1,
{
    let blank = Packing::blank(max_width);
    assert(blank.entries.drop_last() =~= Seq::<SpriteEntry>::empty());
    assert(total_area(blank.entries.drop_last()) == 0);
    assert(blank_entry().area() == 1) by {
        assert(blank_entry().dimensions == (1u32, 1u32));
        assert(1u32 as nat * 1u32 as nat == 1);
    }
    assert forall|i: int| 0 <= i < blank.entries.len() implies (#[trigger] blank.entries[i]).address
        == total_area(blank.entries.take(i)) by {
        assert(blank.entries.take(0) =~= Seq::<SpriteEntry>::empty());
    }
    assert(1int / (max_width as int) <= 1) by (nonlinear_arith)
        requires
            max_width > 0,
    ;
}

/// Appending a sprite for which there is room keeps a packing well formed,
/// advances the pixel count by the sprite's pixels, and puts the sprite's
/// bytes at its address.
pub proof fn lemma_add_keeps_wf(packing: Packing, sprite: SpriteData)
    requires
        packing.wf(),
        sprite.wf(),
        packing.has_room(sprite.pixels()),
    ensures
        packing.add(sprite).wf(),
        packing.add(sprite).pixel_count() == packing.pixel_count() + sprite.pixels(),
        packing.add(sprite).entries.last().address == packing.pixel_count(),
        packing.add(sprite).finish().sprite_texels(packing.add(sprite).entries.last())
            == sprite.bytes(),
{
    let entry = SpriteEntry {
        address: packing.pixel_count() as u32,
        dimensions: sprite.dimensions(),
        offset: sprite.offset(),
    };
    let after = packing.add(sprite);
    lemma_total_area_push(packing.entries, entry);
    assert(entry.area() > 0) by (nonlinear_arith)
        requires
            entry.area() == entry.dimensions.0 as nat * entry.dimensions.1 as nat,
            entry.dimensions.0 > 0,
            entry.dimensions.1 > 0,
    ;
    assert forall|i: int| 0 <= i < after.entries.len() implies (#[trigger] after.entries[i]).address
        == total_area(after.entries.take(i)) by {
        if i < packing.entries.len() {
            assert(after.entries.take(i) =~= packing.entries.take(i));
        } else {
            assert(after.entries.take(i) =~= packing.entries);
        }
    }
    assert(after.finish().sprite_texels(entry) =~= sprite.bytes());
}

/// Appending a run of sprites advances the pixel count by their pixels
/// and leaves what was there before in place.
pub proof fn lemma_add_all_extends(packing: Packing, sprites: Seq<SpriteData>)
    ensures
        packing.add_all(sprites).max_width == packing.max_width,
        packing.add_all(sprites).entries.len() == packing.entries.len() + sprites.len(),
        packing.add_all(sprites).entries.take(packing.entries.len() as int) == packing.entries,
        packing.add_all(sprites).texels.len() >= packing.texels.len(),
        packing.add_all(sprites).texels.take(packing.texels.len() as int) == packing.texels,
        packing.add_all(sprites).pixel_count() == packing.pixel_count() + total_pixels(sprites),
    decreases sprites.len(),
{
    if sprites.len() > 0 {
        let before = packing.add_all(sprites.drop_last());
        lemma_add_all_extends(packing, sprites.drop_last());
        let entry = before.add(sprites.last()).entries.last();
        lemma_total_area_push(before.entries, entry);
        assert(before.add(sprites.last()).entries.take(packing.entries.len() as int)
            =~= before.entries.take(packing.entries.len() as int));
        assert(before.add(sprites.last()).texels.take(packing.texels.len() as int)
            =~= before.texels.take(packing.texels.len() as int));
    } else {
        assert(packing.entries.take(packing.entries.len() as int) =~= packing.entries);
        assert(packing.texels.take(packing.texels.len() as int) =~= packing.texels);
    }
}

/// Appending a run of valid sprites for which there is room keeps a
/// packing well formed.
pub proof fn lemma_add_all_keeps_wf(packing: Packing, sprites: Seq<SpriteData>)
    requires
        packing.wf(),
        forall|i: int| 0 <= i < sprites.len() ==> (#[trigger] sprites[i]).wf(),
        packing.has_room(total_pixels(sprites)),
    ensures
        packing.add_all(sprites).wf(),
    decreases sprites.len(),
{
    if sprites.len() > 0 {
        let front = sprites.drop_last();
        lemma_room_for_less(packing, total_pixels(front), total_pixels(sprites));
        lemma_add_all_keeps_wf(packing, front);
        lemma_add_all_extends(packing, front);
        lemma_add_keeps_wf(packing.add_all(front), sprites.last());
    }
}

/// Where there is room for some pixels there is room for fewer.
pub proof fn lemma_room_for_less(packing: Packing, fewer: nat, pixels: nat)
    requires
        packing.max_width > 0,
        fewer <= pixels,
        packing.has_room(pixels),
    ensures
        packing.has_room(fewer),
{
    lemma_div_is_ordered(
        (packing.pixel_count() + fewer) as int,
        (packing.pixel_count() + pixels) as int,
        packing.max_width as int,
    );
}

/// In a well-formed packing the first address is zero, the addresses
/// rise by the areas, no two sprites overlap, and none reaches past the
/// pixel count.
pub proof fn lemma_table_is_gapless(packing: Packing, i: int, j: int)
    requires
        packing.wf(),
        0 <= i < j < packing.entries.len(),
    ensures
        packing.entries[0].address == 0,
        packing.entries[i + 1].address - packing.entries[i].address == packing.entries[i].area(),
        packing.entries[i].address < packing.entries[j].address,
        packing.entries[i].end() <= packing.entries[j].address,
        packing.entries[j].end() <= packing.pixel_count(),
{
    lemma_address_delta(packing.entries, i);
    lemma_entries_disjoint(packing.entries, i, j);
    lemma_entries_within_count(packing.entries, j);
}

/// The `k`-th sprite of a run appended to a packing is found at the
/// `k`-th index after the ones that were there, with the dimensions and
/// offset it was given.
pub proof fn lemma_add_all_keeps_order(packing: Packing, sprites: Seq<SpriteData>, k: int)
    requires
        0 <= k < sprites.len(),
    ensures
        packing.add_all(sprites).entries.len() == packing.entries.len() + sprites.len(),
        packing.add_all(sprites).entries[packing.entries.len() + k].dimensions
            == sprites[k].dimensions(),
        packing.add_all(sprites).entries[packing.entries.len() + k].offset == sprites[k].offset(),
    decreases sprites.len(),
{
    let front = sprites.drop_last();
    lemma_add_all_extends(packing, front);
    lemma_add_all_extends(packing, sprites);
    if k < sprites.len() - 1 {
        lemma_add_all_keeps_order(packing, front, k);
    }
}

/// Where there is room for a whole run of sprites, there is room for the
/// next one after any part of the run.
pub proof fn lemma_room_after(
    packing: Packing,
    done: Seq<SpriteData>,
    next: SpriteData,
    pixels: nat,
)
    requires
        packing.max_width > 0,
        total_pixels(done) + next.pixels() <= pixels,
        packing.has_room(pixels),
    ensures
        packing.add_all(done).has_room(next.pixels()),
{
    lemma_add_all_extends(packing, done);
    lemma_room_for_less(packing, total_pixels(done) + next.pixels(), pixels);
}

/// The `k`-th sprite of a run appended to a packing is found at the
/// `k`-th index after the ones that were there, with the dimensions and
/// offset it was given and with its bytes at its address in the finished
/// texture; the entries that were there stay as they were.
pub proof fn lemma_add_all_entry(packing: Packing, sprites: Seq<SpriteData>, k: int)
    requires
        packing.wf(),
        forall|i: int| 0 <= i < sprites.len() ==> (#[trigger] sprites[i]).wf(),
        packing.has_room(total_pixels(sprites)),
        0 <= k < sprites.len(),
    ensures
        ({
            let after = packing.add_all(sprites);
            let entry = after.entries[packing.entries.len() + k];
            &&& entry.dimensions == sprites[k].dimensions()
            &&& entry.offset == sprites[k].offset()
            &&& after.finish().sprite_texels(entry) == sprites[k].bytes()
            &&& forall|i: int|
                0 <= i < packing.entries.len() ==> after.entries[i] == packing.entries[i]
        }),
    decreases sprites.len(),
{
    let front = sprites.drop_last();
    let before = packing.add_all(front);
    let after = packing.add_all(sprites);
    let entry = after.entries[packing.entries.len() + k];
    lemma_room_for_less(packing, total_pixels(front), total_pixels(sprites));
    lemma_add_all_extends(packing, front);
    lemma_add_all_extends(packing, sprites);
    lemma_add_all_keeps_wf(packing, front);
    lemma_add_keeps_wf(before, sprites.last());
    if k < sprites.len() - 1 {
        lemma_add_all_entry(packing, front, k);
        lemma_entries_within_count(before.entries, packing.entries.len() + k);
        assert(after.finish().sprite_texels(entry) =~= before.finish().sprite_texels(entry));
    }
    assert forall|i: int| 0 <= i < packing.entries.len() implies after.entries[i]
        == packing.entries[i] by {
        assert(after.entries.take(packing.entries.len() as int)[i] == packing.entries[i]);
    }
}

/// Whatever valid sprites are registered on a fresh builder, as long as
/// there is room for them: the pixel count is the blank pixel plus the sum of their
/// pixels, every address exceeds the one before it by the area of the
/// sprite before it, no two sprites overlap, and none reaches past the
/// pixel count.
pub proof fn lemma_packing_is_gapless(max_width: nat, sprites: Seq<SpriteData>, i: int, j: int)
    requires
        max_width > 0,
        forall|k: int| 0 <= k < sprites.len() ==> (#[trigger] sprites[k]).wf(),
        Packing::blank(max_width).has_room(total_pixels(sprites)),
        0 <= i < j <= sprites.len(),
    ensures
        ({
            let packing = Packing::blank(max_width).add_all(sprites);
            &&& packing.wf()
            &&& packing.entries.len() == 1 + sprites.len()
            &&& packing.pixel_count() == 1 + total_pixels(sprites)
            &&& packing.entries[i].end() <= packing.entries[j].address
            &&& packing.entries[j].end() <= packing.pixel_count()
            &&& packing.entries[i + 1].address - packing.entries[i].address
                == packing.entries[i].area()
        }),
{
    let blank = Packing::blank(max_width);
    lemma_blank_wf(max_width);
    lemma_add_all_keeps_wf(blank, sprites);
    lemma_add_all_extends(blank, sprites);
    let packing = blank.add_all(sprites);
    lemma_entries_disjoint(packing.entries, i, j);
    lemma_entries_within_count(packing.entries, j);
    lemma_address_delta(packing.entries, i);
}

/// The texture has room for every pixel gathered and at most one row to
/// spare, is never wider than the hardware takes, and the padded pixel
/// sequence fills it exactly.
pub proof fn lemma_texture_holds_all_pixels(packing: Packing)
    requires
        packing.max_width > 0,
    ensures
        packing.width() * packing.height() >= packing.pixel_count(),
        packing.width() * packing.height() <= packing.pixel_count() + packing.max_width,
        packing.width() <= packing.max_width,
        packing.pixel_count() > 0 ==> packing.width() > 0,
        packing.texels.len() == 4 * packing.pixel_count() ==> packing.padded_texels().len() == 4
            * (packing.width() * packing.height()),
{
    let count = packing.pixel_count() as int;
    let max = packing.max_width as int;
    if count < max {
        lemma_basic_div(count, max);
        assert(packing.height() == 1);
        assert(packing.width() * packing.height() == count) by (nonlinear_arith)
            requires
                packing.width() == count,
                packing.height() == 1,
        ;
    } else {
        lemma_fundamental_div_mod(count, max);
        lemma_mod_bound(count, max);
        let rows = count / max;
        assert(max * (1 + rows) == max + max * rows) by (nonlinear_arith);
        assert(packing.width() * packing.height() == max * (1 + rows));
    }
}

/// Every pixel gathered has its place inside the texture, and the place
/// is the one that reading the sequence row by row gives it.
pub proof fn lemma_coordinate_in_texture(packing: Packing, address: nat)
    requires
        packing.max_width > 0,
        address < packing.pixel_count(),
    ensures
        ({
            let (column, row) = packing.finish().coordinate(address);
            &&& column < packing.width()
            &&& row < packing.height()
            &&& row * packing.width() + column == address
        }),
{
    let width = packing.width() as int;
    let count = packing.pixel_count() as int;
    let max = packing.max_width as int;
    let a = address as int;
    assert(width > 0);
    lemma_fundamental_div_mod(a, width);
    lemma_mod_bound(a, width);
    assert((a / width) * width == width * (a / width)) by (nonlinear_arith);
    if count < max {
        lemma_basic_div(a, width);
    } else {
        lemma_div_is_ordered(a, count, max);
    }
}

} // verus!
