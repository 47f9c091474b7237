use bitte_pixels::sprite::{SpriteData, SpriteEntry, SpriteSheetBuilder};

fn pixels(count: usize, shade: u8) -> Vec<u8> {
    vec![shade; count * 4]
}

fn sprite(width: u32, height: u32, offset: (i32, i32), shade: u8) -> SpriteData {
    SpriteData::new((width, height), offset, pixels((width * height) as usize, shade))
        .expect("dimensions and data agree")
}

#[test]
fn sprite_data_rejects_zero_width() {
    assert!(SpriteData::new((0, 5), (0, 0), Vec::new()).is_none());
    assert!(SpriteData::new((0, 5), (0, 0), pixels(5, 1)).is_none());
}

#[test]
fn sprite_data_rejects_zero_height() {
    assert!(SpriteData::new((5, 0), (0, 0), Vec::new()).is_none());
}

#[test]
fn sprite_data_rejects_short_buffer() {
    assert!(SpriteData::new((2, 3), (0, 0), vec![0; 23]).is_none());
    assert!(SpriteData::new((2, 3), (0, 0), vec![0; 20]).is_none());
    assert!(SpriteData::new((1, 1), (0, 0), Vec::new()).is_none());
}

#[test]
fn sprite_data_rejects_long_buffer() {
    assert!(SpriteData::new((2, 3), (0, 0), vec![0; 25]).is_none());
    assert!(SpriteData::new((2, 3), (0, 0), vec![0; 28]).is_none());
}

#[test]
fn sprite_data_accepts_exact_buffer() {
    let sprite = SpriteData::new((2, 3), (4, -5), vec![7; 24]).expect("24 bytes for 6 pixels");
    assert_eq!(sprite.pixel_count(), 6);
}

#[test]
fn sprite_data_copes_with_products_beyond_32_bits() {
    assert!(SpriteData::new((u32::MAX, u32::MAX), (0, 0), vec![0; 4]).is_none());
    assert!(SpriteData::new((65536, 65536), (0, 0), Vec::new()).is_none());
    assert!(SpriteData::new((1 << 31, 2), (0, 0), Vec::new()).is_none());
}

#[test]
fn fresh_builder_holds_the_blank_sprite() {
    let sheet = SpriteSheetBuilder::new(8192).build();
    assert_eq!(sheet.len(), 1);
    assert_eq!(
        sheet.table(),
        &[SpriteEntry { address: 0, dimensions: (1, 1), offset: (0, 0) }][..]
    );
    assert_eq!(sheet.width(), 1);
    assert_eq!(sheet.height(), 1);
    assert_eq!(sheet.texels(), &[0u8, 0, 0, 0][..]);
}

#[test]
fn add_numbers_sprites_from_one() {
    let mut builder = SpriteSheetBuilder::new(8192);
    assert_eq!(builder.add(sprite(2, 3, (0, 0), 1)).index(), 1);
    assert_eq!(builder.add(sprite(1, 1, (0, 0), 2)).index(), 2);
    assert_eq!(builder.add(sprite(4, 4, (0, 0), 3)).index(), 3);
}

#[test]
fn addresses_advance_by_area() {
    let mut builder = SpriteSheetBuilder::new(8192);
    builder.add(sprite(2, 3, (0, 0), 1));
    builder.add(sprite(5, 1, (0, 0), 2));
    builder.add(sprite(4, 4, (0, 0), 3));
    let sheet = builder.build();
    let addresses: Vec<u32> = sheet.table().iter().map(|entry| entry.address).collect();
    assert_eq!(addresses, vec![0, 1, 7, 12]);
    // 1 + 6 + 5 + 16 pixels, all in one row.
    assert_eq!(sheet.width(), 28);
    assert_eq!(sheet.height(), 1);
}

#[test]
fn entries_do_not_overlap() {
    let mut builder = SpriteSheetBuilder::new(16);
    for side in 1..8u32 {
        builder.add(sprite(side, 8 - side, (0, 0), side as u8));
    }
    let sheet = builder.build();
    let table = sheet.table();
    let mut total: u32 = 0;
    for (i, entry) in table.iter().enumerate() {
        assert_eq!(entry.address, total);
        total += entry.dimensions.0 * entry.dimensions.1;
        for later in &table[i + 1..] {
            assert!(entry.address + entry.dimensions.0 * entry.dimensions.1 <= later.address);
        }
    }
    assert_eq!(total, 1 + 7 + 12 + 15 + 16 + 15 + 12 + 7);
    assert!(sheet.width() * sheet.height() >= total);
}

#[test]
fn entries_keep_dimensions_and_offset() {
    let mut builder = SpriteSheetBuilder::new(8192);
    let first = builder.add(sprite(2, 3, (-7, 9), 1));
    let second = builder.add(sprite(5, 1, (i32::MIN, i32::MAX), 2));
    let sheet = builder.build();
    assert_eq!(
        sheet.entry(first),
        Some(SpriteEntry { address: 1, dimensions: (2, 3), offset: (-7, 9) })
    );
    assert_eq!(
        sheet.entry(second),
        Some(SpriteEntry { address: 7, dimensions: (5, 1), offset: (i32::MIN, i32::MAX) })
    );
}

#[test]
fn entry_of_another_sheet_s_handle_is_none() {
    let mut large = SpriteSheetBuilder::new(8192);
    large.add(sprite(1, 1, (0, 0), 1));
    let beyond = large.add(sprite(1, 1, (0, 0), 1));
    let mut small = SpriteSheetBuilder::new(8192);
    let within = small.add(sprite(1, 1, (0, 0), 1));
    let sheet = small.build();
    assert_eq!(sheet.len(), 2);
    assert!(sheet.entry(within).is_some());
    assert_eq!(sheet.entry(beyond), None);
}

#[test]
fn texels_follow_the_order_of_registration() {
    let mut builder = SpriteSheetBuilder::new(8192);
    builder.add(SpriteData::new((1, 2), (0, 0), vec![1, 2, 3, 4, 5, 6, 7, 8]).unwrap());
    builder.add(SpriteData::new((1, 1), (0, 0), vec![9, 10, 11, 12]).unwrap());
    let sheet = builder.build();
    assert_eq!(
        sheet.texels(),
        &[0u8, 0, 0, 0, 1, 2, 3, 4, 5, 6, 7, 8, 9, 10, 11, 12][..]
    );
}

#[test]
fn build_keeps_one_row_while_the_pixels_fit() {
    let mut builder = SpriteSheetBuilder::new(8);
    builder.add(sprite(2, 3, (0, 0), 1));
    let sheet = builder.build();
    // P = 7 < W = 8: width 7, height 1 + 7 / 8 = 1, no padding.
    assert_eq!((sheet.width(), sheet.height()), (7, 1));
    assert_eq!(sheet.texels().len(), 7 * 4);
}

#[test]
fn build_adds_a_row_when_the_pixels_fill_the_width() {
    let mut builder = SpriteSheetBuilder::new(7);
    builder.add(sprite(2, 3, (0, 0), 1));
    let sheet = builder.build();
    // P = 7 = W: width 7, height 1 + 7 / 7 = 2, a whole row of padding.
    assert_eq!((sheet.width(), sheet.height()), (7, 2));
    assert_eq!(sheet.texels().len(), 14 * 4);
    assert!(sheet.texels()[28..].iter().all(|byte| *byte == 0));
    assert!(sheet.texels()[4..28].iter().all(|byte| *byte == 1));
}

#[test]
fn build_wraps_at_the_maximum_width() {
    let mut builder = SpriteSheetBuilder::new(4);
    builder.add(sprite(3, 3, (0, 0), 5));
    let sheet = builder.build();
    // P = 10, W = 4: width 4, height 1 + 10 / 4 = 3, padding 2 pixels.
    assert_eq!((sheet.width(), sheet.height()), (4, 3));
    assert_eq!(sheet.texels().len(), 12 * 4);
    assert_eq!(&sheet.texels()[40..], &[0u8; 8][..]);
    assert_eq!(&sheet.texels()[4..40], &[5u8; 36][..]);
}

#[test]
fn build_with_width_one_is_a_column() {
    let mut builder = SpriteSheetBuilder::new(1);
    builder.add(sprite(1, 2, (0, 0), 5));
    let sheet = builder.build();
    assert_eq!((sheet.width(), sheet.height()), (1, 4));
    assert_eq!(sheet.texels().len(), 16);
}

#[test]
fn can_add_tells_whether_the_pixels_fit() {
    let builder = SpriteSheetBuilder::new(8192);
    assert!(builder.can_add(&sprite(640, 480, (0, 0), 0)));
    assert!(builder.can_add_animation(&vec![sprite(64, 64, (0, 0), 0), sprite(8, 8, (0, 0), 0)]));
    assert!(builder.can_add_animation(&Vec::new()));
}
