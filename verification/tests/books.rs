use boundbook::types::BBF_VARIABLE_REAM_SIZE_FLAG;
use boundbook::{BbfBuilder, BbfReader};

fn image(seed: u8, len: usize) -> Vec<u8> {
    (0..len).map(|i| seed.wrapping_mul(31).wrapping_add((i % 251) as u8)).collect()
}

#[test]
fn test_round_trip_of_a_whole_book() {
    let a = image(1, 5000);
    let b = image(2, 70_000);
    let c = image(3, 17);
    let mut builder = BbfBuilder::with_defaults().unwrap();
    builder.add_page(&a, "png", 1, 10).unwrap();
    builder.add_page(&b, "jpg", 2, 20).unwrap();
    builder.add_page(&a, "png", 3, 30).unwrap();
    builder.add_page(&c, "webp", 4, 40).unwrap();
    builder.add_section("Part I", 0, None);
    builder.add_section("Chapter 1", 0, Some("Part I"));
    builder.add_section("Chapter 2", 2, Some("Part I"));
    builder.add_metadata("Title", "A Book", None);
    builder.add_metadata("Author", "Somebody", None);
    builder.add_metadata("Note", "Chapter 1", Some("Chapter 1"));
    let file = builder.finalize().unwrap();

    let reader = BbfReader::open(&file).unwrap();
    assert_eq!(reader.version(), 3);
    assert_eq!(reader.page_count(), 4);
    assert_eq!(reader.asset_count(), 3);

    let assets = reader.assets().unwrap();
    let pages = reader.pages().unwrap();
    let contents: [&[u8]; 4] = [&a, &b, &a, &c];
    let page_flags = [1, 2, 3, 4];
    for (i, page) in pages.iter().enumerate() {
        assert_eq!(page.flags, page_flags[i]);
        let asset = &assets[page.asset_index as usize];
        assert_eq!(reader.get_asset_data(asset).unwrap(), contents[i]);
        assert_eq!(asset.file_size as usize, contents[i].len());
    }
    assert_eq!(assets[0].flags, 10);
    assert_eq!(assets[1].flags, 20);
    assert_eq!(assets[2].flags, 40);

    let sections = reader.sections().unwrap();
    assert_eq!(sections.len(), 3);
    let titles = ["Part I", "Chapter 1", "Chapter 2"];
    let starts = [0, 0, 2];
    for (i, section) in sections.iter().enumerate() {
        assert_eq!(reader.get_string(section.section_title_offset).unwrap(), titles[i]);
        assert_eq!(section.section_start_index, starts[i]);
    }
    assert_eq!(sections[0].section_parent_offset, u64::MAX);
    assert_eq!(reader.get_string(sections[1].section_parent_offset).unwrap(), "Part I");
    assert_eq!(reader.get_string(sections[2].section_parent_offset).unwrap(), "Part I");

    let metadata = reader.metadata().unwrap();
    assert_eq!(metadata.len(), 3);
    assert_eq!(reader.get_string(metadata[0].key_offset).unwrap(), "Title");
    assert_eq!(reader.get_string(metadata[0].value_offset).unwrap(), "A Book");
    assert_eq!(reader.get_string(metadata[1].key_offset).unwrap(), "Author");
    assert_eq!(reader.get_string(metadata[1].value_offset).unwrap(), "Somebody");
    assert_eq!(reader.get_string(metadata[2].value_offset).unwrap(), "Chapter 1");
    assert_eq!(reader.get_string(metadata[2].parent_offset).unwrap(), "Chapter 1");

    assert!(reader.verify_integrity().unwrap());
    for i in 0..assets.len() {
        assert!(reader.verify_asset(i).unwrap());
    }
}

#[test]
fn test_same_content_is_stored_once() {
    let mut builder = BbfBuilder::with_defaults().unwrap();
    builder.add_page(b"same bytes", "png", 0, 0).unwrap();
    builder.add_page(b"same bytes", "jpg", 0, 0).unwrap();
    assert_eq!(builder.asset_count(), 1);
    assert_eq!(builder.page_count(), 2);

    let mut builder = BbfBuilder::with_defaults().unwrap();
    builder.add_page(b"same bytes", "png", 0, 0).unwrap();
    builder.add_page(b"other bytes", "png", 0, 0).unwrap();
    assert_eq!(builder.asset_count(), 2);
    assert_eq!(builder.page_count(), 2);
}

#[test]
fn test_deduplicated_page_keeps_the_first_media_type_and_writes_nothing() {
    let mut builder = BbfBuilder::with_defaults().unwrap();
    builder.add_page(b"same bytes", "png", 0, 0).unwrap();
    let once = {
        let mut single = BbfBuilder::with_defaults().unwrap();
        single.add_page(b"same bytes", "png", 0, 0).unwrap();
        single.finalize().unwrap()
    };
    builder.add_page(b"same bytes", "jpg", 0, 9).unwrap();
    let file = builder.finalize().unwrap();
    // One more page entry, and nothing else.
    assert_eq!(file.len(), once.len() + 16);
    let reader = BbfReader::open(&file).unwrap();
    let assets = reader.assets().unwrap();
    assert_eq!(assets.len(), 1);
    assert_eq!(assets[0].media_type, 0x02);
    assert_eq!(assets[0].flags, 0);
}

#[test]
fn test_equal_strings_share_one_offset() {
    let mut builder = BbfBuilder::with_defaults().unwrap();
    builder.add_section("Chapter 1", 0, None);
    builder.add_metadata("title", "Chapter 1", None);
    let file = builder.finalize().unwrap();
    let reader = BbfReader::open(&file).unwrap();
    let sections = reader.sections().unwrap();
    let metadata = reader.metadata().unwrap();
    assert_eq!(sections[0].section_title_offset, metadata[0].value_offset);
    assert_eq!(sections[0].section_title_offset, 0);
    assert_eq!(metadata[0].key_offset, 10);
    // "Chapter 1\0title\0": the string is in the pool once.
    assert_eq!(reader.footer().string_pool_size, 16);
}

#[test]
fn test_every_asset_is_aligned() {
    for (alignment, ream, flags) in
        [(12u8, 16u8, BBF_VARIABLE_REAM_SIZE_FLAG), (12, 16, 0), (4, 6, 2), (0, 3, 2), (16, 0, 2)]
    {
        let mut builder = BbfBuilder::new(alignment, ream, flags).unwrap();
        for (i, len) in [1usize, 7, 8, 9, 63, 64, 65, 100, 70_000, 3].into_iter().enumerate() {
            builder.add_page(&image(i as u8, len), "png", 0, 0).unwrap();
        }
        let file = builder.finalize().unwrap();
        let reader = BbfReader::open(&file).unwrap();
        let header = *reader.header();
        assert_eq!(header.alignment, alignment);
        assert_eq!(header.ream_size, ream);
        assert_eq!(header.flags, flags);
        for asset in reader.assets().unwrap() {
            let small = flags & BBF_VARIABLE_REAM_SIZE_FLAG != 0
                && asset.file_size < (1u64 << header.ream_size);
            let effective = if small { 8 } else { 1u64 << header.alignment };
            assert_eq!(asset.file_offset % effective, 0);
        }
        assert!(reader.verify_integrity().unwrap());
    }
}

#[test]
fn test_flipping_an_asset_byte_is_detected() {
    let mut builder = BbfBuilder::with_defaults().unwrap();
    builder.add_page(&image(1, 300), "png", 0, 0).unwrap();
    builder.add_page(&image(2, 300), "png", 0, 0).unwrap();
    let file = builder.finalize().unwrap();
    let (first, second) = {
        let reader = BbfReader::open(&file).unwrap();
        let assets = reader.assets().unwrap();
        (assets[0], assets[1])
    };
    for at in [0u64, 150, 299] {
        let mut changed = file.clone();
        changed[(second.file_offset + at) as usize] ^= 0x01;
        let reader = BbfReader::open(&changed).unwrap();
        assert_eq!(reader.verify_asset(1).unwrap(), false);
        assert_eq!(reader.verify_asset(0).unwrap(), true);
        assert_eq!(reader.verify_integrity().unwrap(), false);
    }
    // A byte of the padding between the two assets belongs to no asset and
    // to no part of the index: no check sees it.
    let gap = (first.file_offset + first.file_size) as usize;
    assert!(gap < second.file_offset as usize);
    let mut changed = file.clone();
    changed[gap] ^= 0xFF;
    let reader = BbfReader::open(&changed).unwrap();
    assert_eq!(reader.verify_asset(0).unwrap(), true);
    assert_eq!(reader.verify_asset(1).unwrap(), true);
    assert_eq!(reader.verify_integrity().unwrap(), true);
}

#[test]
fn test_flipping_an_index_byte_fails_the_whole_file_check_only() {
    let mut builder = BbfBuilder::with_defaults().unwrap();
    builder.add_page(&image(1, 300), "png", 7, 0).unwrap();
    builder.add_section("Chapter 1", 0, None);
    let file = builder.finalize().unwrap();
    let (page_flags_at, pool_at) = {
        let reader = BbfReader::open(&file).unwrap();
        (reader.footer().page_offset as usize + 8, reader.footer().string_pool_offset as usize)
    };
    for at in [page_flags_at, pool_at] {
        let mut changed = file.clone();
        changed[at] ^= 0x20;
        let reader = BbfReader::open(&changed).unwrap();
        assert_eq!(reader.verify_asset(0).unwrap(), true);
        assert_eq!(reader.verify_integrity().unwrap(), false);
    }
}

#[test]
fn test_three_pages_share_two_assets() {
    let mut builder = BbfBuilder::with_defaults().unwrap();
    let first = image(1, 2000);
    let second = image(2, 2000);
    builder.add_page(&first, "png", 0, 0).unwrap();
    builder.add_page(&second, "png", 0, 0).unwrap();
    builder.add_page(&first, "png", 0, 0).unwrap();
    let file = builder.finalize().unwrap();
    let reader = BbfReader::open(&file).unwrap();
    assert_eq!(reader.asset_count(), 2);
    assert_eq!(reader.page_count(), 3);
    let pages = reader.pages().unwrap();
    assert_eq!(pages[0].asset_index, pages[2].asset_index);
    assert_ne!(pages[0].asset_index, pages[1].asset_index);
}

#[test]
fn test_section_nested_in_another() {
    let mut builder = BbfBuilder::with_defaults().unwrap();
    builder.add_section("Ch1", 0, None);
    builder.add_section("Ch1a", 0, Some("Ch1"));
    let file = builder.finalize().unwrap();
    let reader = BbfReader::open(&file).unwrap();
    let sections = reader.sections().unwrap();
    assert_eq!(reader.get_string(sections[1].section_parent_offset).unwrap(), "Ch1");
    assert_eq!(reader.get_string(sections[1].section_title_offset).unwrap(), "Ch1a");
    assert_eq!(sections[1].section_parent_offset, sections[0].section_title_offset);
}

#[test]
fn test_book_without_pages_opens_and_is_intact() {
    let file = BbfBuilder::with_defaults().unwrap().finalize().unwrap();
    let reader = BbfReader::open(&file).unwrap();
    assert_eq!(reader.page_count(), 0);
    assert_eq!(reader.asset_count(), 0);
    assert_eq!(reader.verify_integrity().unwrap(), true);
    assert!(reader.assets().unwrap().is_empty());
    assert!(reader.pages().unwrap().is_empty());
    assert!(reader.sections().unwrap().is_empty());
    assert!(reader.metadata().unwrap().is_empty());
}

#[test]
fn test_a_parent_that_was_never_a_title_is_interned_all_the_same() {
    let mut builder = BbfBuilder::with_defaults().unwrap();
    builder.add_section("Chapter 2", 10, Some("Part 1"));
    let file = builder.finalize().unwrap();
    let reader = BbfReader::open(&file).unwrap();
    let sections = reader.sections().unwrap();
    assert_eq!(sections[0].section_start_index, 10);
    assert_eq!(reader.get_string(sections[0].section_parent_offset).unwrap(), "Part 1");
    assert_eq!(reader.page_count(), 0);
}
