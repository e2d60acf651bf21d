use boundbook::types::{BBF_PETRIFICATION_FLAG, BBF_VARIABLE_REAM_SIZE_FLAG};
use boundbook::{BbfBuilder, BbfError, BbfReader, MediaType};

fn create_test_image(size: usize) -> Vec<u8> {
    vec![0u8; size]
}

#[test]
fn test_builder_creates_valid_file() {
    let builder = BbfBuilder::with_defaults().unwrap();
    assert!(builder.asset_count() == 0);
    assert!(builder.page_count() == 0);
}

#[test]
fn test_builder_rejects_excessive_alignment() {
    let result = BbfBuilder::new(17, 12, 0);
    assert!(result.is_err());
}

#[test]
fn test_builder_rejects_excessive_ream_size() {
    let result = BbfBuilder::new(12, 17, 0);
    assert!(result.is_err());
}

#[test]
fn test_hash_calculation_128() {
    let data1 = b"test data";
    let data2 = b"test data";
    let data3 = b"different data";

    let hash1 = BbfBuilder::calculate_hash_128(data1);
    let hash2 = BbfBuilder::calculate_hash_128(data2);
    let hash3 = BbfBuilder::calculate_hash_128(data3);

    assert!(hash1 == hash2);
    assert!(hash1 != hash3);
}

#[test]
fn test_hash_calculation_64() {
    let data1 = b"test data";
    let data2 = b"test data";
    let data3 = b"different data";

    let hash1 = BbfBuilder::calculate_hash_64(data1);
    let hash2 = BbfBuilder::calculate_hash_64(data2);
    let hash3 = BbfBuilder::calculate_hash_64(data3);

    assert!(hash1 == hash2);
    assert!(hash1 != hash3);
}

#[test]
fn test_add_single_page() {
    let test_image = create_test_image(1024);
    let mut builder = BbfBuilder::with_defaults().unwrap();

    builder.add_page(&test_image, "png", 0, 0).unwrap();

    assert!(builder.page_count() == 1);
    assert!(builder.asset_count() == 1);
}

#[test]
fn test_asset_deduplication() {
    let test_image = create_test_image(1024);
    let mut builder = BbfBuilder::with_defaults().unwrap();

    builder.add_page(&test_image, "png", 0, 0).unwrap();
    builder.add_page(&test_image, "png", 0, 0).unwrap();

    assert!(builder.page_count() == 2);
    assert!(builder.asset_count() == 1);
}

#[test]
fn test_multiple_unique_assets() {
    let image1 = create_test_image(1024);
    let image2 = create_test_image(2048);
    let mut builder = BbfBuilder::with_defaults().unwrap();

    builder.add_page(&image1, "png", 0, 0).unwrap();
    builder.add_page(&image2, "jpg", 0, 0).unwrap();

    assert!(builder.page_count() == 2);
    assert!(builder.asset_count() == 2);
}

#[test]
fn test_string_pooling() {
    let mut builder = BbfBuilder::with_defaults().unwrap();

    let offset1 = builder.get_or_add_string("Chapter 1");
    let offset2 = builder.get_or_add_string("Chapter 1");
    let offset3 = builder.get_or_add_string("Chapter 2");

    assert!(offset1 == offset2);
    assert!(offset1 != offset3);
}

#[test]
fn test_add_section() {
    let mut builder = BbfBuilder::with_defaults().unwrap();

    builder.add_section("Chapter 1", 0, None);
    assert!(builder.section_count() == 1);

    builder.add_section("Chapter 2", 10, Some("Part 1"));
    assert!(builder.section_count() == 2);
}

#[test]
fn test_add_metadata() {
    let mut builder = BbfBuilder::with_defaults().unwrap();

    builder.add_metadata("author", "Test Author", None);
    assert!(builder.metadata_count() == 1);

    builder.add_metadata("title", "Test Book", None);
    assert!(builder.metadata_count() == 2);
}

#[test]
fn test_media_type_from_extension() {
    assert!(MediaType::from_extension("png") == MediaType::Png);
    assert!(MediaType::from_extension(".png") == MediaType::Png);
    assert!(MediaType::from_extension("PNG") == MediaType::Png);
    assert!(MediaType::from_extension("jpg") == MediaType::Jpg);
    assert!(MediaType::from_extension("jpeg") == MediaType::Jpg);
    assert!(MediaType::from_extension("avif") == MediaType::Avif);
    assert!(MediaType::from_extension("webp") == MediaType::Webp);
    assert!(MediaType::from_extension("unknown") == MediaType::Unknown);
}

#[test]
fn test_finalize_creates_valid_file() {
    let test_image = create_test_image(1024);
    let mut builder = BbfBuilder::with_defaults().unwrap();

    builder.add_page(&test_image, "png", 0, 0).unwrap();
    builder.add_section("Chapter 1", 0, None);
    builder.add_metadata("title", "Test Book", None);
    let file = builder.finalize().unwrap();

    assert!(file.len() > 0);
}

#[test]
fn test_variable_ream_size_alignment() {
    let small_image = create_test_image(100);
    let large_image = create_test_image(100000);

    let mut builder = BbfBuilder::new(12, 10, BBF_VARIABLE_REAM_SIZE_FLAG).unwrap();

    builder.add_page(&small_image, "png", 0, 0).unwrap();
    builder.add_page(&large_image, "jpg", 0, 0).unwrap();

    assert!(builder.page_count() == 2);
    assert!(builder.asset_count() == 2);
}

#[test]
fn test_finalize_empty_book() {
    let builder = BbfBuilder::with_defaults().unwrap();
    let file = builder.finalize().unwrap();

    let reader = BbfReader::open(&file).unwrap();
    assert!(reader.page_count() == 0);
    assert!(reader.asset_count() == 0);
}

#[test]
fn test_builder_boundary_alignment_values() {
    let result0 = BbfBuilder::new(0, 0, 0);
    assert!(result0.is_ok());

    let result16 = BbfBuilder::new(16, 16, 0);
    assert!(result16.is_ok());
}

#[test]
fn test_string_pool_null_termination() {
    let test_image = create_test_image(512);
    let mut builder = BbfBuilder::with_defaults().unwrap();

    builder.add_page(&test_image, "png", 0, 0).unwrap();
    builder.add_section("Alpha", 0, None);
    builder.add_section("Beta", 0, None);
    builder.add_metadata("key1", "val1", None);
    let file = builder.finalize().unwrap();

    let reader = BbfReader::open(&file).unwrap();
    let sections = reader.sections().unwrap();
    let s0 = reader.get_string(sections[0].section_title_offset).unwrap();
    let s1 = reader.get_string(sections[1].section_title_offset).unwrap();
    assert!(s0 == "Alpha");
    assert!(s1 == "Beta");

    let meta = reader.metadata().unwrap();
    let k = reader.get_string(meta[0].key_offset).unwrap();
    let v = reader.get_string(meta[0].value_offset).unwrap();
    assert!(k == "key1");
    assert!(v == "val1");
}

#[test]
fn test_petrification_flag_preserved() {
    let test_image = create_test_image(256);
    let mut builder = BbfBuilder::new(12, 16, BBF_PETRIFICATION_FLAG).unwrap();

    builder.add_page(&test_image, "png", 0, 0).unwrap();
    let file = builder.finalize().unwrap();

    let reader = BbfReader::open(&file).unwrap();
    let header = reader.header();
    assert!(header.flags & BBF_PETRIFICATION_FLAG != 0);
}

#[test]
fn test_excessive_alignment_is_alignment_too_large() {
    match BbfBuilder::new(17, 12, 0) {
        Err(BbfError::AlignmentTooLarge { exponent }) => assert_eq!(exponent, 17),
        other => panic!("unexpected result: {:?}", other.map(|_| ())),
    }
    match BbfBuilder::new(200, 200, 0) {
        Err(BbfError::AlignmentTooLarge { exponent }) => assert_eq!(exponent, 200),
        other => panic!("unexpected result: {:?}", other.map(|_| ())),
    }
}

#[test]
fn test_excessive_ream_size_is_other_with_message() {
    match BbfBuilder::new(16, 17, 0) {
        Err(BbfError::Other { message }) => {
            assert_eq!(message, "Ream size exponent must not exceed 16 (64KB)")
        }
        other => panic!("unexpected result: {:?}", other.map(|_| ())),
    }
}

#[test]
fn test_hash_known_values_of_empty_input() {
    assert_eq!(BbfBuilder::calculate_hash_64(b""), 0x2D06_8005_38D3_94C2);
    assert_eq!(
        BbfBuilder::calculate_hash_128(b""),
        0x99AA_06D3_0147_98D8_6001_C324_468D_497F
    );
}

#[test]
fn test_assets_are_placed_at_their_alignment() {
    let mut builder = BbfBuilder::new(12, 10, BBF_VARIABLE_REAM_SIZE_FLAG).unwrap();
    builder.add_page(&vec![1u8; 100], "png", 0, 0).unwrap();
    builder.add_page(&vec![2u8; 100000], "jpg", 0, 0).unwrap();
    builder.add_page(&vec![3u8; 1023], "gif", 0, 0).unwrap();
    builder.add_page(&vec![4u8; 1024], "bmp", 0, 0).unwrap();
    let file = builder.finalize().unwrap();

    let reader = BbfReader::open(&file).unwrap();
    let assets = reader.assets().unwrap();
    assert_eq!(assets.len(), 4);
    // 100 bytes, below the 1024-byte threshold: 8-byte alignment, right after the header.
    assert_eq!(assets[0].file_offset, 64);
    // 100000 bytes: 4096-byte alignment.
    assert_eq!(assets[1].file_offset, 4096);
    // 1023 bytes: 8-byte alignment after 4096 + 100000 = 104096.
    assert_eq!(assets[2].file_offset, 104096);
    // 1024 bytes, not below the threshold: next multiple of 4096 after 105119.
    assert_eq!(assets[3].file_offset, 106496);
    assert_eq!(assets[0].media_type, MediaType::Png.as_u8());
    assert_eq!(assets[1].media_type, MediaType::Jpg.as_u8());
    assert_eq!(assets[2].media_type, MediaType::Gif.as_u8());
    assert_eq!(assets[3].media_type, MediaType::Bmp.as_u8());
    // The padding is zero bytes.
    assert!(file[164..4096].iter().all(|&b| b == 0));
}

#[test]
fn test_without_packing_small_assets_use_the_main_alignment() {
    let mut builder = BbfBuilder::new(12, 16, 0).unwrap();
    builder.add_page(&vec![1u8; 100], "png", 0, 0).unwrap();
    builder.add_page(&vec![2u8; 10], "png", 0, 0).unwrap();
    let file = builder.finalize().unwrap();
    let reader = BbfReader::open(&file).unwrap();
    let assets = reader.assets().unwrap();
    assert_eq!(assets[0].file_offset, 4096);
    assert_eq!(assets[1].file_offset, 8192);
}

#[test]
fn test_alignment_exponent_zero_places_assets_back_to_back() {
    let mut builder = BbfBuilder::new(0, 0, 0).unwrap();
    builder.add_page(&vec![1u8; 3], "png", 0, 0).unwrap();
    builder.add_page(&vec![2u8; 5], "png", 0, 0).unwrap();
    let file = builder.finalize().unwrap();
    let reader = BbfReader::open(&file).unwrap();
    let assets = reader.assets().unwrap();
    assert_eq!(assets[0].file_offset, 64);
    assert_eq!(assets[1].file_offset, 67);
}

#[test]
fn test_add_page_with_takes_the_hash_as_given() {
    let mut builder = BbfBuilder::with_defaults().unwrap();
    builder.add_page_with(&[1, 2, 3], 42, MediaType::Png, 5, 6).unwrap();
    builder.add_page_with(&[9, 9, 9, 9], 42, MediaType::Jpg, 7, 8).unwrap();
    builder.add_page_with(&[1, 2, 3], 43, MediaType::Gif, 0, 0).unwrap();
    assert_eq!(builder.asset_count(), 2);
    assert_eq!(builder.page_count(), 3);
    let file = builder.finalize().unwrap();
    let reader = BbfReader::open(&file).unwrap();
    let assets = reader.assets().unwrap();
    let pages = reader.pages().unwrap();
    assert_eq!(assets[0].asset_hash, [42, 0]);
    assert_eq!(assets[0].file_size, 3);
    assert_eq!(assets[0].flags, 6);
    assert_eq!(assets[1].asset_hash, [43, 0]);
    assert_eq!(pages[0].asset_index, 0);
    assert_eq!(pages[0].flags, 5);
    assert_eq!(pages[1].asset_index, 0);
    assert_eq!(pages[1].flags, 7);
    assert_eq!(pages[2].asset_index, 1);
    assert_eq!(reader.get_asset_data(&assets[0]).unwrap(), &[1, 2, 3]);
}

#[test]
fn test_asset_hash_is_stored_low_word_first() {
    let data = b"hash me";
    let hash = BbfBuilder::calculate_hash_128(data);
    let mut builder = BbfBuilder::with_defaults().unwrap();
    builder.add_page(data, "png", 0, 0).unwrap();
    let file = builder.finalize().unwrap();
    let reader = BbfReader::open(&file).unwrap();
    let assets = reader.assets().unwrap();
    assert_eq!(assets[0].asset_hash[0], hash as u64);
    assert_eq!(assets[0].asset_hash[1], (hash >> 64) as u64);
}

#[test]
fn test_string_pool_offsets_are_exact() {
    let mut builder = BbfBuilder::with_defaults().unwrap();
    assert_eq!(builder.get_or_add_string("Chapter 1"), 0);
    assert_eq!(builder.get_or_add_string("Ch2"), 10);
    assert_eq!(builder.get_or_add_string(""), 14);
    assert_eq!(builder.get_or_add_string("é"), 15);
    assert_eq!(builder.get_or_add_string("x"), 18);
    assert_eq!(builder.get_or_add_string("Ch2"), 10);
    assert_eq!(builder.get_or_add_string(""), 14);
}

#[test]
fn test_section_without_parent_stores_the_sentinel() {
    let mut builder = BbfBuilder::with_defaults().unwrap();
    builder.add_section("Ch1", 3, None);
    builder.add_metadata("k", "v", None);
    builder.add_metadata("k2", "v2", Some("Ch1"));
    let file = builder.finalize().unwrap();
    let reader = BbfReader::open(&file).unwrap();
    let sections = reader.sections().unwrap();
    let metadata = reader.metadata().unwrap();
    assert_eq!(sections[0].section_start_index, 3);
    assert_eq!(sections[0].section_parent_offset, u64::MAX);
    assert_eq!(metadata[0].parent_offset, u64::MAX);
    assert_eq!(metadata[1].parent_offset, sections[0].section_title_offset);
}

#[test]
fn test_finished_file_layout_of_an_empty_book() {
    let file = BbfBuilder::new(12, 16, BBF_PETRIFICATION_FLAG).unwrap().finalize().unwrap();
    assert_eq!(file.len(), 64 + 256);
    let reader = BbfReader::open(&file).unwrap();
    let header = reader.header();
    let footer = reader.footer();
    assert_eq!(&header.magic, b"BBF3");
    assert_eq!(header.version, 3);
    assert_eq!(header.header_len, 64);
    assert_eq!(header.flags, BBF_PETRIFICATION_FLAG);
    assert_eq!(header.alignment, 12);
    assert_eq!(header.ream_size, 16);
    assert_eq!(header.footer_offset, 64);
    assert_eq!(footer.asset_offset, 64);
    assert_eq!(footer.page_offset, 64);
    assert_eq!(footer.section_offset, 64);
    assert_eq!(footer.meta_offset, 64);
    assert_eq!(footer.string_pool_offset, 64);
    assert_eq!(footer.string_pool_size, 0);
    assert_eq!(footer.expansion_offset, 0);
    assert_eq!(footer.expansion_count, 0);
    assert_eq!(footer.footer_hash, BbfBuilder::calculate_hash_64(b""));
    assert!(reader.warnings().is_empty());
}

#[test]
fn test_finished_file_table_offsets_are_exact() {
    let mut builder = BbfBuilder::with_defaults().unwrap();
    builder.add_page(&vec![7u8; 10], "png", 0, 0).unwrap();
    builder.add_page(&vec![8u8; 10], "png", 0, 0).unwrap();
    builder.add_page(&vec![7u8; 10], "png", 0, 0).unwrap();
    builder.add_section("A", 0, None);
    builder.add_metadata("k", "v", None);
    let file = builder.finalize().unwrap();
    let reader = BbfReader::open(&file).unwrap();
    let footer = reader.footer();
    // Assets at 64..74 and 80..90: the tables start at 90.
    assert_eq!(footer.asset_offset, 90);
    assert_eq!(footer.asset_count, 2);
    assert_eq!(footer.page_offset, 90 + 2 * 48);
    assert_eq!(footer.page_count, 3);
    assert_eq!(footer.section_offset, 90 + 2 * 48 + 3 * 16);
    assert_eq!(footer.section_count, 1);
    assert_eq!(footer.meta_offset, 90 + 2 * 48 + 3 * 16 + 32);
    assert_eq!(footer.meta_count, 1);
    assert_eq!(footer.string_pool_offset, 90 + 2 * 48 + 3 * 16 + 32 + 32);
    assert_eq!(footer.string_pool_size, 6);
    assert_eq!(reader.header().footer_offset, 90 + 2 * 48 + 3 * 16 + 32 + 32 + 6);
    assert_eq!(file.len() as u64, reader.header().footer_offset + 256);
    let index = &file[90..reader.header().footer_offset as usize];
    assert_eq!(footer.footer_hash, BbfBuilder::calculate_hash_64(index));
    assert_eq!(&file[footer.string_pool_offset as usize..][..6], b"A\0k\0v\0");
}

fn sample_book(builder: &mut BbfBuilder, sink: &mut dyn FnMut(&mut BbfBuilder)) {
    builder.add_page(&vec![1u8; 5000], "png", 1, 0).unwrap();
    sink(builder);
    builder.add_section("Chapter 1", 0, None);
    builder.add_page(&vec![2u8; 17], "jpg", 2, 0).unwrap();
    builder.add_page(&vec![1u8; 5000], "png", 3, 0).unwrap();
    sink(builder);
    builder.add_page(&vec![3u8; 70_000], "gif", 4, 0).unwrap();
    builder.add_metadata("title", "Streamed", Some("Chapter 1"));
    sink(builder);
}

#[test]
fn test_streamed_file_is_the_file_built_at_once() {
    let mut at_once = BbfBuilder::with_defaults().unwrap();
    sample_book(&mut at_once, &mut |_| {});
    let expected = at_once.finalize().unwrap();

    // Taking out what was written after every step.
    let mut file: Vec<u8> = Vec::new();
    let mut streamed = BbfBuilder::with_defaults().unwrap();
    file.extend(streamed.take_written());
    assert_eq!(file.len(), 64);
    sample_book(&mut streamed, &mut |b| file.extend(b.take_written()));
    assert!(streamed.take_written().is_empty());
    let (header, rest) = streamed.finalize_streamed().unwrap();
    file.extend(rest);
    assert_eq!(header.len(), 64);
    // The placeholder: the signature, the version, the header's length, and zeros.
    assert_eq!(&file[..8], b"BBF3\x03\x00\x40\x00");
    assert!(file[8..64].iter().all(|&b| b == 0));
    file[..64].copy_from_slice(&header);
    assert_eq!(file, expected);

    // Taking out nothing, and finishing as a stream all the same.
    let mut late = BbfBuilder::with_defaults().unwrap();
    sample_book(&mut late, &mut |_| {});
    let (header, rest) = late.finalize_streamed().unwrap();
    let mut file = header;
    file.extend(rest);
    assert_eq!(file, expected);

    let reader = BbfReader::open(&expected).unwrap();
    assert!(reader.verify_integrity().unwrap());
    assert_eq!(reader.page_count(), 4);
    assert_eq!(reader.asset_count(), 3);
}

#[test]
fn test_finalize_after_taking_out_is_refused() {
    let mut builder = BbfBuilder::with_defaults().unwrap();
    builder.add_page(b"abc", "png", 0, 0).unwrap();
    let taken = builder.take_written();
    assert_eq!(taken.len(), 64 + 3);
    match builder.finalize() {
        Err(BbfError::Other { message }) => {
            assert_eq!(message, "Part of the file was taken out before it was finished")
        }
        other => panic!("unexpected result: {:?}", other),
    }
}

#[test]
fn test_offsets_count_what_was_taken_out() {
    let mut builder = BbfBuilder::new(4, 0, 0).unwrap();
    builder.add_page(&[7u8; 10], "png", 0, 0).unwrap();
    let first = builder.take_written();
    assert_eq!(first.len(), 74);
    builder.add_page(&[8u8; 10], "png", 0, 0).unwrap();
    let second = builder.take_written();
    // Six bytes of padding up to offset 80, then the ten bytes.
    assert_eq!(second.len(), 16);
    assert_eq!(&second[..6], &[0u8; 6]);
    let (header, rest) = builder.finalize_streamed().unwrap();
    let mut file = first;
    file.extend(second);
    file.extend(rest);
    file[..64].copy_from_slice(&header);
    let reader = BbfReader::open(&file).unwrap();
    let assets = reader.assets().unwrap();
    assert_eq!(assets[0].file_offset, 64);
    assert_eq!(assets[1].file_offset, 80);
    assert_eq!(reader.footer().asset_offset, 90);
    assert!(reader.verify_integrity().unwrap());
}
