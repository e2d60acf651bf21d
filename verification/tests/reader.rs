use boundbook::types::{MAGIC, VERSION};
use boundbook::{BbfBuilder, BbfError, BbfReader};

fn create_test_bbf_file() -> Vec<u8> {
    let mut builder = BbfBuilder::with_defaults().unwrap();
    builder.add_page(&vec![1u8; 1024], "", 0, 0).unwrap();
    builder.add_section("Chapter 1", 0, None);
    builder.add_metadata("title", "Test Book", None);
    builder.finalize().unwrap()
}

#[test]
fn test_reader_opens_valid_file() {
    let test_file = create_test_bbf_file();
    let reader = BbfReader::open(&test_file).unwrap();

    assert!(reader.version() == VERSION);
    assert!(reader.page_count() == 1);
    assert!(reader.asset_count() == 1);
}

#[test]
fn test_reader_rejects_invalid_magic() {
    let mut temp_file = Vec::new();
    temp_file.extend_from_slice(b"BADF");
    temp_file.extend_from_slice(&[0u8; 100]);
    // The length is checked before the signature: the file is made long
    // enough for a header and a footer.
    temp_file.extend_from_slice(&[0u8; 216]);

    let result = BbfReader::open(&temp_file);
    assert!(result.is_err());
    assert!(matches!(result.unwrap_err(), BbfError::InvalidMagic));
}

#[test]
fn test_reader_rejects_too_small_file() {
    let mut temp_file = Vec::new();
    temp_file.extend_from_slice(&MAGIC);

    let result = BbfReader::open(&temp_file);
    assert!(result.is_err());
    assert!(matches!(result.unwrap_err(), BbfError::FileTooSmall));
}

#[test]
fn test_reader_gets_assets() {
    let test_file = create_test_bbf_file();
    let reader = BbfReader::open(&test_file).unwrap();

    let assets = reader.assets().unwrap();
    assert!(assets.len() == 1);
    assert!(assets[0].file_size == 1024);
}

#[test]
fn test_reader_gets_pages() {
    let test_file = create_test_bbf_file();
    let reader = BbfReader::open(&test_file).unwrap();

    let pages = reader.pages().unwrap();
    assert!(pages.len() == 1);
    assert!(pages[0].asset_index == 0);
}

#[test]
fn test_reader_gets_sections() {
    let test_file = create_test_bbf_file();
    let reader = BbfReader::open(&test_file).unwrap();

    let sections = reader.sections().unwrap();
    assert!(sections.len() == 1);
}

#[test]
fn test_reader_gets_metadata() {
    let test_file = create_test_bbf_file();
    let reader = BbfReader::open(&test_file).unwrap();

    let metadata = reader.metadata().unwrap();
    assert!(metadata.len() == 1);
}

#[test]
fn test_reader_gets_string() {
    let test_file = create_test_bbf_file();
    let reader = BbfReader::open(&test_file).unwrap();

    let sections = reader.sections().unwrap();
    let title = reader.get_string(sections[0].section_title_offset).unwrap();
    assert!(title == "Chapter 1");
}

#[test]
fn test_reader_gets_asset_data() {
    let test_file = create_test_bbf_file();
    let reader = BbfReader::open(&test_file).unwrap();

    let assets = reader.assets().unwrap();
    let data = reader.get_asset_data(&assets[0]).unwrap();
    assert!(data.len() == 1024);
    assert!(data.iter().all(|&b| b == 1));
}

#[test]
fn test_verify_integrity_valid_file() {
    let test_file = create_test_bbf_file();
    let reader = BbfReader::open(&test_file).unwrap();

    let is_valid = reader.verify_integrity().unwrap();
    assert!(is_valid);
}

#[test]
fn test_verify_asset_valid() {
    let test_file = create_test_bbf_file();
    let reader = BbfReader::open(&test_file).unwrap();

    let is_valid = reader.verify_asset(0).unwrap();
    assert!(is_valid);
}

#[test]
fn test_verify_asset_invalid_index() {
    let test_file = create_test_bbf_file();
    let reader = BbfReader::open(&test_file).unwrap();

    let result = reader.verify_asset(999);
    assert!(result.is_err());
}

#[test]
fn test_string_offset_out_of_bounds() {
    let test_file = create_test_bbf_file();
    let reader = BbfReader::open(&test_file).unwrap();

    let result = reader.get_string(u64::MAX);
    assert!(result.is_err());
}

#[test]
fn test_short_file_with_wrong_magic_is_too_small() {
    let mut file = Vec::new();
    file.extend_from_slice(b"BADF");
    file.extend_from_slice(&[0u8; 100]);
    assert!(matches!(BbfReader::open(&file).unwrap_err(), BbfError::FileTooSmall));
    let almost = vec![0u8; 319];
    assert!(matches!(BbfReader::open(&almost).unwrap_err(), BbfError::FileTooSmall));
    assert!(matches!(BbfReader::open(&[]).unwrap_err(), BbfError::FileTooSmall));
}

#[test]
fn test_footer_offset_past_the_end_is_invalid_offset() {
    let mut file = create_test_bbf_file();
    let len = file.len() as u64;
    // The footer would end one byte after the file.
    file[16..24].copy_from_slice(&(len - 255).to_le_bytes());
    match BbfReader::open(&file).unwrap_err() {
        BbfError::InvalidOffset { description } => {
            assert_eq!(description, "Footer offset out of bounds")
        }
        other => panic!("unexpected error: {:?}", other),
    }
    file[16..24].copy_from_slice(&u64::MAX.to_le_bytes());
    assert!(matches!(BbfReader::open(&file).unwrap_err(), BbfError::InvalidOffset { .. }));
}

#[test]
fn test_asset_table_offset_past_the_end_is_invalid_offset() {
    let mut file = create_test_bbf_file();
    let footer_at = file.len() - 256;
    file[footer_at..footer_at + 8].copy_from_slice(&u64::MAX.to_le_bytes());
    match BbfReader::open(&file).unwrap_err() {
        BbfError::InvalidOffset { description } => {
            assert_eq!(description, "Asset table offset out of bounds")
        }
        other => panic!("unexpected error: {:?}", other),
    }
}

#[test]
fn test_index_region_above_the_guard_is_refused() {
    // A header whose footer follows at once, in a file of more than 16,000,000 bytes after
    // the asset table offset.
    let mut file = BbfBuilder::with_defaults().unwrap().finalize().unwrap();
    let footer = file[64..320].to_vec();
    file.truncate(64);
    file.resize(64 + 16_000_000, 0);
    file.extend_from_slice(&footer);
    let footer_at = (file.len() - 256) as u64;
    file[16..24].copy_from_slice(&footer_at.to_le_bytes());
    match BbfReader::open(&file).unwrap_err() {
        BbfError::Other { message } => {
            assert_eq!(message, "Index region too large: 16000256 bytes")
        }
        other => panic!("unexpected error: {:?}", other),
    }
    // One byte less than the guard allows still opens.
    let mut file = BbfBuilder::with_defaults().unwrap().finalize().unwrap();
    let footer = file[64..320].to_vec();
    file.truncate(64);
    file.resize(64 + 16_000_000 - 256, 0);
    file.extend_from_slice(&footer);
    let footer_at = (file.len() - 256) as u64;
    file[16..24].copy_from_slice(&footer_at.to_le_bytes());
    assert!(BbfReader::open(&file).is_ok());
}

#[test]
fn test_table_errors_name_the_table() {
    let mut file = create_test_bbf_file();
    let footer_at = file.len() - 256;
    // asset_count
    file[footer_at + 56..footer_at + 64].copy_from_slice(&u64::MAX.to_le_bytes());
    // page_offset
    file[footer_at + 8..footer_at + 16].copy_from_slice(&(u64::MAX - 3).to_le_bytes());
    // section_count
    file[footer_at + 72..footer_at + 80].copy_from_slice(&1_000_000u64.to_le_bytes());
    let reader = BbfReader::open(&file).unwrap();
    match reader.assets().unwrap_err() {
        BbfError::InvalidOffset { description } => {
            assert_eq!(description, "Asset table size calculation overflow")
        }
        other => panic!("unexpected error: {:?}", other),
    }
    match reader.pages().unwrap_err() {
        BbfError::InvalidOffset { description } => {
            assert_eq!(description, "Page table offset + size overflow")
        }
        other => panic!("unexpected error: {:?}", other),
    }
    match reader.sections().unwrap_err() {
        BbfError::InvalidOffset { description } => {
            assert_eq!(description, "Section table out of bounds")
        }
        other => panic!("unexpected error: {:?}", other),
    }
    assert_eq!(reader.metadata().unwrap().len(), 1);
    match reader.verify_asset(0).unwrap_err() {
        BbfError::InvalidOffset { description } => {
            assert_eq!(description, "Asset table size calculation overflow")
        }
        other => panic!("unexpected error: {:?}", other),
    }
}

#[test]
fn test_asset_data_errors() {
    let file = create_test_bbf_file();
    let reader = BbfReader::open(&file).unwrap();
    let mut asset = reader.assets().unwrap()[0];
    asset.file_size = u64::MAX;
    match reader.get_asset_data(&asset).unwrap_err() {
        BbfError::InvalidOffset { description } => {
            assert_eq!(description, "Asset offset + size overflow")
        }
        other => panic!("unexpected error: {:?}", other),
    }
    asset.file_size = file.len() as u64;
    match reader.get_asset_data(&asset).unwrap_err() {
        BbfError::InvalidOffset { description } => {
            assert_eq!(description, "Asset data out of bounds")
        }
        other => panic!("unexpected error: {:?}", other),
    }
    asset.file_offset = 0;
    assert_eq!(reader.get_asset_data(&asset).unwrap().len(), file.len());
    assert!(!reader.check_asset(&asset));
}

#[test]
fn test_string_errors() {
    let mut builder = BbfBuilder::with_defaults().unwrap();
    let long = "x".repeat(2048);
    let fits = "y".repeat(2047);
    let o_long = builder.get_or_add_string(&long);
    let o_fits = builder.get_or_add_string(&fits);
    let o_nul = builder.get_or_add_string("a\0b");
    let o_bad = builder.get_or_add_string("ok");
    let o_last = builder.get_or_add_string("end");
    let mut file = builder.finalize().unwrap();
    let reader = BbfReader::open(&file).unwrap();
    let pool_size = reader.footer().string_pool_size;
    let pool_at = reader.footer().string_pool_offset as usize;
    assert_eq!(pool_size, 2049 + 2048 + 4 + 3 + 4);

    // No terminator among the first 2048 bytes.
    assert!(matches!(reader.get_string(o_long).unwrap_err(), BbfError::InvalidUtf8));
    // The terminator is the 2048th byte.
    assert_eq!(reader.get_string(o_fits).unwrap(), fits);
    // A string that holds a zero byte reads back cut at it.
    assert_eq!(reader.get_string(o_nul).unwrap(), "a");
    assert_eq!(reader.get_string(o_nul + 2).unwrap(), "b");
    assert_eq!(reader.get_string(o_nul + 3).unwrap(), "");
    assert_eq!(reader.get_string(o_last).unwrap(), "end");
    match reader.get_string(pool_size).unwrap_err() {
        BbfError::InvalidOffset { description } => {
            assert_eq!(description, format!("String offset {} out of bounds", pool_size))
        }
        other => panic!("unexpected error: {:?}", other),
    }
    match reader.get_string(u64::MAX).unwrap_err() {
        BbfError::InvalidOffset { description } => {
            assert_eq!(description, "String offset 18446744073709551615 out of bounds")
        }
        other => panic!("unexpected error: {:?}", other),
    }

    // Bytes that are not UTF-8.
    file[pool_at + o_bad as usize] = 0xFF;
    let reader = BbfReader::open(&file).unwrap();
    assert!(matches!(reader.get_string(o_bad).unwrap_err(), BbfError::InvalidUtf8));

    // A pool without its last terminator.
    let last = pool_at + pool_size as usize - 1;
    file[last] = b'!';
    let reader = BbfReader::open(&file).unwrap();
    assert!(matches!(reader.get_string(o_last).unwrap_err(), BbfError::InvalidUtf8));

    // A pool that the footer places outside the file.
    let footer_at = file.len() - 256;
    let len = file.len() as u64;
    file[footer_at + 48..footer_at + 56].copy_from_slice(&len.to_le_bytes());
    let reader = BbfReader::open(&file).unwrap();
    match reader.get_string(0).unwrap_err() {
        BbfError::InvalidOffset { description } => {
            assert_eq!(description, "String pool out of bounds")
        }
        other => panic!("unexpected error: {:?}", other),
    }
    file[footer_at + 48..footer_at + 56].copy_from_slice(&u64::MAX.to_le_bytes());
    let reader = BbfReader::open(&file).unwrap();
    match reader.get_string(0).unwrap_err() {
        BbfError::InvalidOffset { description } => {
            assert_eq!(description, "String pool offset + size overflow")
        }
        other => panic!("unexpected error: {:?}", other),
    }
}

#[test]
fn test_verify_asset_index_error_names_the_index() {
    let file = create_test_bbf_file();
    let reader = BbfReader::open(&file).unwrap();
    match reader.verify_asset(1).unwrap_err() {
        BbfError::InvalidOffset { description } => assert_eq!(description, "Asset index 1"),
        other => panic!("unexpected error: {:?}", other),
    }
    match reader.verify_asset(999).unwrap_err() {
        BbfError::InvalidOffset { description } => assert_eq!(description, "Asset index 999"),
        other => panic!("unexpected error: {:?}", other),
    }
}

#[test]
fn test_verify_integrity_index_bounds() {
    let mut file = create_test_bbf_file();
    let footer_at = file.len() - 256;
    // The asset table is said to start after the footer.
    file[footer_at..footer_at + 8].copy_from_slice(&(footer_at as u64 + 1).to_le_bytes());
    let reader = BbfReader::open(&file).unwrap();
    match reader.verify_integrity().unwrap_err() {
        BbfError::InvalidOffset { description } => {
            assert_eq!(description, "Invalid index region bounds")
        }
        other => panic!("unexpected error: {:?}", other),
    }
}

#[test]
fn test_reserved_fields_warn_and_do_not_block() {
    let mut file = create_test_bbf_file();
    let reader = BbfReader::open(&file).unwrap();
    assert!(reader.warnings().is_empty());
    let footer_at = file.len() - 256;
    file[14] = 1; // header.reserved_extra
    file[63] = 1; // header.reserved
    file[footer_at + 96] = 1; // footer.flags
    file[footer_at + 101] = 1; // footer.padding
    file[footer_at + 255] = 1; // footer.reserved
    let reader = BbfReader::open(&file).unwrap();
    let texts: Vec<String> = reader
        .warnings()
        .into_iter()
        .map(|w| match w {
            BbfError::ReservedFieldNonZero { description } => description,
            other => panic!("unexpected warning: {:?}", other),
        })
        .collect();
    assert_eq!(
        texts,
        vec![
            "BBF header has nonzero reserved_extra field",
            "BBF header has nonzero reserved fields",
            "BBF footer has nonzero flags",
            "BBF footer has nonzero padding",
            "BBF footer has nonzero reserved fields",
        ]
    );
    assert_eq!(reader.page_count(), 1);
}

#[test]
fn test_error_messages() {
    assert_eq!(BbfError::InvalidMagic.message(), "Invalid magic number (expected BBF3)");
    assert_eq!(BbfError::FileTooSmall.message(), "File too small to be a valid BBF file");
    assert_eq!(
        BbfError::HashMismatch.message(),
        "Hash mismatch detected - file may be corrupted"
    );
    assert_eq!(BbfError::InvalidUtf8.message(), "Invalid UTF-8 in string pool");
    assert_eq!(
        BbfError::InvalidOffset { description: "here".to_string() }.message(),
        "Invalid offset: here"
    );
    assert_eq!(
        BbfError::IntegerOverflow { description: "sum".to_string() }.message(),
        "Integer overflow in calculation: sum"
    );
    assert_eq!(
        BbfError::ReservedFieldNonZero { description: "flags".to_string() }.message(),
        "Reserved field validation failed: flags"
    );
    assert_eq!(
        BbfError::AlignmentTooLarge { exponent: 17 }.message(),
        "Alignment exponent 17 exceeds maximum allowed value of 16"
    );
    assert_eq!(
        BbfError::AlignmentTooLarge { exponent: 255 }.message(),
        "Alignment exponent 255 exceeds maximum allowed value of 16"
    );
    assert_eq!(BbfError::Other { message: "plain".to_string() }.message(), "plain");
    assert_eq!(BbfError::Io { message: "disk".to_string() }.message(), "I/O error: disk");
    assert!(matches!(BbfError::from("m".to_string()), BbfError::Other { .. }));
}

#[test]
fn test_table_views_decode_on_demand() {
    let mut b = BbfBuilder::with_defaults().unwrap();
    b.add_page(&[1u8; 10], "png", 11, 0).unwrap();
    b.add_page(&[2u8; 20], "gif", 22, 0).unwrap();
    b.add_section("S", 1, None);
    b.add_metadata("k", "v", None);
    let file = b.finalize().unwrap();
    let reader = BbfReader::open(&file).unwrap();

    let assets = reader.asset_table().unwrap();
    assert_eq!(assets.len(), 2);
    assert!(!assets.is_empty());
    assert_eq!(assets.get(0).unwrap().file_size, 10);
    assert_eq!(assets.get(1).unwrap().file_size, 20);
    assert_eq!(assets.get(1).unwrap().media_type, 0x07);
    assert!(assets.get(2).is_none());
    assert!(assets.get(usize::MAX).is_none());
    let copied = assets.to_vec();
    assert_eq!(copied.len(), 2);
    assert_eq!(copied[1].file_offset, assets.get(1).unwrap().file_offset);

    let pages = reader.page_table().unwrap();
    assert_eq!(pages.len(), 2);
    assert_eq!(pages.get(0).unwrap().flags, 11);
    assert_eq!(pages.get(1).unwrap().asset_index, 1);
    assert_eq!(reader.section_table().unwrap().get(0).unwrap().section_start_index, 1);
    let meta = reader.metadata_table().unwrap().get(0).unwrap();
    assert_eq!(reader.get_string(meta.key_offset).unwrap(), "k");

    let empty = BbfBuilder::with_defaults().unwrap().finalize().unwrap();
    let reader = BbfReader::open(&empty).unwrap();
    assert!(reader.asset_table().unwrap().is_empty());
    assert!(reader.asset_table().unwrap().get(0).is_none());
}

#[test]
fn test_verify_index_alone() {
    let mut file = create_test_bbf_file();
    let reader = BbfReader::open(&file).unwrap();
    assert!(reader.verify_index().unwrap());
    assert!(reader.verify_assets().unwrap());
    let asset = reader.assets().unwrap()[0];
    file[asset.file_offset as usize] ^= 1;
    let reader = BbfReader::open(&file).unwrap();
    assert!(reader.verify_index().unwrap());
    assert!(!reader.verify_assets().unwrap());
    assert!(!reader.check_asset(&asset));
}
