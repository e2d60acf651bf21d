use boundbook::layout::Record;
use boundbook::types::{
    ALIGNMENT, BBF_PETRIFICATION_FLAG, BBF_VARIABLE_REAM_SIZE_FLAG, DEFAULT_GUARD_ALIGNMENT,
    DEFAULT_SMALL_REAM_THRESHOLD, MAGIC, MAX_BALE_SIZE, MAX_FORME_SIZE, NO_PARENT, VERSION,
};
use boundbook::{
    AssetEntry, BbfFooter, BbfHeader, Expansion, MediaType, Metadata, PageEntry, Section,
};

#[test]
fn test_mediatype_from_extension_all_known_formats() {
    assert!(MediaType::from_extension("png") == MediaType::Png);
    assert!(MediaType::from_extension("jpg") == MediaType::Jpg);
    assert!(MediaType::from_extension("jpeg") == MediaType::Jpg);
    assert!(MediaType::from_extension("avif") == MediaType::Avif);
    assert!(MediaType::from_extension("webp") == MediaType::Webp);
    assert!(MediaType::from_extension("jxl") == MediaType::Jxl);
    assert!(MediaType::from_extension("bmp") == MediaType::Bmp);
    assert!(MediaType::from_extension("gif") == MediaType::Gif);
    assert!(MediaType::from_extension("tiff") == MediaType::Tiff);
    assert!(MediaType::from_extension("tif") == MediaType::Tiff);
}

#[test]
fn test_mediatype_from_extension_with_leading_dot() {
    assert!(MediaType::from_extension(".png") == MediaType::Png);
    assert!(MediaType::from_extension(".gif") == MediaType::Gif);
    assert!(MediaType::from_extension("..png") == MediaType::Png);
}

#[test]
fn test_mediatype_from_extension_case_insensitive() {
    assert!(MediaType::from_extension("PNG") == MediaType::Png);
    assert!(MediaType::from_extension("Jpg") == MediaType::Jpg);
    assert!(MediaType::from_extension("AVIF") == MediaType::Avif);
    assert!(MediaType::from_extension("WeBp") == MediaType::Webp);
}

#[test]
fn test_mediatype_from_extension_unknown_returns_unknown() {
    assert!(MediaType::from_extension("svg") == MediaType::Unknown);
    assert!(MediaType::from_extension("pdf") == MediaType::Unknown);
    assert!(MediaType::from_extension("") == MediaType::Unknown);
    assert!(MediaType::from_extension("   ") == MediaType::Unknown);
}

#[test]
fn test_mediatype_as_extension_roundtrip() {
    let variants = [
        MediaType::Avif,
        MediaType::Png,
        MediaType::Webp,
        MediaType::Jxl,
        MediaType::Bmp,
        MediaType::Gif,
        MediaType::Tiff,
        MediaType::Jpg,
    ];
    for v in variants {
        assert!(MediaType::from_extension(v.as_extension()) == v);
    }
}

#[test]
fn test_mediatype_unknown_as_extension_defaults_to_png() {
    assert!(MediaType::Unknown.as_extension() == ".png");
}

#[test]
fn test_mediatype_from_u8_all_known_values() {
    assert!(MediaType::from(0x01u8) == MediaType::Avif);
    assert!(MediaType::from(0x02u8) == MediaType::Png);
    assert!(MediaType::from(0x03u8) == MediaType::Webp);
    assert!(MediaType::from(0x04u8) == MediaType::Jxl);
    assert!(MediaType::from(0x05u8) == MediaType::Bmp);
    assert!(MediaType::from(0x07u8) == MediaType::Gif);
    assert!(MediaType::from(0x08u8) == MediaType::Tiff);
    assert!(MediaType::from(0x09u8) == MediaType::Jpg);
}

#[test]
fn test_mediatype_from_u8_unknown_values() {
    assert!(MediaType::from(0x00u8) == MediaType::Unknown);
    assert!(MediaType::from(0x06u8) == MediaType::Unknown);
    assert!(MediaType::from(0x0Au8) == MediaType::Unknown);
    assert!(MediaType::from(0xFFu8) == MediaType::Unknown);
}

#[test]
fn test_mediatype_u8_roundtrip() {
    let variants = [
        MediaType::Avif,
        MediaType::Png,
        MediaType::Webp,
        MediaType::Jxl,
        MediaType::Bmp,
        MediaType::Gif,
        MediaType::Tiff,
        MediaType::Jpg,
    ];
    for v in variants {
        assert!(MediaType::from(v.as_u8()) == v);
    }
}

#[test]
fn test_struct_sizes_match_binary_spec() {
    assert!(<BbfHeader as Record>::size() == 64);
    assert!(<AssetEntry as Record>::size() == 48);
    assert!(<PageEntry as Record>::size() == 16);
    assert!(<Section as Record>::size() == 32);
    assert!(<Metadata as Record>::size() == 32);
    assert!(<Expansion as Record>::size() == 128);
    assert!(<BbfFooter as Record>::size() == 256);
}

#[test]
fn test_format_constants_values() {
    assert!(&MAGIC == b"BBF3");
    assert!(VERSION == 3);
    assert!(ALIGNMENT == 4096);
    assert!(BBF_PETRIFICATION_FLAG == 0x00000001);
    assert!(BBF_VARIABLE_REAM_SIZE_FLAG == 0x00000002);
    assert!(DEFAULT_GUARD_ALIGNMENT == 12);
    assert!(DEFAULT_SMALL_REAM_THRESHOLD == 16);
    assert!(MAX_BALE_SIZE == 16_000_000);
    assert!(MAX_FORME_SIZE == 2048);
}

#[test]
fn test_mediatype_tags_are_the_stored_values() {
    assert_eq!(MediaType::Unknown.as_u8(), 0x00);
    assert_eq!(MediaType::Avif.as_u8(), 0x01);
    assert_eq!(MediaType::Png.as_u8(), 0x02);
    assert_eq!(MediaType::Webp.as_u8(), 0x03);
    assert_eq!(MediaType::Jxl.as_u8(), 0x04);
    assert_eq!(MediaType::Bmp.as_u8(), 0x05);
    assert_eq!(MediaType::Gif.as_u8(), 0x07);
    assert_eq!(MediaType::Tiff.as_u8(), 0x08);
    assert_eq!(MediaType::Jpg.as_u8(), 0x09);
}

#[test]
fn test_mediatype_from_lowercase_name_is_exact() {
    assert!(MediaType::from_lowercase_name("png") == MediaType::Png);
    assert!(MediaType::from_lowercase_name("PNG") == MediaType::Unknown);
    assert!(MediaType::from_lowercase_name(".png") == MediaType::Unknown);
    assert!(MediaType::from_lowercase_name("jpeg") == MediaType::Jpg);
    assert!(MediaType::from_lowercase_name("tif") == MediaType::Tiff);
}

#[test]
fn test_records_encode_to_their_documented_layout() {
    let header = BbfHeader {
        magic: MAGIC,
        version: VERSION,
        header_len: 64,
        flags: 0x0102_0304,
        alignment: 12,
        ream_size: 16,
        reserved_extra: 0,
        footer_offset: 0x1122_3344_5566_7788,
        reserved: [0u8; 40],
    };
    let mut out = Vec::new();
    header.write(&mut out);
    assert_eq!(out.len(), 64);
    assert_eq!(&out[0..4], b"BBF3");
    assert_eq!(&out[4..6], &[3, 0]);
    assert_eq!(&out[6..8], &[64, 0]);
    assert_eq!(&out[8..12], &[0x04, 0x03, 0x02, 0x01]);
    assert_eq!(out[12], 12);
    assert_eq!(out[13], 16);
    assert_eq!(&out[14..16], &[0, 0]);
    assert_eq!(&out[16..24], &[0x88, 0x77, 0x66, 0x55, 0x44, 0x33, 0x22, 0x11]);
    assert!(out[24..].iter().all(|&b| b == 0));

    let back = BbfHeader::read(&out, 0);
    assert_eq!(back.flags, header.flags);
    assert_eq!(back.footer_offset, header.footer_offset);
    assert_eq!(back.magic, header.magic);
}

#[test]
fn test_asset_entry_round_trips_through_bytes() {
    let asset = AssetEntry {
        file_offset: 4096,
        asset_hash: [0xAAAA_BBBB_CCCC_DDDD, 0x1111_2222_3333_4444],
        file_size: 1024,
        flags: 7,
        reserved_value: 0,
        media_type: 0x02,
        reserved: [0u8; 9],
    };
    let mut out = vec![0xEEu8; 5];
    asset.write(&mut out);
    assert_eq!(out.len(), 5 + 48);
    assert_eq!(&out[5..13], &4096u64.to_le_bytes());
    assert_eq!(&out[13..21], &0xAAAA_BBBB_CCCC_DDDDu64.to_le_bytes());
    assert_eq!(&out[21..29], &0x1111_2222_3333_4444u64.to_le_bytes());
    assert_eq!(&out[29..37], &1024u64.to_le_bytes());
    assert_eq!(&out[37..41], &7u32.to_le_bytes());
    assert_eq!(out[43], 0x02);
    let back = AssetEntry::read(&out, 5);
    assert_eq!(back.file_offset, 4096);
    assert_eq!(back.asset_hash, asset.asset_hash);
    assert_eq!(back.file_size, 1024);
    assert_eq!(back.flags, 7);
    assert_eq!(back.media_type, 0x02);
}

#[test]
fn test_no_parent_is_all_ones() {
    assert_eq!(NO_PARENT, u64::MAX);
}
