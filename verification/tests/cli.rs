use boundbook::cli::complete::Shell;
use boundbook::cli::create::{
    compare_pages, is_image_file, parse_metadata_string, parse_order_file, parse_order_line,
    order_pages, parse_section_string, parse_sections_file, resolve_section_target, sort_pages,
    trim_quotes, CreateArgs, PagePlan,
};
use boundbook::cli::extract::{
    extract_section_range, find_section, find_section_end, page_file_name, parse_page_range,
    plan_extraction, ExtractArgs,
};
use boundbook::cli::from_cbz::{
    archive_page_type, chapter_dir_name, chapter_first_pages, chapter_name, is_cbz_file,
    parse_metadata, sort_archive_pages, sort_chapter_files, temp_dir_name, temp_page_name,
    ArchivePage, ChapterFile, FromCbzArgs,
};
use boundbook::cli::help::{examples, Example, RosePineVariant};
use boundbook::cli::info::{asset_count_is_unusual, info_report, is_last_entry};
use boundbook::cli::interpolate::{FrameInterpolator, InterpolationMethod};
use boundbook::cli::read::{
    is_gif, status_line, Command, Key, KeyPress, Position, SizeLimits,
};
use boundbook::cli::verify::{VerifyArgs, VerifyMode};
use boundbook::cli::Commands;
use boundbook::text::{
    contains, decimal_string, hex_fixed_string, order_text, padded_decimal_string, parse_i32,
    parse_number, split_chars, splitn_chars, starts_with, str_eq, trim, trim_start_matches, Order,
};
use boundbook::types::BBF_VARIABLE_REAM_SIZE_FLAG;
use boundbook::{BbfBuilder, BbfError, BbfReader, MediaType, Section};
use std::cmp::Ordering;

fn other_message<T: std::fmt::Debug>(r: Result<T, BbfError>) -> String {
    match r {
        Err(BbfError::Other { message }) => message,
        other => panic!("unexpected result: {:?}", other),
    }
}

#[test]
fn test_trim_quotes() {
    assert_eq!(trim_quotes("  \"Chapter 1\"  "), "Chapter 1");
    assert_eq!(trim_quotes("plain"), "plain");
    assert_eq!(trim_quotes("\""), "\"");
    assert_eq!(trim_quotes("\"\""), "");
    assert_eq!(trim_quotes("\"a"), "\"a");
    assert_eq!(trim_quotes("\" a \""), " a ");
    assert_eq!(trim_quotes("   "), "");
    assert_eq!(trim_quotes("\u{a0}\"é\"\t\n"), "é");
}

#[test]
fn test_parse_section_string() {
    let s = parse_section_string("Chapter 1:5").unwrap();
    assert_eq!(s.name, "Chapter 1");
    assert_eq!(s.target, "5");
    assert_eq!(s.parent, None);
    assert!(!s.is_filename);

    let s = parse_section_string("\"Part 2\" : \"page_010.png\" : \"Part 1\" : more").unwrap();
    assert_eq!(s.name, "Part 2");
    assert_eq!(s.target, "page_010.png");
    assert_eq!(s.parent.as_deref(), Some("Part 1"));
    assert!(s.is_filename);

    let s = parse_section_string("x:").unwrap();
    assert_eq!(s.target, "");
    assert!(!s.is_filename);

    assert!(parse_section_string("no colon").is_none());
    assert!(parse_section_string("").is_none());
}

#[test]
fn test_parse_metadata_string() {
    let m = parse_metadata_string("Title: \"A Book\"").unwrap();
    assert_eq!(m.key, "Title");
    assert_eq!(m.value, "A Book");
    assert_eq!(m.parent, None);

    let m = parse_metadata_string("k:v:Chapter 1: the rest").unwrap();
    assert_eq!(m.key, "k");
    assert_eq!(m.value, "v");
    assert_eq!(m.parent.as_deref(), Some("Chapter 1: the rest"));

    assert!(parse_metadata_string("novalue").is_none());
}

#[test]
fn test_parse_metadata_keeps_quotes() {
    let (k, v, p) = parse_metadata(" Title : \"A Book\" ").unwrap();
    assert_eq!(k, "Title");
    assert_eq!(v, "\"A Book\"");
    assert_eq!(p, None);
    let (_, _, p) = parse_metadata("a:b: c:d ").unwrap();
    assert_eq!(p.as_deref(), Some("c:d"));
    assert!(parse_metadata("single").is_none());
}

#[test]
fn test_parse_order_lines() {
    assert_eq!(parse_order_line("cover.png:1"), Some(("cover.png".to_string(), 1)));
    assert_eq!(parse_order_line("  \"a:b.png\":-3 "), Some(("a:b.png".to_string(), -3)));
    assert_eq!(parse_order_line("plain.png"), Some(("plain.png".to_string(), 0)));
    assert_eq!(parse_order_line("x.png: 3"), None);
    assert_eq!(parse_order_line("x.png:"), None);
    assert_eq!(parse_order_line("x.png:2147483648"), None);
    assert_eq!(parse_order_line("x.png:2147483647"), Some(("x.png".to_string(), i32::MAX)));
    assert_eq!(parse_order_line("x.png:-2147483648"), Some(("x.png".to_string(), i32::MIN)));
    assert_eq!(parse_order_line("   "), None);
    assert_eq!(parse_order_line(":7"), Some(("".to_string(), 7)));

    let entries = parse_order_file("a.png:2\r\n\nb.png:1\nbroken:x\nc.png\n");
    assert_eq!(
        entries,
        vec![("a.png".to_string(), 2), ("b.png".to_string(), 1), ("c.png".to_string(), 0)]
    );
    assert!(parse_order_file("").is_empty());
}

#[test]
fn test_parse_sections_file() {
    let sections = parse_sections_file("Intro:1\n\n  \"Ch 1\":two.png:Intro  \nnocolon\n");
    assert_eq!(sections.len(), 2);
    assert_eq!(sections[0].name, "Intro");
    assert_eq!(sections[1].name, "Ch 1");
    assert_eq!(sections[1].target, "two.png");
    assert_eq!(sections[1].parent.as_deref(), Some("Intro"));
    assert!(sections[1].is_filename);
}

#[test]
fn test_resolve_section_target() {
    let by_number = parse_section_string("A:12").unwrap();
    assert_eq!(resolve_section_target(&by_number, None).unwrap(), 11);
    assert_eq!(resolve_section_target(&by_number, Some(3)).unwrap(), 11);
    let zero = parse_section_string("A:0").unwrap();
    assert_eq!(
        other_message(resolve_section_target(&zero, None)),
        "Page number must be at least 1"
    );
    let empty = parse_section_string("A:").unwrap();
    assert_eq!(other_message(resolve_section_target(&empty, None)), "Invalid page number");
    let huge = parse_section_string("A:18446744073709551616").unwrap();
    assert_eq!(other_message(resolve_section_target(&huge, None)), "Invalid page number");
    let largest = parse_section_string("A:18446744073709551615").unwrap();
    assert_eq!(resolve_section_target(&largest, None).unwrap(), u64::MAX - 1);
    let by_file = parse_section_string("A:one.png").unwrap();
    assert_eq!(resolve_section_target(&by_file, Some(4)).unwrap(), 4);
    assert_eq!(
        other_message(resolve_section_target(&by_file, None)),
        "Section target file 'one.png' not found in pages"
    );
}

fn plan(name: &str, order: i32, section: Option<&str>) -> PagePlan {
    let mut p = PagePlan::new(format!("dir/{}", name), name.to_string(), section.map(String::from));
    assert_eq!(p.order, 0);
    p.order = order;
    p
}

#[test]
fn test_compare_pages() {
    // Two places given: by place.
    assert_eq!(compare_pages(&plan("b", 1, None), &plan("a", 2, None)), Ordering::Less);
    assert_eq!(compare_pages(&plan("b", 2, None), &plan("a", 2, None)), Ordering::Equal);
    assert_eq!(compare_pages(&plan("a", 3, None), &plan("b", 2, None)), Ordering::Greater);
    // One place given: it goes first.
    assert_eq!(compare_pages(&plan("z", 1, None), &plan("a", 0, None)), Ordering::Less);
    assert_eq!(compare_pages(&plan("a", -5, None), &plan("z", 9, None)), Ordering::Greater);
    // No place given: by file name.
    assert_eq!(compare_pages(&plan("a", 0, None), &plan("b", 0, None)), Ordering::Less);
    assert_eq!(compare_pages(&plan("b", 0, None), &plan("a", -1, None)), Ordering::Greater);
    assert_eq!(compare_pages(&plan("a", 0, None), &plan("a", 0, None)), Ordering::Equal);
    assert_eq!(compare_pages(&plan("a", 0, None), &plan("ab", 0, None)), Ordering::Less);
    // Two different sections: by section, whatever the places.
    assert_eq!(
        compare_pages(&plan("z", 9, Some("Ch1")), &plan("a", 1, Some("Ch2"))),
        Ordering::Less
    );
    assert_eq!(
        compare_pages(&plan("a", 1, Some("Ch2")), &plan("z", 9, Some("Ch1"))),
        Ordering::Greater
    );
    // The same section, or a section on one side only: as without sections.
    assert_eq!(
        compare_pages(&plan("z", 0, Some("Ch1")), &plan("a", 0, Some("Ch1"))),
        Ordering::Greater
    );
    assert_eq!(compare_pages(&plan("z", 0, Some("Ch1")), &plan("a", 0, None)), Ordering::Greater);
}

#[test]
fn test_sort_pages() {
    let mut plans = vec![
        plan("c.png", 0, None),
        plan("a.png", 0, None),
        plan("z.png", 2, None),
        plan("b.png", 0, None),
        plan("y.png", 1, None),
        plan("x.png", 2, None),
    ];
    sort_pages(&mut plans);
    let names: Vec<&str> = plans.iter().map(|p| p.filename.as_str()).collect();
    // Pages with a place first, by place, those of one place in the order
    // in which they came; then the others by name.
    assert_eq!(names, vec!["y.png", "z.png", "x.png", "a.png", "b.png", "c.png"]);

    let mut plans = vec![
        plan("2.png", 0, Some("Vol 2")),
        plan("1.png", 0, Some("Vol 2")),
        plan("9.png", 0, Some("Vol 1")),
        plan("0.png", 7, Some("Vol 2")),
    ];
    sort_pages(&mut plans);
    let names: Vec<&str> = plans.iter().map(|p| p.filename.as_str()).collect();
    assert_eq!(names, vec!["9.png", "0.png", "1.png", "2.png"]);
    for pair in plans.windows(2) {
        assert_ne!(compare_pages(&pair[0], &pair[1]), Ordering::Greater);
        assert_ne!(order_pages(&pair[0], &pair[1]), Order::Greater);
    }

    let mut none: Vec<PagePlan> = vec![];
    sort_pages(&mut none);
    assert!(none.is_empty());
    let mut one = vec![plan("a", 0, None)];
    sort_pages(&mut one);
    assert_eq!(one.len(), 1);
}

#[test]
fn test_is_image_file_and_is_cbz_file() {
    assert!(is_image_file(Some("png")));
    assert!(is_image_file(Some("JPEG")));
    assert!(!is_image_file(Some("txt")));
    assert!(!is_image_file(None));
    assert!(is_cbz_file(Some("cbz")));
    assert!(is_cbz_file(Some("ZIP")));
    assert!(is_cbz_file(Some("Cbz")));
    assert!(!is_cbz_file(Some("rar")));
    assert!(!is_cbz_file(Some(".cbz")));
    assert!(!is_cbz_file(None));
}

#[test]
fn test_create_args_flags() {
    let mut args = CreateArgs {
        inputs: vec![],
        output: String::new(),
        order: None,
        sections: None,
        add_sections: vec![],
        metadata: vec![],
        alignment: 12,
        ream_size: 16,
        variable_ream_size: true,
        auto_detect_sections: false,
    };
    assert_eq!(args.header_flags(), BBF_VARIABLE_REAM_SIZE_FLAG);
    args.variable_ream_size = false;
    assert_eq!(args.header_flags(), 0);
}

#[test]
fn test_parse_page_range() {
    assert_eq!(parse_page_range("1-10", 10).unwrap(), (0, 10));
    assert_eq!(parse_page_range("3-4", 10).unwrap(), (2, 4));
    assert_eq!(parse_page_range("5", 10).unwrap(), (4, 5));
    assert_eq!(parse_page_range("+5", 10).unwrap(), (4, 5));
    assert_eq!(parse_page_range("10", 10).unwrap(), (9, 10));
    assert_eq!(other_message(parse_page_range("11", 10)), "Page 11 exceeds total pages (10)");
    assert_eq!(other_message(parse_page_range("0", 10)), "Page numbers start at 1");
    assert_eq!(other_message(parse_page_range("x", 10)), "Invalid page number");
    assert_eq!(other_message(parse_page_range("", 10)), "Invalid page number");
    assert_eq!(other_message(parse_page_range("a-3", 10)), "Invalid start page number");
    assert_eq!(other_message(parse_page_range("-3", 10)), "Invalid start page number");
    assert_eq!(other_message(parse_page_range("0-3", 10)), "Page numbers start at 1");
    assert_eq!(other_message(parse_page_range("2-", 10)), "Invalid end page number");
    assert_eq!(other_message(parse_page_range("2-3-4", 10)), "Invalid end page number");
    assert_eq!(other_message(parse_page_range("4-3", 10)), "Invalid page range: 4-3");
    assert_eq!(parse_page_range("4-4", 10).unwrap(), (3, 4));
    assert_eq!(parse_page_range("4-5", 10).unwrap(), (3, 5));
    assert_eq!(other_message(parse_page_range("2-11", 10)), "Invalid page range: 2-11");
    assert_eq!(other_message(parse_page_range("11-12", 10)), "Invalid page range: 11-12");
    assert_eq!(other_message(parse_page_range("1-1", 0)), "Invalid page range: 1-1");
}

#[test]
fn test_page_file_names() {
    assert_eq!(page_file_name(1, MediaType::Png), "p0001.png");
    assert_eq!(page_file_name(42, MediaType::Jpg), "p0042.jpg");
    assert_eq!(page_file_name(9999, MediaType::Tiff), "p9999.tiff");
    assert_eq!(page_file_name(12345, MediaType::Unknown), "p12345.png");
    assert_eq!(temp_page_name(0, MediaType::Avif), "page_0000.avif");
    assert_eq!(temp_page_name(17, MediaType::Webp), "page_0017.webp");
    assert_eq!(chapter_dir_name(3), "chapter_003");
    assert_eq!(chapter_dir_name(1234), "chapter_1234");
    assert_eq!(temp_dir_name(1700000000), "cbz_convert_1700000000");
    assert_eq!(chapter_name(Some("Vol 1"), 0), "Vol 1");
    assert_eq!(chapter_name(None, 0), "Chapter 1");
    assert_eq!(chapter_name(None, 11), "Chapter 12");
}

fn book_with_sections() -> Vec<u8> {
    let mut b = BbfBuilder::with_defaults().unwrap();
    for i in 0..10u8 {
        b.add_page(&[i; 20], "png", 0, 0).unwrap();
    }
    b.add_section("Intro", 0, None);
    b.add_section("Chapter 1", 2, None);
    b.add_section("Chapter 1 notes", 2, Some("Chapter 1"));
    b.add_section("Chapter 2", 5, None);
    b.add_section("Appendix", 8, None);
    b.finalize().unwrap()
}

#[test]
fn test_find_section_end() {
    let file = book_with_sections();
    let reader = BbfReader::open(&file).unwrap();
    // Without a pattern: the start of the next section that starts later.
    assert_eq!(find_section_end(&reader, 0, None).unwrap(), 2);
    assert_eq!(find_section_end(&reader, 1, None).unwrap(), 5);
    assert_eq!(find_section_end(&reader, 2, None).unwrap(), 5);
    assert_eq!(find_section_end(&reader, 3, None).unwrap(), 8);
    // The last section ends with the book.
    assert_eq!(find_section_end(&reader, 4, None).unwrap(), 10);
    // With a pattern: the start of the next section whose title holds it.
    assert_eq!(find_section_end(&reader, 0, Some("Chapter 2")).unwrap(), 5);
    assert_eq!(find_section_end(&reader, 0, Some("notes")).unwrap(), 2);
    assert_eq!(find_section_end(&reader, 0, Some("pend")).unwrap(), 8);
    assert_eq!(find_section_end(&reader, 1, Some("Intro")).unwrap(), 10);
    assert_eq!(find_section_end(&reader, 0, Some("")).unwrap(), 2);
    assert_eq!(other_message(find_section_end(&reader, 5, None)), "Section index out of range");
}

#[test]
fn test_extract_section_range_and_plan() {
    let file = book_with_sections();
    let reader = BbfReader::open(&file).unwrap();
    let sections = reader.sections().unwrap();
    assert_eq!(find_section(&reader, &sections, "Chapter 2"), Some(3));
    assert_eq!(find_section(&reader, &sections, "Chapter"), None);

    let (start, end, text) = extract_section_range(&reader, "Chapter 1", None).unwrap();
    assert_eq!((start, end), (3, 5));
    assert_eq!(text, "Section 'Chapter 1' (pages 3-5)");
    let (start, end, text) = extract_section_range(&reader, "Intro", Some("App")).unwrap();
    assert_eq!((start, end), (1, 8));
    assert_eq!(text, "Section 'Intro' (pages 1-8)");
    assert_eq!(
        other_message(extract_section_range(&reader, "Missing", None)),
        "Section 'Missing' not found"
    );

    let mut args = ExtractArgs {
        input: "book.bbf".to_string(),
        output: "./extracted".to_string(),
        section: None,
        until: None,
        range: None,
    };
    let (start, end, text) = plan_extraction(&reader, &args, 10).unwrap();
    assert_eq!((start, end, text.as_str()), (0, 10, "All pages"));
    args.range = Some("2-4".to_string());
    let (start, end, text) = plan_extraction(&reader, &args, 10).unwrap();
    assert_eq!((start, end, text.as_str()), (2, 4, "Pages 2-4"));
    args.range = Some("7".to_string());
    let (start, end, text) = plan_extraction(&reader, &args, 10).unwrap();
    assert_eq!((start, end, text.as_str()), (7, 7, "Pages 7-7"));
    args.section = Some("Chapter 2".to_string());
    let (start, end, text) = plan_extraction(&reader, &args, 10).unwrap();
    assert_eq!((start, end, text.as_str()), (6, 8, "Section 'Chapter 2' (pages 6-8)"));
    args.until = Some("Nothing".to_string());
    let (start, end, _) = plan_extraction(&reader, &args, 10).unwrap();
    assert_eq!((start, end), (6, 10));
}

#[test]
fn test_archive_page_type() {
    assert_eq!(archive_page_type("001.png", false, Some("png")), Some(MediaType::Png));
    assert_eq!(archive_page_type("ch1/002.JPG", false, Some("JPG")), Some(MediaType::Jpg));
    assert_eq!(archive_page_type("ch1/", true, None), None);
    assert_eq!(archive_page_type("pics.png", true, Some("png")), None);
    assert_eq!(archive_page_type(".hidden.png", false, Some("png")), None);
    assert_eq!(archive_page_type("__MACOSX/001.png", false, Some("png")), None);
    assert_eq!(archive_page_type("ch1/.thumb.png", false, Some("png")), None);
    assert_eq!(archive_page_type("notes.txt", false, Some("txt")), None);
    assert_eq!(archive_page_type("README", false, None), None);
    assert_eq!(archive_page_type("a__MACOSX.png", false, Some("png")), Some(MediaType::Png));
}

#[test]
fn test_sorting_of_archives_and_pages() {
    let mut files: Vec<ChapterFile> = ["ch10.cbz", "ch2.cbz", "ch1.cbz", "ch02b.cbz"]
        .iter()
        .map(|s| ChapterFile { path: s.to_string() })
        .collect();
    sort_chapter_files(&mut files);
    let paths: Vec<&str> = files.iter().map(|f| f.path.as_str()).collect();
    assert_eq!(paths, vec!["ch1.cbz", "ch2.cbz", "ch02b.cbz", "ch10.cbz"]);

    let mut pages: Vec<ArchivePage> = ["b10.png", "b2.png", "b1.png", "B3.png"]
        .iter()
        .enumerate()
        .map(|(index, name)| ArchivePage {
            index,
            name: name.to_string(),
            media_type: MediaType::Png,
        })
        .collect();
    sort_archive_pages(&mut pages);
    let names: Vec<&str> = pages.iter().map(|p| p.name.as_str()).collect();
    assert_eq!(names, vec!["B3.png", "b1.png", "b10.png", "b2.png"]);
    let indices: Vec<usize> = pages.iter().map(|p| p.index).collect();
    assert_eq!(indices, vec![3, 2, 0, 1]);
}

#[test]
fn test_chapter_first_pages() {
    assert_eq!(chapter_first_pages(&vec![3, 0, 5, 2]), Some(vec![0, 3, 3, 8]));
    assert_eq!(chapter_first_pages(&vec![]), Some(vec![]));
    assert_eq!(chapter_first_pages(&vec![usize::MAX, usize::MAX]), None);
}

#[test]
fn test_from_cbz_reads_directory() {
    let mut args = FromCbzArgs {
        input: "in".to_string(),
        output: "out.bbf".to_string(),
        metadata: vec![],
        keep_temp: false,
        directory_mode: false,
    };
    assert_eq!(args.reads_directory(true).unwrap(), true);
    assert_eq!(args.reads_directory(false).unwrap(), false);
    args.directory_mode = true;
    assert_eq!(args.reads_directory(true).unwrap(), true);
    assert_eq!(other_message(args.reads_directory(false)), "Input is not a directory: in");
}

#[test]
fn test_verify_mode() {
    let mut args = VerifyArgs { input: "b".to_string(), index_only: false, asset: None };
    assert_eq!(args.mode(), VerifyMode::Full);
    args.index_only = true;
    assert_eq!(args.mode(), VerifyMode::IndexOnly);
    args.asset = Some(3);
    assert_eq!(args.mode(), VerifyMode::Asset(3));
}

#[test]
fn test_verify_reports() {
    assert_eq!(VerifyMode::Asset(3).announcement(), "Verifying asset 3...");
    assert_eq!(VerifyMode::IndexOnly.announcement(), "Verifying index hash...");
    assert_eq!(
        VerifyMode::Full.announcement(),
        "Verifying complete file integrity (parallel)..."
    );
    assert_eq!(VerifyMode::Asset(3).verdict(true, 9).unwrap(), vec!["✓ Asset 3 integrity OK"]);
    assert_eq!(other_message(VerifyMode::Asset(3).verdict(false, 9)), "✗ Asset 3 is corrupted");
    assert_eq!(VerifyMode::IndexOnly.verdict(true, 9).unwrap(), vec!["✓ Index integrity OK"]);
    assert_eq!(
        other_message(VerifyMode::IndexOnly.verdict(false, 9)),
        "✗ Index hash mismatch - file may be corrupted"
    );
    assert_eq!(
        VerifyMode::Full.verdict(true, 9).unwrap(),
        vec![
            "✓ All integrity checks passed",
            "  • Index hash: OK",
            "  • 9 assets verified: OK"
        ]
    );
    assert_eq!(
        other_message(VerifyMode::Full.verdict(false, 9)),
        "✗ Integrity check failed - file is corrupted"
    );
}

#[test]
fn test_info_report() {
    let file = book_with_sections();
    let reader = BbfReader::open(&file).unwrap();
    assert_eq!(
        info_report(&reader, "books/one.bbf").unwrap(),
        vec![
            "--- Bound Book Format (.bbf) Info",
            "--- File: books/one.bbf",
            "--- BBF Version: 3",
            "--- Pages: 10",
            "--- Assets: 10 (deduplicated)",
            "--- Sections: 5",
            "",
            "  ├   1. Intro                          (starts at page 1)",
            "  ├   2. Chapter 1                      (starts at page 3)",
            "  ├   3. Chapter 1 notes                (starts at page 3)",
            "  ├   4. Chapter 2                      (starts at page 6)",
            "  └   5. Appendix                       (starts at page 9)",
            "---",
        ]
    );

    let mut b = BbfBuilder::with_defaults().unwrap();
    b.add_metadata("Title", "A Book", None);
    b.add_metadata("A key of more than fifteen", "v", None);
    let file = b.finalize().unwrap();
    let reader = BbfReader::open(&file).unwrap();
    assert_eq!(
        info_report(&reader, "x").unwrap(),
        vec![
            "--- Bound Book Format (.bbf) Info",
            "--- File: x",
            "--- BBF Version: 3",
            "--- Pages: 0",
            "--- Assets: 0 (deduplicated)",
            "--- Sections: 0",
            "",
            "--- Metadata:",
            "  ├ Title:          A Book",
            "  └ A key of more than fifteen: v",
            "---",
        ]
    );

    // The lines are those of the formatting of the standard library.
    assert_eq!(
        info_report(&reader, "x").unwrap()[8],
        format!("  {} {:<15} {}", "├", format!("{}:", "Title"), "A Book")
    );
    let file = book_with_sections();
    let reader = BbfReader::open(&file).unwrap();
    assert_eq!(
        info_report(&reader, "x").unwrap()[7],
        format!("  {} {:>3}. {:<30} (starts at page {})", "├", 1, "Intro", 1)
    );
}

#[test]
fn test_info_decisions() {
    assert!(!asset_count_is_unusual(1_000_000));
    assert!(asset_count_is_unusual(1_000_001));
    assert!(is_last_entry(2, 3));
    assert!(!is_last_entry(1, 3));
    assert!(!is_last_entry(0, 0));
}

#[test]
fn test_completion_file_names() {
    assert_eq!(Shell::Bash.file_name("boundbook"), "boundbook.bash");
    assert_eq!(Shell::Elvish.file_name("boundbook"), "boundbook.elv");
    assert_eq!(Shell::Fish.file_name("boundbook"), "boundbook.fish");
    assert_eq!(Shell::PowerShell.file_name("boundbook"), "_boundbook.ps1");
    assert_eq!(Shell::Zsh.file_name("boundbook"), "_boundbook");
    assert_eq!(Shell::Nushell.file_name("boundbook"), "boundbook.nu");
    assert_eq!(Shell::Clink.file_name("boundbook"), "boundbook.lua");
    assert_eq!(Shell::Fig.file_name("boundbook"), "boundbook.ts");
}

#[test]
fn test_help_examples_and_colors() {
    let e = Example::new("t", "c", "m");
    assert_eq!((e.title, e.cmd, e.comments), ("t", "c", "m"));
    let all = examples();
    assert_eq!(all.len(), 3);
    assert_eq!(all[0].title, "Create a new book from images");
    assert_eq!(all[0].cmd, "boundbook create *.png -o book.bbf");
    assert_eq!(all[2].cmd, "boundbook read book.bbf");
    assert_eq!(RosePineVariant::Main.colors().bold, 181);
    assert_eq!(RosePineVariant::Moon.colors().bold, 174);
    assert_eq!(RosePineVariant::Dawn.colors().heading, 133);
    assert_eq!(RosePineVariant::Dawn.colors().table, 103);
}

#[test]
fn test_command_names() {
    assert_eq!(Commands::Help { subcommand: None, gen_markdown: false }.name(), "help");
    assert_eq!(
        Commands::Verify(VerifyArgs { input: String::new(), index_only: false, asset: None })
            .name(),
        "verify"
    );
}

#[test]
fn test_frame_interpolator() {
    let i = FrameInterpolator::new(InterpolationMethod::Cubic);
    assert_eq!(i.method(), InterpolationMethod::Cubic);
    assert!(InterpolationMethod::OpticalFlowSparse.uses_motion());
    assert!(InterpolationMethod::MotionCompensated.uses_motion());
    assert!(!InterpolationMethod::CatmullRom.uses_motion());
    assert!(InterpolationMethod::CatmullRom.eases_linearly());
    assert!(InterpolationMethod::Blend.eases_linearly());
    assert!(!InterpolationMethod::Perlin.eases_linearly());
}

#[test]
fn test_calculate_dimensions() {
    let none = SizeLimits {
        max_width_pixels: None,
        max_height_pixels: None,
        max_cols: None,
        max_rows: None,
    };
    assert_eq!(none.calculate_dimensions(80, 24, 0), (960, 528));
    assert_eq!(none.calculate_dimensions(80, 24, 30), (600, 528));
    assert_eq!(none.calculate_dimensions(20, 1, 30), (0, 0));
    assert_eq!(none.calculate_dimensions(u16::MAX, u16::MAX, 0), (786420, 1572792));
    let limits = SizeLimits {
        max_width_pixels: Some(500),
        max_height_pixels: Some(10_000),
        max_cols: Some(100),
        max_rows: Some(12),
    };
    assert_eq!(limits.calculate_dimensions(80, 24, 0), (500, 240));
    assert_eq!(limits.calculate_dimensions(80, 24, 90), (120, 240));
}

#[test]
fn test_is_gif() {
    assert!(is_gif(b"GIF89a"));
    assert!(is_gif(b"GIF8"));
    assert!(!is_gif(b"GIF"));
    assert!(!is_gif(b"PNG89a"));
    assert!(!is_gif(b"GIx89a"));
    assert!(!is_gif(b""));
}

fn section(start: u64) -> Section {
    Section {
        section_title_offset: 0,
        section_start_index: start,
        section_parent_offset: u64::MAX,
        reserved: [0; 8],
    }
}

#[test]
fn test_navigation() {
    let sections = vec![section(2), section(5), section(5), section(8)];
    let mut p = Position::restored(0, 10);
    assert_eq!(p, Position { current_page: 0, current_section: None });
    p.update_current_section(&sections);
    assert_eq!(p.current_section, None);
    p.next_page(10, &sections);
    p.next_page(10, &sections);
    assert_eq!(p, Position { current_page: 2, current_section: Some(0) });
    for _ in 0..3 {
        p.next_page(10, &sections);
    }
    assert_eq!(p, Position { current_page: 5, current_section: Some(2) });
    p.prev_page(&sections);
    assert_eq!(p, Position { current_page: 4, current_section: Some(0) });
    p.next_section(&sections);
    assert_eq!(p, Position { current_page: 5, current_section: Some(1) });
    p.next_section(&sections);
    p.next_section(&sections);
    assert_eq!(p, Position { current_page: 8, current_section: Some(3) });
    p.next_section(&sections);
    assert_eq!(p, Position { current_page: 8, current_section: Some(3) });
    p.next_page(10, &sections);
    p.next_page(10, &sections);
    p.next_page(10, &sections);
    assert_eq!(p.current_page, 9);
    p.prev_section(&sections);
    assert_eq!(p, Position { current_page: 5, current_section: Some(2) });
    p.prev_section(&sections);
    p.prev_section(&sections);
    p.prev_section(&sections);
    assert_eq!(p, Position { current_page: 2, current_section: Some(0) });
    let mut q = Position { current_page: 0, current_section: None };
    q.prev_page(&sections);
    assert_eq!(q.current_page, 0);
    q.next_section(&sections);
    assert_eq!(q, Position { current_page: 5, current_section: Some(1) });
    let mut e = Position::restored(7, 0);
    assert_eq!(e.current_page, 0);
    e.next_page(0, &vec![]);
    e.next_section(&vec![]);
    e.prev_section(&vec![]);
    assert_eq!(e, Position { current_page: 0, current_section: None });
    assert_eq!(Position::restored(7, 5).current_page, 4);
    assert_eq!(Position::restored(3, 5).current_page, 3);
}

fn plain(key: Key) -> KeyPress {
    KeyPress { key, control: false }
}

fn with_control(c: char) -> KeyPress {
    KeyPress { key: Key::Char(c), control: true }
}

#[test]
fn test_keys_turn_pages() {
    let sections = vec![section(2), section(5)];
    let mut p = Position { current_page: 0, current_section: None };
    assert_eq!(p.handle_key(plain(Key::Right), 30, &sections, false), Command::Render);
    assert_eq!(p, Position { current_page: 1, current_section: None });
    assert_eq!(p.handle_key(plain(Key::Char(' ')), 30, &sections, false), Command::Render);
    assert_eq!(p, Position { current_page: 2, current_section: Some(0) });
    assert_eq!(p.handle_key(with_control('l'), 30, &sections, false), Command::Render);
    assert_eq!(p.handle_key(plain(Key::PageDown), 30, &sections, false), Command::Render);
    assert_eq!(p.current_page, 4);
    assert_eq!(p.handle_key(plain(Key::Left), 30, &sections, false), Command::Render);
    assert_eq!(p.handle_key(plain(Key::Char('h')), 30, &sections, false), Command::Render);
    assert_eq!(p.handle_key(plain(Key::PageUp), 30, &sections, false), Command::Render);
    assert_eq!(p, Position { current_page: 1, current_section: None });
    assert_eq!(p.handle_key(plain(Key::Char('n')), 30, &sections, false), Command::Render);
    assert_eq!(p, Position { current_page: 5, current_section: Some(1) });
    assert_eq!(p.handle_key(plain(Key::Char(']')), 30, &sections, false), Command::Render);
    assert_eq!(p, Position { current_page: 5, current_section: Some(1) });
    assert_eq!(p.handle_key(plain(Key::Char('[')), 30, &sections, false), Command::Render);
    assert_eq!(p, Position { current_page: 2, current_section: Some(0) });
    assert_eq!(p.handle_key(plain(Key::Char('p')), 30, &sections, false), Command::Render);
    assert_eq!(p, Position { current_page: 2, current_section: Some(0) });
}

#[test]
fn test_keys_leap() {
    let sections = vec![section(2), section(5)];
    let mut p = Position { current_page: 3, current_section: Some(0) };
    assert_eq!(p.handle_key(with_control('j'), 30, &sections, false), Command::Render);
    assert_eq!(p, Position { current_page: 13, current_section: Some(0) });
    assert_eq!(p.handle_key(with_control('j'), 30, &sections, false), Command::Render);
    assert_eq!(p.handle_key(with_control('j'), 30, &sections, false), Command::Render);
    assert_eq!(p.current_page, 29);
    assert_eq!(p.handle_key(with_control('k'), 30, &sections, false), Command::Render);
    assert_eq!(p.current_page, 19);
    assert_eq!(p.handle_key(with_control('k'), 30, &sections, false), Command::Render);
    assert_eq!(p.handle_key(with_control('k'), 30, &sections, false), Command::Render);
    assert_eq!(p, Position { current_page: 0, current_section: Some(0) });
    assert_eq!(p.handle_key(plain(Key::Char('j')), 30, &sections, false), Command::Ignore);
    assert_eq!(p.handle_key(plain(Key::Char('k')), 30, &sections, false), Command::Ignore);
    assert_eq!(p.current_page, 0);
    assert_eq!(p.handle_key(plain(Key::End), 30, &sections, false), Command::Render);
    assert_eq!(p, Position { current_page: 29, current_section: Some(0) });
    assert_eq!(p.handle_key(plain(Key::Home), 30, &sections, false), Command::Render);
    assert_eq!(p.current_page, 0);
    assert_eq!(p.handle_key(plain(Key::Char('G')), 30, &sections, false), Command::Render);
    assert_eq!(p.current_page, 29);
    assert_eq!(p.handle_key(plain(Key::Char('g')), 30, &sections, false), Command::Render);
    assert_eq!(p.current_page, 0);
    let mut e = Position { current_page: 0, current_section: None };
    assert_eq!(e.handle_key(plain(Key::End), 0, &vec![], false), Command::Render);
    assert_eq!(e.handle_key(with_control('j'), 0, &vec![], false), Command::Render);
    assert_eq!(e, Position { current_page: 0, current_section: None });
    let mut past = Position { current_page: 40, current_section: None };
    assert_eq!(past.handle_key(with_control('j'), 30, &sections, false), Command::Render);
    assert_eq!(past.current_page, 29);
}

#[test]
fn test_keys_without_movement() {
    let sections = vec![section(2)];
    let start = Position { current_page: 4, current_section: Some(0) };
    let cases = [
        (plain(Key::Char('q')), false, Command::Quit),
        (with_control('q'), false, Command::Quit),
        (plain(Key::Esc), false, Command::Quit),
        (with_control('c'), false, Command::Quit),
        (plain(Key::Char('c')), false, Command::Ignore),
        (plain(Key::Char('?')), false, Command::ShowHelp),
        (plain(Key::Char('i')), false, Command::ShowInfo),
        (plain(Key::Char('y')), false, Command::CopyPage),
        (plain(Key::Char('a')), true, Command::Animate),
        (plain(Key::Char('a')), false, Command::Ignore),
        (plain(Key::Char('x')), true, Command::Ignore),
        (plain(Key::Other), true, Command::Ignore),
    ];
    for (press, animation, expected) in cases {
        let mut p = start;
        assert_eq!(p.handle_key(press, 30, &sections, animation), expected);
        assert_eq!(p, start);
    }
}

#[test]
fn test_status_line() {
    assert_eq!(
        status_line(0, 12, None, false),
        "Page 1/12 | [h/l: page] [p/n: section] [q: quit] [?: help]"
    );
    assert_eq!(
        status_line(11, 12, Some("Chapter 2"), false),
        "Page 12/12 | Section: Chapter 2 | [h/l: page] [p/n: section] [q: quit] [?: help]"
    );
    assert_eq!(
        status_line(4, 0, None, true),
        "Page 5/0 | [h/l: page] [p/n: section] [q: quit] [?: help] | [a: play GIF]"
    );
    assert_eq!(
        status_line(99, 100, Some(""), true),
        "Page 100/100 | Section:  | [h/l: page] [p/n: section] [q: quit] [?: help] | [a: play GIF]"
    );
}

#[test]
fn test_text_helpers() {
    assert_eq!(trim("  a b \t"), "a b");
    assert_eq!(trim(""), "");
    assert_eq!(trim("\u{3000}x\u{2028}"), "x");
    assert_eq!(trim_start_matches("..a.b.", '.'), "a.b.");
    assert_eq!(trim_start_matches("...", '.'), "");
    assert_eq!(split_chars("a:b::c", ':'), vec!["a", "b", "", "c"]);
    assert_eq!(split_chars("", ':'), vec![""]);
    assert_eq!(split_chars(":", ':'), vec!["", ""]);
    assert_eq!(splitn_chars("a:b:c:d", 3, ':'), vec!["a", "b", "c:d"]);
    assert_eq!(splitn_chars("a:b", 3, ':'), vec!["a", "b"]);
    assert_eq!(splitn_chars("a:b", 1, ':'), vec!["a:b"]);
    assert!(splitn_chars("a:b", 0, ':').is_empty());
    assert_eq!(splitn_chars("é-ü-ß", 2, '-'), vec!["é", "ü-ß"]);
    assert!(str_eq("abc", "abc"));
    assert!(!str_eq("abc", "abd"));
    assert!(!str_eq("abc", "ab"));
    assert!(contains("hello world", "lo w"));
    assert!(contains("hello", ""));
    assert!(contains("", ""));
    assert!(!contains("hello", "world"));
    assert!(!contains("ab", "abc"));
    assert!(contains("aab", "ab"));
    assert!(starts_with("__MACOSX/x", "__MACOSX"));
    assert!(!starts_with("_MACOSX", "__MACOSX"));
    assert!(starts_with("x", ""));
    assert_eq!(order_text("a", "b"), Order::Less);
    assert_eq!(order_text("b", "a"), Order::Greater);
    assert_eq!(order_text("a", "a"), Order::Equal);
    assert_eq!(order_text("", "a"), Order::Less);
    assert_eq!(order_text("ab", "a"), Order::Greater);
    assert_eq!(order_text("Z", "a"), Order::Less);
    assert_eq!(order_text("é", "z"), Order::Greater);
}

#[test]
fn test_numbers() {
    assert_eq!(decimal_string(0), "0");
    assert_eq!(decimal_string(9), "9");
    assert_eq!(decimal_string(10), "10");
    assert_eq!(decimal_string(u64::MAX), "18446744073709551615");
    assert_eq!(padded_decimal_string(7, 4), "0007");
    assert_eq!(padded_decimal_string(12345, 4), "12345");
    assert_eq!(padded_decimal_string(0, 0), "0");
    assert_eq!(hex_fixed_string(255, 4), "00ff");
    assert_eq!(hex_fixed_string(0x12345, 4), "2345");
    assert_eq!(parse_number("0", 10), Some(0));
    assert_eq!(parse_number("007", 10), Some(7));
    assert_eq!(parse_number("+10", 10), Some(10));
    assert_eq!(parse_number("11", 10), None);
    assert_eq!(parse_number("", 10), None);
    assert_eq!(parse_number("+", 10), None);
    assert_eq!(parse_number("++1", 10), None);
    assert_eq!(parse_number("-1", 10), None);
    assert_eq!(parse_number(" 1", 10), None);
    assert_eq!(parse_number("1_0", 10), None);
    assert_eq!(parse_number("١", 10), None);
    assert_eq!(parse_number("18446744073709551615", u64::MAX), Some(u64::MAX));
    assert_eq!(parse_number("18446744073709551616", u64::MAX), None);
    assert_eq!(parse_number("99999999999999999999999", u64::MAX), None);
    assert_eq!(parse_i32("-0"), Some(0));
    assert_eq!(parse_i32("+7"), Some(7));
    assert_eq!(parse_i32("-+7"), None);
    assert_eq!(parse_i32("-"), None);
    assert_eq!(parse_i32("--1"), None);
    for s in ["12", "-12", "+12", "2147483647", "2147483648", "-2147483648", "-2147483649", "", "a"]
    {
        assert_eq!(parse_i32(s), s.parse::<i32>().ok());
    }
    for s in ["12", "-12", "+12", "18446744073709551615", "18446744073709551616", "", "+", "1a"] {
        assert_eq!(parse_number(s, u64::MAX), s.parse::<u64>().ok());
    }
}
