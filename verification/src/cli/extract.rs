//! The `extract` command: pages back to image files. Here are its
//! arguments and what it decides before it writes a file: which pages are
//! meant, and what each file is called.

use vstd::prelude::*;
use vstd::string::StringExecFns;
use crate::error::{agrees, BbfError, Failure};
use crate::file::ReaderView;
use crate::reader::BbfReader;
use crate::text::{
    contains, contains_text, decimal, decimal_string, padded_decimal, padded_decimal_string,
    parse_number, parse_unsigned, splitn, splitn_chars, str_eq, views,
};
use crate::types::{MediaType, Section};

verus! {

/// What `extract` is asked to do.
pub struct ExtractArgs {
    /// Path of the file to extract from.
    pub input: String,
    /// Directory to write the pages to.
    pub output: String,
    /// Extract the pages of this section only.
    pub section: Option<String>,
    /// Stop at the first later section whose title holds this text.
    pub until: Option<String>,
    /// Extract this page range only, as `first-last` or one page number.
    pub range: Option<String>,
}

/// The name of the file that page number `page_number` (counted from 1) is
/// extracted to: `p`, the number in at least four digits, the extension.
pub open spec fn page_file_name_spec(page_number: u64, media_type: MediaType) -> Seq<char> {
    "p"@ + padded_decimal(page_number as nat, 4) + media_type.extension()
}

/// The name of the file that a page is extracted to.
pub fn page_file_name(page_number: u64, media_type: MediaType) -> (r: String)
    ensures
        r@ == page_file_name_spec(page_number, media_type),
{
    let mut r = "p".to_owned();
    r.append(padded_decimal_string(page_number, 4).as_str());
    r.append(media_type.as_extension());
    r
}

/// The pages that a range text means, as the index of the first page and
/// the index after the last, among `max_pages` pages. `first-last` and a
/// single page number count from 1.
pub open spec fn page_range_of(
    range: Seq<char>,
    max_pages: usize,
) -> Result<(usize, usize), Failure> {
    let parts = splitn(range, 2, '-');
    if parts.len() == 2 {
        match parse_unsigned(parts[0], usize::MAX as nat) {
            None => Err(Failure::Other("Invalid start page number"@)),
            Some(first) => if first == 0 {
                Err(Failure::Other("Page numbers start at 1"@))
            } else {
                match parse_unsigned(parts[1], usize::MAX as nat) {
                    None => Err(Failure::Other("Invalid end page number"@)),
                    Some(end) => if first - 1 >= max_pages || end > max_pages || first - 1 >= end {
                        Err(
                            Failure::Other(
                                "Invalid page range: "@ + decimal(first) + "-"@ + decimal(end),
                            ),
                        )
                    } else {
                        Ok(((first - 1) as usize, end as usize))
                    },
                }
            },
        }
    } else {
        match parse_unsigned(range, usize::MAX as nat) {
            None => Err(Failure::Other("Invalid page number"@)),
            Some(page) => if page == 0 {
                Err(Failure::Other("Page numbers start at 1"@))
            } else if page - 1 >= max_pages {
                Err(
                    Failure::Other(
                        "Page "@ + decimal(page) + " exceeds total pages ("@ + decimal(
                            max_pages as nat,
                        ) + ")"@,
                    ),
                )
            } else {
                Ok(((page - 1) as usize, page as usize))
            },
        }
    }
}

/// Reads a page range.
pub fn parse_page_range(range: &str, max_pages: usize) -> (r: Result<(usize, usize), BbfError>)
    ensures
        r matches Ok(v) ==> page_range_of(range@, max_pages) == Ok::<(usize, usize), Failure>(v),
        r matches Err(e) ==> page_range_of(range@, max_pages) == Err::<(usize, usize), Failure>(
            e@,
        ),
{
    let parts = splitn_chars(range, 2, '-');
    if parts.len() == 2 {
        proof {
            assert(views(parts@)[0] == parts@[0]@);
            assert(views(parts@)[1] == parts@[1]@);
        }
        let first = match parse_number(parts[0], usize::MAX as u64) {
            Some(n) => n,
            None => {
                return Err(BbfError::other("Invalid start page number"));
            },
        };
        if first == 0 {
            return Err(BbfError::other("Page numbers start at 1"));
        }
        let end = match parse_number(parts[1], usize::MAX as u64) {
            Some(n) => n,
            None => {
                return Err(BbfError::other("Invalid end page number"));
            },
        };
        let start = first - 1;
        if start >= max_pages as u64 || end > max_pages as u64 || start >= end {
            let mut message = "Invalid page range: ".to_owned();
            message.append(decimal_string(first).as_str());
            message.append("-");
            message.append(decimal_string(end).as_str());
            return Err(BbfError::Other { message });
        }
        Ok((start as usize, end as usize))
    } else {
        let page = match parse_number(range, usize::MAX as u64) {
            Some(n) => n,
            None => {
                return Err(BbfError::other("Invalid page number"));
            },
        };
        if page == 0 {
            return Err(BbfError::other("Page numbers start at 1"));
        }
        if page - 1 >= max_pages as u64 {
            let mut message = "Page ".to_owned();
            message.append(decimal_string(page).as_str());
            message.append(" exceeds total pages (");
            message.append(decimal_string(max_pages as u64).as_str());
            message.append(")");
            return Err(BbfError::Other { message });
        }
        Ok(((page - 1) as usize, page as usize))
    }
}

/// Where the section that starts at `start_page` ends, looking at the
/// sections from index `k` on. With a pattern, it ends where the first of
/// them starts whose title holds the pattern; without one, where the first
/// of them starts that starts later. If none does, it ends with the book.
pub open spec fn section_end_from(
    file: ReaderView,
    sections: Seq<Section>,
    start_page: u64,
    k: int,
    pattern: Option<Seq<char>>,
) -> Result<u64, Failure>
    decreases sections.len() - k,
{
    if k < 0 || k >= sections.len() {
        Ok(file.footer.page_count)
    } else {
        match pattern {
            Some(p) => match file.string_at(sections[k].section_title_offset) {
                Err(e) => Err(e),
                Ok(title) => if contains_text(title, p) {
                    Ok(sections[k].section_start_index)
                } else {
                    section_end_from(file, sections, start_page, k + 1, pattern)
                },
            },
            None => if sections[k].section_start_index > start_page {
                Ok(sections[k].section_start_index)
            } else {
                section_end_from(file, sections, start_page, k + 1, pattern)
            },
        }
    }
}

/// Where section `current_idx` ends: the index of the page after its last.
pub open spec fn section_end_of(
    file: ReaderView,
    current_idx: usize,
    pattern: Option<Seq<char>>,
) -> Result<
    u64,
    Failure,
> {
    match file.sections() {
        Err(e) => Err(e),
        Ok(sections) => if current_idx >= sections.len() {
            Err(Failure::Other("Section index out of range"@))
        } else {
            section_end_from(
                file,
                sections,
                sections[current_idx as int].section_start_index,
                current_idx + 1,
                pattern,
            )
        },
    }
}

/// Where section `current_idx` ends: the index of the page after its last.
#[verifier::loop_isolation(false)]
pub fn find_section_end(
    reader: &BbfReader,
    current_idx: usize,
    pattern: Option<&str>,
) -> (r: Result<
    u64,
    BbfError,
>)
    ensures
        agrees(r, section_end_of(reader@, current_idx, crate::builder::opt_view(pattern))),
{
    let sections = match reader.sections() {
        Ok(sections) => sections,
        Err(e) => {
            return Err(e);
        },
    };
    if current_idx >= sections.len() {
        return Err(BbfError::other("Section index out of range"));
    }
    let start_page = sections[current_idx].section_start_index;
    let ghost p = crate::builder::opt_view(pattern);
    let mut k: usize = current_idx + 1;
    while k < sections.len()
        invariant
            current_idx < k <= sections.len(),
            p == crate::builder::opt_view(pattern),
            section_end_from(reader@, sections@, start_page, current_idx + 1, p)
                == section_end_from(reader@, sections@, start_page, k as int, p),
        decreases sections.len() - k,
    {
        match pattern {
            Some(pat) => {
                let title = match reader.get_string(sections[k].section_title_offset) {
                    Ok(title) => title,
                    Err(e) => {
                        return Err(e);
                    },
                };
                if contains(title, pat) {
                    return Ok(sections[k].section_start_index);
                }
            },
            None => {
                if sections[k].section_start_index > start_page {
                    return Ok(sections[k].section_start_index);
                }
            },
        }
        k = k + 1;
    }
    Ok(reader.page_count())
}

/// The index of the first section whose title is `name`, from index `k`
/// on. A title that cannot be read counts as empty.
pub open spec fn section_named_from(
    file: ReaderView,
    sections: Seq<Section>,
    name: Seq<char>,
    k: int,
) -> Option<
    int,
>
    decreases sections.len() - k,
{
    if k < 0 || k >= sections.len() {
        None
    } else {
        let title = match file.string_at(sections[k].section_title_offset) {
            Ok(t) => t,
            Err(_) => Seq::<char>::empty(),
        };
        if title == name {
            Some(k)
        } else {
            section_named_from(file, sections, name, k + 1)
        }
    }
}

/// The index of the first section whose title is `name`.
#[verifier::loop_isolation(false)]
pub fn find_section(reader: &BbfReader, sections: &Vec<Section>, name: &str) -> (r: Option<usize>)
    ensures
        r matches Some(i) ==> section_named_from(reader@, sections@, name@, 0) == Some(i as int),
        r is None ==> section_named_from(reader@, sections@, name@, 0) is None,
{
    let mut k: usize = 0;
    while k < sections.len()
        invariant
            k <= sections.len(),
            section_named_from(reader@, sections@, name@, 0) == section_named_from(
                reader@,
                sections@,
                name@,
                k as int,
            ),
        decreases sections.len() - k,
    {
        let found = match reader.get_string(sections[k].section_title_offset) {
            Ok(title) => str_eq(title, name),
            Err(_) => {
                proof {
                    reveal_strlit("");
                    assert(""@ =~= Seq::<char>::empty());
                }
                str_eq("", name)
            },
        };
        if found {
            return Some(k);
        }
        k = k + 1;
    }
    None
}

/// The text of an optional string.
pub open spec fn opt_string_view(s: Option<String>) -> Option<Seq<char>> {
    match s {
        Some(s) => Some(s@),
        None => None,
    }
}

/// The pages of the section `name`: the number of its first page counted
/// from 1, the index after its last page, and a description of both.
pub open spec fn section_range_of(
    file: ReaderView,
    name: Seq<char>,
    until: Option<Seq<char>>,
) -> Result<
    (u64, u64, Seq<char>),
    Failure,
> {
    match file.sections() {
        Err(e) => Err(e),
        Ok(sections) => match section_named_from(file, sections, name, 0) {
            None => Err(Failure::Other("Section '"@ + name + "' not found"@)),
            Some(idx) => match section_end_of(file, idx as usize, until) {
                Err(e) => Err(e),
                Ok(end) => if sections[idx].section_start_index == u64::MAX {
                    Err(Failure::IntegerOverflow("Section start page"@))
                } else {
                    Ok(
                        (
                            (sections[idx].section_start_index + 1) as u64,
                            end,
                            "Section '"@ + name + "' (pages "@ + decimal(
                                (sections[idx].section_start_index + 1) as nat,
                            ) + "-"@ + decimal(end as nat) + ")"@,
                        ),
                    )
                },
            },
        },
    }
}

/// The pages of the section `section_name`.
pub fn extract_section_range(
    reader: &BbfReader,
    section_name: &str,
    until_pattern: Option<&str>,
) -> (r:
    Result<(u64, u64, String), BbfError>)
    ensures
        agrees(
            r,
            section_range_of(reader@, section_name@, crate::builder::opt_view(until_pattern)),
        ),
{
    let sections = match reader.sections() {
        Ok(sections) => sections,
        Err(e) => {
            return Err(e);
        },
    };
    let idx = match find_section(reader, &sections, section_name) {
        Some(idx) => idx,
        None => {
            let mut message = "Section '".to_owned();
            message.append(section_name);
            message.append("' not found");
            return Err(BbfError::Other { message });
        },
    };
    proof {
        lemma_section_named_bounds(reader@, sections@, section_name@, 0);
    }
    let start = sections[idx].section_start_index;
    let end = match find_section_end(reader, idx, until_pattern) {
        Ok(end) => end,
        Err(e) => {
            return Err(e);
        },
    };
    if start == u64::MAX {
        return Err(BbfError::IntegerOverflow { description: "Section start page".to_owned() });
    }
    let start = start + 1;
    let mut description = "Section '".to_owned();
    description.append(section_name);
    description.append("' (pages ");
    description.append(decimal_string(start).as_str());
    description.append("-");
    description.append(decimal_string(end).as_str());
    description.append(")");
    Ok((start, end, description))
}

/// A section that is found by name is one of the sections.
pub proof fn lemma_section_named_bounds(
    file: ReaderView,
    sections: Seq<Section>,
    name: Seq<char>,
    k: int,
)
    requires
        0 <= k,
    ensures
        section_named_from(file, sections, name, k) matches Some(i) ==> k <= i < sections.len(),
    decreases sections.len() - k,
{
    if k < sections.len() {
        lemma_section_named_bounds(file, sections, name, k + 1);
    }
}

/// The pages that `extract` is asked for, among the `page_count` pages of
/// the book: a section's pages, a range, or all. As `section_range_of`
/// does, a range's first page is given by its number and not by its index.
pub open spec fn extraction_of(file: ReaderView, args: ExtractArgs, page_count: usize) -> Result<
    (u64, u64, Seq<char>),
    Failure,
> {
    match args.section {
        Some(name) => section_range_of(file, name@, opt_string_view(args.until)),
        None => match args.range {
            Some(range) => match page_range_of(range@, page_count) {
                Err(e) => Err(e),
                Ok((start, end)) => Ok(
                    (
                        (start + 1) as u64,
                        end as u64,
                        "Pages "@ + decimal((start + 1) as nat) + "-"@ + decimal(end as nat),
                    ),
                ),
            },
            None => Ok((0u64, page_count as u64, "All pages"@)),
        },
    }
}

/// The pages that `extract` is asked for.
pub fn plan_extraction(reader: &BbfReader, args: &ExtractArgs, page_count: usize) -> (r: Result<
    (u64, u64, String),
    BbfError,
>)
    ensures
        agrees(r, extraction_of(reader@, *args, page_count)),
{
    match &args.section {
        Some(name) => {
            let until: Option<&str> = match &args.until {
                Some(u) => Some(u.as_str()),
                None => None,
            };
            extract_section_range(reader, name.as_str(), until)
        },
        None => match &args.range {
            Some(range) => match parse_page_range(range.as_str(), page_count) {
                Err(e) => Err(e),
                Ok((start, end)) => {
                    let first = start as u64 + 1;
                    let mut description = "Pages ".to_owned();
                    description.append(decimal_string(first).as_str());
                    description.append("-");
                    description.append(decimal_string(end as u64).as_str());
                    Ok((first, end as u64, description))
                },
            },
            None => Ok((0, page_count as u64, "All pages".to_owned())),
        },
    }
}

} // verus!
