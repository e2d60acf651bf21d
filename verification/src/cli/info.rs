//! The `info` command: what a book holds, as lines of text.

use vstd::prelude::*;
use vstd::string::StringExecFns;
use crate::error::{BbfError, Failure};
use crate::file::ReaderView;
use crate::reader::BbfReader;
use crate::text::{
    decimal, decimal_string, pad_end, pad_end_string, pad_start, pad_start_string, string_views,
};
use crate::types::{Metadata, Section};

verus! {

/// Asset count above which `info` warns that the count is unusual.
pub const LARGE_ASSET_COUNT: u64 = 1_000_000;

/// What `info` is asked to do.
pub struct InfoArgs {
    /// Path of the file to describe.
    pub input: String,
}

/// Whether `info` warns about the number of assets.
pub fn asset_count_is_unusual(asset_count: u64) -> (r: bool)
    ensures
        r == (asset_count > LARGE_ASSET_COUNT),
{
    asset_count > LARGE_ASSET_COUNT
}

/// Whether entry `index` of a list of `len` entries is the last one, which
/// `info` marks with a corner instead of a tee.
pub fn is_last_entry(index: usize, len: usize) -> (r: bool)
    ensures
        r == (index + 1 == len),
{
    len > 0 && index == len - 1
}

/// The mark before entry `index` of a list of `len` entries.
pub open spec fn entry_mark(index: int, len: int) -> Seq<char> {
    if index + 1 == len {
        "└"@
    } else {
        "├"@
    }
}

/// The line about the assets of a book.
pub open spec fn assets_line(asset_count: u64) -> Seq<char> {
    if asset_count > LARGE_ASSET_COUNT {
        "--- Assets: "@ + decimal(asset_count as nat)
            + " (deduplicated) WARNING: Unusually large asset count"@
    } else {
        "--- Assets: "@ + decimal(asset_count as nat) + " (deduplicated)"@
    }
}

/// The line about section `index` of `len` sections: its mark, its number
/// in three columns, its title in thirty, and the number of its first page.
pub open spec fn section_line(
    index: int,
    len: int,
    title: Seq<char>,
    start_index: u64,
) -> Seq<char> {
    "  "@ + entry_mark(index, len) + " "@ + pad_start(decimal((index + 1) as nat), 3) + ". "@
        + pad_end(title, 30) + " (starts at page "@ + decimal((start_index + 1) as nat) + ")"@
}

/// The line about a key/value pair: its mark, its key with a colon in
/// fifteen columns, and its value.
pub open spec fn metadata_line(
    index: int,
    len: int,
    key: Seq<char>,
    value: Seq<char>,
) -> Seq<char> {
    "  "@ + entry_mark(index, len) + " "@ + pad_end(key + ":"@, 15) + " "@ + value
}

/// The lines about the first `k` sections.
pub open spec fn section_lines(file: ReaderView, sections: Seq<Section>, k: int) -> Result<
    Seq<Seq<char>>,
    Failure,
>
    decreases k,
{
    if k <= 0 || k > sections.len() {
        Ok(Seq::empty())
    } else {
        match section_lines(file, sections, k - 1) {
            Err(e) => Err(e),
            Ok(lines) => match file.string_at(sections[k - 1].section_title_offset) {
                Err(e) => Err(e),
                Ok(title) => if sections[k - 1].section_start_index == u64::MAX {
                    Err(Failure::IntegerOverflow("Section start page"@))
                } else {
                    Ok(
                        lines.push(
                            section_line(
                                k - 1,
                                sections.len() as int,
                                title,
                                sections[k - 1].section_start_index,
                            ),
                        ),
                    )
                },
            },
        }
    }
}

/// The lines about the first `k` key/value pairs.
pub open spec fn metadata_lines(file: ReaderView, metadata: Seq<Metadata>, k: int) -> Result<
    Seq<Seq<char>>,
    Failure,
>
    decreases k,
{
    if k <= 0 || k > metadata.len() {
        Ok(Seq::empty())
    } else {
        match metadata_lines(file, metadata, k - 1) {
            Err(e) => Err(e),
            Ok(lines) => match file.string_at(metadata[k - 1].key_offset) {
                Err(e) => Err(e),
                Ok(key) => match file.string_at(metadata[k - 1].value_offset) {
                    Err(e) => Err(e),
                    Ok(value) => Ok(
                        lines.push(metadata_line(k - 1, metadata.len() as int, key, value)),
                    ),
                },
            },
        }
    }
}

/// The first lines of the report: a heading, the path, and the counts
/// that header and footer state.
pub open spec fn head_lines(file: ReaderView, path: Seq<char>) -> Seq<Seq<char>> {
    seq![
        "--- Bound Book Format (.bbf) Info"@,
        "--- File: "@ + path,
        "--- BBF Version: "@ + decimal(file.header.version as nat),
        "--- Pages: "@ + decimal(file.footer.page_count as nat),
        assets_line(file.footer.asset_count),
    ]
}

/// The lines that `info` prints for the book at `path`: a heading, the
/// counts, the sections and the metadata if there are any, and a closing
/// line. A table or a string that cannot be read ends the report.
pub open spec fn info_lines(file: ReaderView, path: Seq<char>) -> Result<Seq<Seq<char>>, Failure> {
    let head = head_lines(file, path);
    match file.sections() {
        Err(e) => Err(e),
        Ok(sections) => match section_lines(file, sections, sections.len() as int) {
            Err(e) => Err(e),
            Ok(section_part) => match file.metadata() {
                Err(e) => Err(e),
                Ok(metadata) => match metadata_lines(file, metadata, metadata.len() as int) {
                    Err(e) => Err(e),
                    Ok(metadata_part) => Ok(
                        head + seq!["--- Sections: "@ + decimal(sections.len())] + (if 0
                            < sections.len() {
                            seq![Seq::<char>::empty()] + section_part
                        } else {
                            Seq::<Seq<char>>::empty()
                        }) + (if metadata.len() > 0 {
                            seq![Seq::<char>::empty(), "--- Metadata:"@] + metadata_part
                        } else {
                            Seq::<Seq<char>>::empty()
                        }) + seq!["---"@],
                    ),
                },
            },
        }
    }
}

/// The mark before entry `index` of a list of `len` entries.
fn entry_mark_str(index: usize, len: usize) -> (r: &'static str)
    ensures
        r@ == entry_mark(index as int, len as int),
{
    if is_last_entry(index, len) {
        "└"
    } else {
        "├"
    }
}

/// Two texts, one after the other.
fn join2(a: &str, b: &str) -> (r: String)
    ensures
        r@ == a@ + b@,
{
    let mut r = a.to_owned();
    r.append(b);
    r
}

/// The line about section `index` of `len` sections.
fn section_line_string(index: usize, len: usize, title: &str, start_index: u64) -> (r: String)
    requires
        index < len,
        start_index < u64::MAX,
    ensures
        r@ == section_line(index as int, len as int, title@, start_index),
{
    let mut r = "  ".to_owned();
    r.append(entry_mark_str(index, len));
    r.append(" ");
    r.append(pad_start_string(decimal_string(index as u64 + 1).as_str(), 3).as_str());
    r.append(". ");
    r.append(pad_end_string(title, 30).as_str());
    r.append(" (starts at page ");
    r.append(decimal_string(start_index + 1).as_str());
    r.append(")");
    r
}

/// The line about a key/value pair.
fn metadata_line_string(index: usize, len: usize, key: &str, value: &str) -> (r: String)
    ensures
        r@ == metadata_line(index as int, len as int, key@, value@),
{
    let mut r = "  ".to_owned();
    r.append(entry_mark_str(index, len));
    r.append(" ");
    r.append(pad_end_string(join2(key, ":").as_str(), 15).as_str());
    r.append(" ");
    r.append(value);
    r
}

/// The first lines of the report.
fn head_report(reader: &BbfReader, path: &str) -> (lines: Vec<String>)
    ensures
        string_views(lines@) == head_lines(reader@, path@),
{
    let mut lines: Vec<String> = Vec::new();
    lines.push("--- Bound Book Format (.bbf) Info".to_owned());
    lines.push(join2("--- File: ", path));
    lines.push(join2("--- BBF Version: ", decimal_string(reader.version() as u64).as_str()));
    lines.push(join2("--- Pages: ", decimal_string(reader.page_count()).as_str()));
    let asset_count = reader.asset_count();
    let mut assets = join2("--- Assets: ", decimal_string(asset_count).as_str());
    if asset_count_is_unusual(asset_count) {
        assets.append(" (deduplicated) WARNING: Unusually large asset count");
    } else {
        assets.append(" (deduplicated)");
    }
    lines.push(assets);
    assert(string_views(lines@) =~= head_lines(reader@, path@));
    lines
}

/// The lines about the sections.
#[verifier::loop_isolation(false)]
fn section_report(reader: &BbfReader, sections: &Vec<Section>) -> (r: Result<Vec<String>, BbfError>)
    ensures
        r matches Ok(lines) ==> section_lines(reader@, sections@, sections@.len() as int) == Ok::<
            Seq<Seq<char>>,
            Failure,
        >(string_views(lines@)),
        r matches Err(e) ==> section_lines(reader@, sections@, sections@.len() as int) == Err::<
            Seq<Seq<char>>,
            Failure,
        >(e@),
{
    let mut lines: Vec<String> = Vec::new();
    let mut i: usize = 0;
    assert(string_views(lines@) =~= Seq::<Seq<char>>::empty());
    while i < sections.len()
        invariant
            i <= sections.len(),
            section_lines(reader@, sections@, i as int) == Ok::<Seq<Seq<char>>, Failure>(
                string_views(lines@),
            ),
        decreases sections.len() - i,
    {
        let title = match reader.get_string(sections[i].section_title_offset) {
            Ok(title) => title,
            Err(e) => {
                proof {
                    lemma_section_lines_fail(reader@, sections@, i + 1, sections@.len() as int);
                }
                return Err(e);
            },
        };
        let start = sections[i].section_start_index;
        if start == u64::MAX {
            proof {
                lemma_section_lines_fail(reader@, sections@, i + 1, sections@.len() as int);
            }
            return Err(BbfError::IntegerOverflow { description: "Section start page".to_owned() });
        }
        let line = section_line_string(i, sections.len(), title, start);
        let ghost old_lines = string_views(lines@);
        lines.push(line);
        proof {
            assert(string_views(lines@) =~= old_lines.push(line@));
        }
        i = i + 1;
    }
    Ok(lines)
}

/// The lines about the key/value pairs.
#[verifier::loop_isolation(false)]
fn metadata_report(reader: &BbfReader, metadata: &Vec<Metadata>) -> (r: Result<
    Vec<String>,
    BbfError,
>)
    ensures
        r matches Ok(lines) ==> metadata_lines(reader@, metadata@, metadata@.len() as int) == Ok::<
            Seq<Seq<char>>,
            Failure,
        >(string_views(lines@)),
        r matches Err(e) ==> metadata_lines(reader@, metadata@, metadata@.len() as int) == Err::<
            Seq<Seq<char>>,
            Failure,
        >(e@),
{
    let mut lines: Vec<String> = Vec::new();
    let mut k: usize = 0;
    assert(string_views(lines@) =~= Seq::<Seq<char>>::empty());
    while k < metadata.len()
        invariant
            k <= metadata.len(),
            metadata_lines(reader@, metadata@, k as int) == Ok::<Seq<Seq<char>>, Failure>(
                string_views(lines@),
            ),
        decreases metadata.len() - k,
    {
        let key = match reader.get_string(metadata[k].key_offset) {
            Ok(key) => key,
            Err(e) => {
                proof {
                    lemma_metadata_lines_fail(reader@, metadata@, k + 1, metadata@.len() as int);
                }
                return Err(e);
            },
        };
        let value = match reader.get_string(metadata[k].value_offset) {
            Ok(value) => value,
            Err(e) => {
                proof {
                    lemma_metadata_lines_fail(reader@, metadata@, k + 1, metadata@.len() as int);
                }
                return Err(e);
            },
        };
        let line = metadata_line_string(k, metadata.len(), key, value);
        let ghost old_lines = string_views(lines@);
        lines.push(line);
        proof {
            assert(string_views(lines@) =~= old_lines.push(line@));
        }
        k = k + 1;
    }
    Ok(lines)
}

/// Appends `more` to `lines`.
fn push_all(lines: &mut Vec<String>, more: Vec<String>)
    ensures
        string_views(final(lines)@) == string_views(old(lines)@) + string_views(more@),
{
    let mut more = more;
    let ghost added = more@;
    lines.append(&mut more);
    assert(string_views(lines@) =~= string_views(old(lines)@) + string_views(added));
}

/// Appends one line to `lines`.
fn push_line(lines: &mut Vec<String>, line: String)
    ensures
        string_views(final(lines)@) == string_views(old(lines)@) + seq![line@],
{
    lines.push(line);
    assert(string_views(lines@) =~= string_views(old(lines)@) + seq![line@]);
}

/// The lines that `info` prints for the book at `path`.
pub fn info_report(reader: &BbfReader, path: &str) -> (r: Result<Vec<String>, BbfError>)
    ensures
        r matches Ok(lines) ==> info_lines(reader@, path@) == Ok::<Seq<Seq<char>>, Failure>(
            string_views(lines@),
        ),
        r matches Err(e) ==> info_lines(reader@, path@) == Err::<Seq<Seq<char>>, Failure>(e@),
{
    let mut lines = head_report(reader, path);
    let sections = match reader.sections() {
        Ok(sections) => sections,
        Err(e) => {
            return Err(e);
        },
    };
    let section_part = match section_report(reader, &sections) {
        Ok(part) => part,
        Err(e) => {
            return Err(e);
        },
    };
    let metadata = match reader.metadata() {
        Ok(metadata) => metadata,
        Err(e) => {
            return Err(e);
        },
    };
    let metadata_part = match metadata_report(reader, &metadata) {
        Ok(part) => part,
        Err(e) => {
            return Err(e);
        },
    };
    proof {
        reveal_strlit("");
        assert(""@ =~= Seq::<char>::empty());
    }
    push_line(&mut lines, join2("--- Sections: ", decimal_string(sections.len() as u64).as_str()));
    if sections.len() > 0 {
        push_line(&mut lines, String::new());
        push_all(&mut lines, section_part);
    }
    if metadata.len() > 0 {
        push_line(&mut lines, String::new());
        push_line(&mut lines, "--- Metadata:".to_owned());
        push_all(&mut lines, metadata_part);
    }
    push_line(&mut lines, "---".to_owned());
    proof {
        let head = head_lines(reader@, path@);
        let count = seq!["--- Sections: "@ + decimal(sections@.len())];
        let s_part = if sections@.len() > 0 {
            seq![Seq::<char>::empty()] + string_views(section_part@)
        } else {
            Seq::<Seq<char>>::empty()
        };
        let m_part = if metadata@.len() > 0 {
            seq![Seq::<char>::empty(), "--- Metadata:"@] + string_views(metadata_part@)
        } else {
            Seq::<Seq<char>>::empty()
        };
        assert(string_views(lines@) =~= head + count + s_part + m_part + seq!["---"@]);
    }
    Ok(lines)
}

/// Where the lines about the first `k` sections fail, the lines about more
/// of them fail in the same way.
pub proof fn lemma_section_lines_fail(file: ReaderView, sections: Seq<Section>, k: int, n: int)
    requires
        0 < k <= n <= sections.len(),
        section_lines(file, sections, k) is Err,
    ensures
        section_lines(file, sections, n) == section_lines(file, sections, k),
    decreases n - k,
{
    if k < n {
        lemma_section_lines_fail(file, sections, k, n - 1);
    }
}

/// Where the lines about the first `k` key/value pairs fail, the lines
/// about more of them fail in the same way.
pub proof fn lemma_metadata_lines_fail(file: ReaderView, metadata: Seq<Metadata>, k: int, n: int)
    requires
        0 < k <= n <= metadata.len(),
        metadata_lines(file, metadata, k) is Err,
    ensures
        metadata_lines(file, metadata, n) == metadata_lines(file, metadata, k),
    decreases n - k,
{
    if k < n {
        lemma_metadata_lines_fail(file, metadata, k, n - 1);
    }
}

} // verus!
