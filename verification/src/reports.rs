//! What each file tool answers once the application has looked at the file
//! system: the checks on the kind of a path, the reports of `read_file`,
//! `write_file`, `list_dir` and `file_info`, and the local file context
//! handed to the executing model.

use vstd::prelude::*;
use crate::blocks::{parse_write_blocks, write_blocks, FileWriteBlock};
use crate::paths::{checked_existing, checked_target, path_allowed, result_view, AllowedPath};
use crate::preview::{file_preview, preview};
use crate::text::{decimal, decimal_string, join, join_strings, push_str, views};

verus! {

broadcast use vstd::string::group_string_axioms;

// ---------------------------------------------------------------------------
// Kinds of paths
// ---------------------------------------------------------------------------

/// What an existing path is.
#[derive(Clone, Copy, Debug, PartialEq, Eq, Structural)]
pub enum PathKind {
    File,
    Dir,
    Other,
}

/// `path` if it is a file, else the refusal.
pub fn require_file(path: String, is_file: bool) -> (r: Result<String, String>)
    ensures
        is_file ==> result_view(r) == Ok::<Seq<char>, Seq<char>>(path@),
        !is_file ==> result_view(r) == Err::<Seq<char>, Seq<char>>("不是文件: "@ + path@),
{
    if is_file {
        Ok(path)
    } else {
        let mut e = String::from_str("不是文件: ");
        push_str(&mut e, path.as_str());
        Err(e)
    }
}

/// `path` if it is a directory, else the refusal.
pub fn require_dir(path: String, is_dir: bool) -> (r: Result<String, String>)
    ensures
        is_dir ==> result_view(r) == Ok::<Seq<char>, Seq<char>>(path@),
        !is_dir ==> result_view(r) == Err::<Seq<char>, Seq<char>>("不是目录: "@ + path@),
{
    if is_dir {
        Ok(path)
    } else {
        let mut e = String::from_str("不是目录: ");
        push_str(&mut e, path.as_str());
        Err(e)
    }
}

// ---------------------------------------------------------------------------
// read_file
// ---------------------------------------------------------------------------

/// The most bytes one `read_file` call shows.
pub const MAX_READ_BYTES: usize = 122880;

/// Where a read of `length` bytes from `offset` starts in a file of `len`
/// bytes: at `offset`, or at the end when `offset` lies past it.
pub open spec fn read_start(len: nat, offset: u64) -> int {
    if offset < len {
        offset as int
    } else {
        len as int
    }
}

/// Where that read ends: at most `MAX_READ_BYTES` after its start, and not
/// past the end of the file.
pub open spec fn read_end(len: nat, offset: u64, length: u64) -> int {
    let start = read_start(len, offset);
    let want = if length < MAX_READ_BYTES {
        length as int
    } else {
        MAX_READ_BYTES as int
    };
    if start + want < len {
        start + want
    } else {
        len as int
    }
}

/// A read stays inside the file and takes at most `MAX_READ_BYTES` bytes.
pub proof fn law_read_window(len: nat, offset: u64, length: u64)
    ensures
        0 <= read_start(len, offset) <= read_end(len, offset, length) <= len,
        read_end(len, offset, length) - read_start(len, offset) <= MAX_READ_BYTES,
        read_end(len, offset, length) - read_start(len, offset) <= length,
{
}

/// The report of `read_file` on the file shown as `display` with contents
/// `bytes`.
pub open spec fn read_report(display: Seq<char>, bytes: Seq<u8>, offset: u64, length: u64) -> Seq<char> {
    let start = read_start(bytes.len(), offset);
    let end = read_end(bytes.len(), offset, length);
    "path: "@ + display + "\noffset: "@ + decimal(start as nat) + "\nlength: "@ + decimal(
        (end - start) as nat,
    ) + "\n"@ + preview(bytes.subrange(start, end))
}

/// The report of `read_file`: where the read started, how many bytes it
/// took and their preview.
pub fn read_file_report(display: &str, bytes: &[u8], offset: u64, length: u64) -> (s: String)
    ensures
        s@ == read_report(display@, bytes@, offset, length),
{
    let len = bytes.len();
    let start: usize = if offset < len as u64 {
        offset as usize
    } else {
        len
    };
    let room: usize = len - start;
    let mut take: usize = if length < MAX_READ_BYTES as u64 {
        length as usize
    } else {
        MAX_READ_BYTES
    };
    if take > room {
        take = room;
    }
    let end: usize = start + take;
    assert(start == read_start(bytes@.len(), offset));
    assert(end == read_end(bytes@.len(), offset, length));
    let slice = vstd::slice::slice_subrange(bytes, start, end);
    let mut s = String::from_str("path: ");
    push_str(&mut s, display);
    push_str(&mut s, "\noffset: ");
    let a = decimal_string(start as u64);
    push_str(&mut s, a.as_str());
    push_str(&mut s, "\nlength: ");
    let b = decimal_string(take as u64);
    push_str(&mut s, b.as_str());
    push_str(&mut s, "\n");
    let p = file_preview(slice);
    push_str(&mut s, p.as_str());
    s
}

// ---------------------------------------------------------------------------
// write_file
// ---------------------------------------------------------------------------

/// The report of `write_file` after `content` was written to `display`.
pub fn write_file_report(display: &str, content: &str) -> (s: String)
    ensures
        s@ == "已写入 "@ + display@ + "，"@ + decimal(content@.len()) + " 字符"@,
{
    let n = crate::text::chars_of(content).len();
    let mut s = String::from_str("已写入 ");
    push_str(&mut s, display);
    push_str(&mut s, "，");
    let d = decimal_string(n as u64);
    push_str(&mut s, d.as_str());
    push_str(&mut s, " 字符");
    s
}

/// The line that records a file the executing model wrote with a write
/// block.
pub fn write_summary_line(display: &str, content: &str) -> (s: String)
    ensures
        s@ == "已写入 "@ + display@ + " ("@ + decimal(content@.len()) + " 字符)"@,
{
    let n = crate::text::chars_of(content).len();
    let mut s = String::from_str("已写入 ");
    push_str(&mut s, display);
    push_str(&mut s, " (");
    let d = decimal_string(n as u64);
    push_str(&mut s, d.as_str());
    push_str(&mut s, " 字符)");
    s
}

/// The write blocks of an execution result that are to be applied: none
/// when no path is authorised, otherwise every write block, in order.
pub fn write_plan(ai2_result: &str, allowed: &[AllowedPath]) -> (blocks: Vec<FileWriteBlock>)
    ensures
        allowed@.len() == 0 ==> blocks@.len() == 0,
        allowed@.len() > 0 ==> blocks@.len() == write_blocks(ai2_result@).len(),
        allowed@.len() > 0 ==> forall|i: int|
            0 <= i < blocks@.len() ==> (#[trigger] blocks@[i]).path@ == write_blocks(ai2_result@)[i].0
                && blocks@[i].content@ == write_blocks(ai2_result@)[i].1,
{
    if allowed.len() == 0 {
        Vec::new()
    } else {
        parse_write_blocks(ai2_result)
    }
}

/// The target of a write block, from the block's resolved path.
pub open spec fn write_target(normalized: Result<Seq<char>, Seq<char>>, allowed: Seq<AllowedPath>) -> Result<
    Seq<char>,
    Seq<char>,
> {
    match normalized {
        Err(e) => Err(e),
        Ok(p) => if path_allowed(p, allowed) {
            Ok(p)
        } else {
            Err("AI2 尝试写入未授权路径: "@ + p)
        },
    }
}

/// The target of a write block: the resolved path if it is authorised,
/// else the refusal.
pub fn write_block_target(normalized: Result<String, String>, allowed: &[AllowedPath]) -> (r: Result<
    String,
    String,
>)
    ensures
        result_view(r) == write_target(result_view(normalized), allowed@),
{
    match normalized {
        Err(e) => Err(e),
        Ok(p) => {
            if crate::paths::is_path_allowed(p.as_str(), allowed) {
                Ok(p)
            } else {
                let mut e = String::from_str("AI2 尝试写入未授权路径: ");
                push_str(&mut e, p.as_str());
                Err(e)
            }
        },
    }
}

/// The tools touch authorised paths only: a path that the checks let
/// through, to be read, written by a tool or written by a write block, is
/// an authorised file or lies inside an authorised directory; and with no
/// authorised path every check refuses.
pub proof fn law_only_authorised_paths(
    normalized: Result<Seq<char>, Seq<char>>,
    exists: bool,
    allowed: Seq<AllowedPath>,
)
    ensures
        checked_existing(normalized, exists, allowed) matches Ok(p) ==> path_allowed(p, allowed),
        checked_target(normalized, allowed) matches Ok(p) ==> path_allowed(p, allowed),
        write_target(normalized, allowed) matches Ok(p) ==> path_allowed(p, allowed),
        allowed.len() == 0 ==> checked_existing(normalized, exists, allowed) is Err && checked_target(
            normalized,
            allowed,
        ) is Err && write_target(normalized, allowed) is Err,
{
}

// ---------------------------------------------------------------------------
// list_dir
// ---------------------------------------------------------------------------

/// One entry of a directory: its path, whether it is a directory and its
/// size in bytes.
#[derive(Clone, Debug)]
pub struct DirEntryInfo {
    pub path: String,
    pub is_dir: bool,
    pub size: u64,
}

/// The most entries `list_dir` shows.
pub const MAX_LIST_ENTRIES: usize = 200;

/// The row of one directory entry.
pub open spec fn dir_row(e: DirEntryInfo) -> Seq<char> {
    (if e.is_dir {
        "dir"@
    } else {
        "file"@
    }) + "\t"@ + e.path@ + "\t"@ + decimal(e.size as nat) + " bytes"@
}

/// The first `MAX_LIST_ENTRIES` entries.
pub open spec fn listed(entries: Seq<DirEntryInfo>) -> Seq<DirEntryInfo> {
    if entries.len() <= MAX_LIST_ENTRIES {
        entries
    } else {
        entries.take(MAX_LIST_ENTRIES as int)
    }
}

/// The report of `list_dir`: one row per entry, for the first entries.
pub open spec fn list_report(entries: Seq<DirEntryInfo>) -> Seq<char> {
    join(listed(entries).map_values(|e: DirEntryInfo| dir_row(e)), "\n"@)
}

fn dir_row_string(e: &DirEntryInfo) -> (s: String)
    ensures
        s@ == dir_row(*e),
{
    let mut s = if e.is_dir {
        String::from_str("dir")
    } else {
        String::from_str("file")
    };
    push_str(&mut s, "\t");
    push_str(&mut s, e.path.as_str());
    push_str(&mut s, "\t");
    let d = decimal_string(e.size);
    push_str(&mut s, d.as_str());
    push_str(&mut s, " bytes");
    s
}

/// The report of `list_dir` on a directory with the given entries.
pub fn list_dir_report(entries: &[DirEntryInfo]) -> (s: String)
    ensures
        s@ == list_report(entries@),
{
    let n: usize = if entries.len() <= MAX_LIST_ENTRIES {
        entries.len()
    } else {
        MAX_LIST_ENTRIES
    };
    let ghost shown = listed(entries@);
    assert(shown.len() == n);
    let mut rows: Vec<String> = Vec::new();
    let mut i: usize = 0;
    while i < n
        invariant
            i <= n <= entries@.len(),
            shown == listed(entries@),
            shown.len() == n,
            forall|j: int| 0 <= j < n ==> shown[j] == entries@[j],
            rows@.len() == i,
            forall|j: int| 0 <= j < i ==> (#[trigger] rows@[j])@ == dir_row(shown[j]),
        decreases n - i,
    {
        let r = dir_row_string(&entries[i]);
        rows.push(r);
        i += 1;
    }
    assert(views(rows@) == shown.map_values(|e: DirEntryInfo| dir_row(e)));
    join_strings(rows.as_slice(), "\n")
}

// ---------------------------------------------------------------------------
// file_info
// ---------------------------------------------------------------------------

/// What `file_info` does with an existing path.
#[derive(Clone, Debug)]
pub enum FileInfoStep {
    /// Summarise the file.
    Summarize,
    /// List the directory.
    ListDir,
    /// Answer with this text.
    Answer(String),
}

/// `file_info` on an existing path of the given kind: a file is
/// summarised, a directory listed, anything else named as such.
pub fn tool_file_info(path: &str, kind: PathKind) -> (s: FileInfoStep)
    ensures
        kind == PathKind::File ==> s is Summarize,
        kind == PathKind::Dir ==> s is ListDir,
        kind == PathKind::Other ==> (s matches FileInfoStep::Answer(t) && t@ == "其他路径类型: "@ + path@),
{
    match kind {
        PathKind::File => FileInfoStep::Summarize,
        PathKind::Dir => FileInfoStep::ListDir,
        PathKind::Other => {
            let mut t = String::from_str("其他路径类型: ");
            push_str(&mut t, path);
            FileInfoStep::Answer(t)
        },
    }
}

// ---------------------------------------------------------------------------
// Local file context
// ---------------------------------------------------------------------------

/// The opening section of the local file context.
pub const LOCAL_CONTEXT_HEADER: &'static str = "AI2 本地文件权限已启用：下面的“本地文件上下文”是后端已经从用户授权路径读取到的真实文件信息。不要再声称没有文件读取能力；如果信息不足，只能说明缺少哪一类进一步解析能力。若需要改写文件，请在回复中输出一个或多个写入块：\n<write_file path=\"绝对路径\">\n文件完整内容\n</write_file>\n后端只会写入授权路径内的文件。";

/// The opening section of the local file context, as characters.
pub open spec fn context_header() -> Seq<char> {
    LOCAL_CONTEXT_HEADER@
}

/// One entry of an authorised directory, as read by the application.
#[derive(Clone, Debug)]
pub enum ContextEntry {
    /// A file, with its summary.
    File(String),
    /// A directory, shown as this path.
    Dir(String),
    /// Anything else, shown as this path.
    Other(String),
}

/// One authorised path, as read by the application.
#[derive(Clone, Debug)]
pub enum ContextItem {
    /// A file, with its summary.
    File(String),
    /// A directory shown as `display`, with its entries in listing order.
    Dir { display: String, entries: Vec<ContextEntry> },
    /// A path that does not exist, shown as this path.
    Missing(String),
}

/// The most entries of one directory the context shows.
pub const MAX_CONTEXT_ENTRIES: usize = 50;

/// The line of one directory entry.
pub open spec fn entry_text(e: ContextEntry) -> Seq<char> {
    match e {
        ContextEntry::File(s) => s@,
        ContextEntry::Dir(d) => "[目录] "@ + d@,
        ContextEntry::Other(d) => "[其他] "@ + d@,
    }
}

/// The entries a directory section shows: the first `MAX_CONTEXT_ENTRIES`.
pub open spec fn shown_entries(entries: Seq<ContextEntry>) -> Seq<ContextEntry> {
    if entries.len() <= MAX_CONTEXT_ENTRIES {
        entries
    } else {
        entries.take(MAX_CONTEXT_ENTRIES as int)
    }
}

/// The section of a directory.
pub open spec fn dir_section(display: Seq<char>, entries: Seq<ContextEntry>) -> Seq<char> {
    "授权目录: "@ + display + "\n"@ + join(shown_entries(entries).map_values(|e: ContextEntry| entry_text(e)), "\n"@)
}

/// The sections of the context for the given items, after the header; the
/// first missing path makes it an error.
pub open spec fn context_sections(items: Seq<ContextItem>) -> Result<Seq<Seq<char>>, Seq<char>>
    decreases items.len(),
{
    if items.len() == 0 {
        Ok(seq![context_header()])
    } else {
        match context_sections(items.drop_last()) {
            Err(e) => Err(e),
            Ok(s) => match items.last() {
                ContextItem::File(summary) => Ok(s.push(summary@)),
                ContextItem::Dir { display, entries } => Ok(s.push(dir_section(display@, entries@))),
                ContextItem::Missing(d) => Err("授权路径不存在: "@ + d@),
            },
        }
    }
}

/// The local file context for the authorised paths: nothing when there are
/// none, else the header and one section per path, separated by blank
/// lines; a path that does not exist is an error.
pub open spec fn local_context(items: Seq<ContextItem>) -> Result<Seq<char>, Seq<char>> {
    if items.len() == 0 {
        Ok(Seq::empty())
    } else {
        match context_sections(items) {
            Ok(s) => Ok(join(s, "\n\n"@)),
            Err(e) => Err(e),
        }
    }
}

fn dir_section_string(display: &str, entries: &[ContextEntry]) -> (s: String)
    ensures
        s@ == dir_section(display@, entries@),
{
    let n: usize = if entries.len() <= MAX_CONTEXT_ENTRIES {
        entries.len()
    } else {
        MAX_CONTEXT_ENTRIES
    };
    let ghost shown = shown_entries(entries@);
    let mut lines: Vec<String> = Vec::new();
    let mut i: usize = 0;
    while i < n
        invariant
            i <= n <= entries@.len(),
            shown == shown_entries(entries@),
            shown.len() == n,
            forall|j: int| 0 <= j < n ==> shown[j] == entries@[j],
            lines@.len() == i,
            forall|j: int| 0 <= j < i ==> (#[trigger] lines@[j])@ == entry_text(shown[j]),
        decreases n - i,
    {
        let line = match &entries[i] {
            ContextEntry::File(s) => s.clone(),
            ContextEntry::Dir(d) => {
                let mut t = String::from_str("[目录] ");
                push_str(&mut t, d.as_str());
                t
            },
            ContextEntry::Other(d) => {
                let mut t = String::from_str("[其他] ");
                push_str(&mut t, d.as_str());
                t
            },
        };
        lines.push(line);
        i += 1;
    }
    assert(views(lines@) == shown.map_values(|e: ContextEntry| entry_text(e)));
    let body = join_strings(lines.as_slice(), "\n");
    let mut s = String::from_str("授权目录: ");
    push_str(&mut s, display);
    push_str(&mut s, "\n");
    push_str(&mut s, body.as_str());
    s
}

/// The local file context built from what the application read of each
/// authorised path, in order.
pub fn local_file_context(items: &[ContextItem]) -> (r: Result<String, String>)
    ensures
        result_view(r) == local_context(items@),
{
    if items.len() == 0 {
        return Ok(String::new());
    }
    let mut sections: Vec<String> = Vec::new();
    sections.push(String::from_str(LOCAL_CONTEXT_HEADER));
    assert(items@.take(0) == Seq::<ContextItem>::empty());
    assert(views(sections@) == seq![context_header()]);
    let mut i: usize = 0;
    while i < items.len()
        invariant
            i <= items@.len(),
            context_sections(items@.take(i as int)) == Ok::<Seq<Seq<char>>, Seq<char>>(views(sections@)),
        decreases items.len() - i,
    {
        let ghost before = views(sections@);
        proof {
            assert(items@.take(i + 1).drop_last() == items@.take(i as int));
            assert(items@.take(i + 1).last() == items@[i as int]);
        }
        match &items[i] {
            ContextItem::File(summary) => {
                sections.push(summary.clone());
            },
            ContextItem::Dir { display, entries } => {
                let sec = dir_section_string(display.as_str(), entries.as_slice());
                sections.push(sec);
            },
            ContextItem::Missing(d) => {
                proof {
                    lemma_sections_error_persists(items@, i as int + 1);
                }
                let mut e = String::from_str("授权路径不存在: ");
                push_str(&mut e, d.as_str());
                return Err(e);
            },
        }
        proof {
            assert(views(sections@) == before.push(sections@.last()@));
        }
        i += 1;
    }
    assert(items@.take(items.len() as int) == items@);
    Ok(join_strings(sections.as_slice(), "\n\n"))
}

/// Once the sections of a prefix are an error, so are those of every longer
/// prefix, with the same error.
proof fn lemma_sections_error_persists(items: Seq<ContextItem>, k: int)
    requires
        0 <= k <= items.len(),
        context_sections(items.take(k)) is Err,
    ensures
        context_sections(items) == context_sections(items.take(k)),
    decreases items.len() - k,
{
    if k == items.len() {
        assert(items.take(k) == items);
    } else {
        assert(items.take(k + 1).drop_last() == items.take(k));
        lemma_sections_error_persists(items, k + 1);
    }
}

} // verus!
