//! The file tools of the executing model: which tool a call asks for and
//! with which arguments. The file system itself is read and written by the
//! application; what each tool answers is in `reports` and `search`.

use vstd::prelude::*;
use crate::blocks::Ai2ToolCall;
use crate::json::{json_str_field, json_string_member, json_u64_field, json_u64_member};
use crate::paths::AllowedPath;
use crate::text::{push_str, trim};

verus! {

broadcast use vstd::string::group_string_axioms;

// ---------------------------------------------------------------------------
// Arguments
// ---------------------------------------------------------------------------

/// The error for a missing string argument.
pub open spec fn missing_arg_error(key: Seq<char>) -> Seq<char> {
    "工具参数缺少字符串字段: "@ + key
}

/// The string argument `key` of a JSON argument text: present and not blank.
pub open spec fn string_arg(args: Seq<char>, key: Seq<char>) -> Result<Seq<char>, Seq<char>> {
    match json_str_field(args, key) {
        Some(v) => if trim(v).len() > 0 {
            Ok(v)
        } else {
            Err(missing_arg_error(key))
        },
        None => Err(missing_arg_error(key)),
    }
}

/// The string argument `key`, which must be present and not blank.
pub fn arg_string(args: &str, key: &str) -> (r: Result<String, String>)
    ensures
        crate::paths::result_view(r) == string_arg(args@, key@),
{
    match json_string_member(args, key) {
        Some(v) => {
            if !crate::text::is_blank(v.as_str()) {
                return Ok(v);
            }
        },
        None => {},
    }
    let mut e = String::from_str("工具参数缺少字符串字段: ");
    push_str(&mut e, key);
    Err(e)
}

/// The path argument `key`: a string argument.
pub fn arg_path(args: &str, key: &str) -> (r: Result<String, String>)
    ensures
        crate::paths::result_view(r) == string_arg(args@, key@),
{
    arg_string(args, key)
}

/// The unsigned integer argument `key`, if present.
pub fn arg_u64(args: &str, key: &str) -> (r: Option<u64>)
    ensures
        r == json_u64_field(args@, key@),
{
    json_u64_member(args, key)
}

// ---------------------------------------------------------------------------
// Dispatch
// ---------------------------------------------------------------------------

/// A tool run the executing model asked for.
#[derive(Clone, Debug)]
pub enum ToolRequest {
    ListDir { path: String },
    ReadFile { path: String, offset: u64, length: u64 },
    WriteFile { path: String, content: String },
    FileInfo { path: String },
    SearchFiles { root: String, query: String },
    Grep { root: String, query: String },
    AnalyzePeBasic { path: String },
}

/// A tool request, with texts as character sequences.
pub enum ToolRequestView {
    ListDir { path: Seq<char> },
    ReadFile { path: Seq<char>, offset: u64, length: u64 },
    WriteFile { path: Seq<char>, content: Seq<char> },
    FileInfo { path: Seq<char> },
    SearchFiles { root: Seq<char>, query: Seq<char> },
    Grep { root: Seq<char>, query: Seq<char> },
    AnalyzePeBasic { path: Seq<char> },
}

impl View for ToolRequest {
    type V = ToolRequestView;

    open spec fn view(&self) -> ToolRequestView {
        match self {
            ToolRequest::ListDir { path } => ToolRequestView::ListDir { path: path@ },
            ToolRequest::ReadFile { path, offset, length } => ToolRequestView::ReadFile {
                path: path@,
                offset: *offset,
                length: *length,
            },
            ToolRequest::WriteFile { path, content } => ToolRequestView::WriteFile {
                path: path@,
                content: content@,
            },
            ToolRequest::FileInfo { path } => ToolRequestView::FileInfo { path: path@ },
            ToolRequest::SearchFiles { root, query } => ToolRequestView::SearchFiles {
                root: root@,
                query: query@,
            },
            ToolRequest::Grep { root, query } => ToolRequestView::Grep { root: root@, query: query@ },
            ToolRequest::AnalyzePeBasic { path } => ToolRequestView::AnalyzePeBasic { path: path@ },
        }
    }
}

/// The refusal when no path is authorised.
pub open spec fn no_paths_error() -> Seq<char> {
    "用户还没有授权任何本地路径。请先在设置中选择文件或目录。"@
}

/// The most bytes `read_file` returns by default.
pub const DEFAULT_READ_LENGTH: u64 = 61440;

/// The request a tool call makes, or why it cannot be made.
pub open spec fn tool_request(name: Seq<char>, args: Seq<char>) -> Result<ToolRequestView, Seq<char>> {
    if name == "list_dir"@ {
        match string_arg(args, "path"@) {
            Ok(p) => Ok(ToolRequestView::ListDir { path: p }),
            Err(e) => Err(e),
        }
    } else if name == "read_file"@ {
        match string_arg(args, "path"@) {
            Ok(p) => Ok(
                ToolRequestView::ReadFile {
                    path: p,
                    offset: match json_u64_field(args, "offset"@) {
                        Some(o) => o,
                        None => 0,
                    },
                    length: match json_u64_field(args, "length"@) {
                        Some(l) => l,
                        None => DEFAULT_READ_LENGTH,
                    },
                },
            ),
            Err(e) => Err(e),
        }
    } else if name == "write_file"@ {
        match string_arg(args, "path"@) {
            Ok(p) => match string_arg(args, "content"@) {
                Ok(c) => Ok(ToolRequestView::WriteFile { path: p, content: c }),
                Err(e) => Err(e),
            },
            Err(e) => Err(e),
        }
    } else if name == "file_info"@ {
        match string_arg(args, "path"@) {
            Ok(p) => Ok(ToolRequestView::FileInfo { path: p }),
            Err(e) => Err(e),
        }
    } else if name == "search_files"@ {
        match string_arg(args, "root"@) {
            Ok(r) => match string_arg(args, "query"@) {
                Ok(q) => Ok(ToolRequestView::SearchFiles { root: r, query: q }),
                Err(e) => Err(e),
            },
            Err(e) => Err(e),
        }
    } else if name == "grep"@ {
        match string_arg(args, "root"@) {
            Ok(r) => match string_arg(args, "query"@) {
                Ok(q) => Ok(ToolRequestView::Grep { root: r, query: q }),
                Err(e) => Err(e),
            },
            Err(e) => Err(e),
        }
    } else if name == "analyze_pe_basic"@ {
        match string_arg(args, "path"@) {
            Ok(p) => Ok(ToolRequestView::AnalyzePeBasic { path: p }),
            Err(e) => Err(e),
        }
    } else {
        Err("未知工具: "@ + name)
    }
}

/// The view of a request result.
pub open spec fn request_view(r: Result<ToolRequest, String>) -> Result<ToolRequestView, Seq<char>> {
    match r {
        Ok(t) => Ok(t@),
        Err(e) => Err(e@),
    }
}

/// The tool run a call asks for: refused when no path is authorised, when
/// the tool is unknown or when a required argument is missing or blank.
pub fn execute_ai2_tool(call: &Ai2ToolCall, allowed: &[AllowedPath]) -> (r: Result<ToolRequest, String>)
    ensures
        allowed@.len() == 0 ==> request_view(r) == Err::<ToolRequestView, Seq<char>>(no_paths_error()),
        allowed@.len() > 0 ==> request_view(r) == tool_request(call.name@, call.args@),
{
    if allowed.len() == 0 {
        return Err(String::from_str("用户还没有授权任何本地路径。请先在设置中选择文件或目录。"));
    }
    let args = call.args.as_str();
    let name = &call.name;
    if *name == String::from_str("list_dir") {
        let p = arg_path(args, "path")?;
        Ok(ToolRequest::ListDir { path: p })
    } else if *name == String::from_str("read_file") {
        let p = arg_path(args, "path")?;
        let offset = match arg_u64(args, "offset") {
            Some(o) => o,
            None => 0,
        };
        let length = match arg_u64(args, "length") {
            Some(l) => l,
            None => DEFAULT_READ_LENGTH,
        };
        Ok(ToolRequest::ReadFile { path: p, offset, length })
    } else if *name == String::from_str("write_file") {
        let p = arg_path(args, "path")?;
        let c = arg_string(args, "content")?;
        Ok(ToolRequest::WriteFile { path: p, content: c })
    } else if *name == String::from_str("file_info") {
        let p = arg_path(args, "path")?;
        Ok(ToolRequest::FileInfo { path: p })
    } else if *name == String::from_str("search_files") {
        let r = arg_path(args, "root")?;
        let q = arg_string(args, "query")?;
        Ok(ToolRequest::SearchFiles { root: r, query: q })
    } else if *name == String::from_str("grep") {
        let r = arg_path(args, "root")?;
        let q = arg_string(args, "query")?;
        Ok(ToolRequest::Grep { root: r, query: q })
    } else if *name == String::from_str("analyze_pe_basic") {
        let p = arg_path(args, "path")?;
        Ok(ToolRequest::AnalyzePeBasic { path: p })
    } else {
        let mut e = String::from_str("未知工具: ");
        push_str(&mut e, name.as_str());
        Err(e)
    }
}

} // verus!
