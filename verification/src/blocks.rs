//! Blocks that the executing model writes into its replies: tool calls
//! (`<tool_call name="...">args</tool_call>`) and file writes
//! (`<write_file path="...">content</write_file>`).

use vstd::prelude::*;
use crate::json::{json_is_valid, json_parses};
use crate::text::{
    chars_of, contains, find_chars_from, find_from, is_whitespace, lemma_find_from, occurs_at, strip,
    strip_bounds, strip_end, strip_start, string_of_range, strips, trim, Strip,
};

verus! {

broadcast use vstd::string::group_string_axioms;

/// The text that closes a block header.
pub open spec fn header_close() -> Seq<char> {
    "\">"@
}

/// The raw (header, body) pairs of the blocks opened by `open` and closed by
/// `close`, scanning `s` from position `pos`: each block starts at the next
/// occurrence of `open`, its header runs to the next `">`, its body to the
/// next `close`; scanning stops at the first block that is not complete.
pub open spec fn tagged_blocks(s: Seq<char>, open: Seq<char>, close: Seq<char>, pos: int) -> Seq<
    (Seq<char>, Seq<char>),
>
    decreases s.len() - pos,
{
    if pos < 0 {
        Seq::empty()
    } else {
        match find_from(s, open, pos) {
            None => Seq::empty(),
            Some(a) => {
                let h = a + open.len();
                match find_from(s, header_close(), h) {
                    None => Seq::empty(),
                    Some(he) => {
                        let b = he + 2;
                        match find_from(s, close, b) {
                            None => Seq::empty(),
                            Some(be) => {
                                proof {
                                    lemma_find_from(s, open, pos);
                                    lemma_find_from(s, header_close(), h);
                                    lemma_find_from(s, close, b);
                                }
                                seq![(s.subrange(h, he), s.subrange(b, be))] + tagged_blocks(
                                    s,
                                    open,
                                    close,
                                    be + close.len(),
                                )
                            },
                        }
                    },
                }
            },
        }
    }
}

/// One block found by the scanner: header and body, as positions in the
/// scanned text, and where scanning resumes.
struct RawBlock {
    head_start: usize,
    head_end: usize,
    body_start: usize,
    body_end: usize,
    next: usize,
}

/// The next complete block at or after `pos`.
fn next_block(s: &[char], open: &[char], close: &[char], pos: usize) -> (r: Option<RawBlock>)
    ensures
        match r {
            None => tagged_blocks(s@, open@, close@, pos as int).len() == 0,
            Some(blk) => {
                &&& pos < blk.next <= s.len()
                &&& blk.head_start <= blk.head_end <= blk.body_start <= blk.body_end <= s.len()
                &&& tagged_blocks(s@, open@, close@, pos as int) == seq![
                    (
                        s@.subrange(blk.head_start as int, blk.head_end as int),
                        s@.subrange(blk.body_start as int, blk.body_end as int),
                    ),
                ] + tagged_blocks(s@, open@, close@, blk.next as int)
            },
        },
{
    let hc = chars_of("\">");
    let n = s.len();
    proof {
        reveal_strlit("\">");
    }
    assert(hc@.len() == 2);
    proof {
        lemma_find_from(s@, open@, pos as int);
    }
    let a = match find_chars_from(s, open, pos) {
        None => return None,
        Some(a) => a,
    };
    assert(find_from(s@, open@, pos as int) == Some(a as int));
    assert(occurs_at(s@, open@, a as int));
    let h = a + open.len();
    proof {
        lemma_find_from(s@, hc@, h as int);
    }
    let he = match find_chars_from(s, &hc, h) {
        None => return None,
        Some(he) => he,
    };
    assert(find_from(s@, hc@, h as int) == Some(he as int));
    assert(occurs_at(s@, hc@, he as int));
    let b = he + 2;
    proof {
        lemma_find_from(s@, close@, b as int);
    }
    let be = match find_chars_from(s, close, b) {
        None => return None,
        Some(be) => be,
    };
    Some(RawBlock { head_start: h, head_end: he, body_start: b, body_end: be, next: be + close.len() })
}

// ---------------------------------------------------------------------------
// File writes
// ---------------------------------------------------------------------------

/// A file the executing model asks to write.
#[derive(Clone, Debug)]
pub struct FileWriteBlock {
    pub path: String,
    pub content: String,
}

/// The opening text of a write block.
pub open spec fn write_open() -> Seq<char> {
    "<write_file path=\""@
}

/// The closing text of a write block.
pub open spec fn write_close() -> Seq<char> {
    "</write_file>"@
}

/// The (path, content) pairs of the write blocks of `input`: the path is the
/// trimmed header, the content the body without leading and trailing line
/// feeds.
pub open spec fn write_blocks(input: Seq<char>) -> Seq<(Seq<char>, Seq<char>)> {
    tagged_blocks(input, write_open(), write_close(), 0).map_values(
        |p: (Seq<char>, Seq<char>)| (trim(p.0), strip(p.1, Strip::Newline)),
    )
}

/// The write blocks of a reply, in order.
pub fn parse_write_blocks(input: &str) -> (blocks: Vec<FileWriteBlock>)
    ensures
        blocks@.len() == write_blocks(input@).len(),
        forall|i: int|
            0 <= i < blocks@.len() ==> (#[trigger] blocks@[i]).path@ == write_blocks(input@)[i].0
                && blocks@[i].content@ == write_blocks(input@)[i].1,
{
    let s = chars_of(input);
    let open = chars_of("<write_file path=\"");
    let close = chars_of("</write_file>");
    let ghost all = tagged_blocks(s@, open@, close@, 0);
    let ghost mut done: Seq<(Seq<char>, Seq<char>)> = Seq::empty();
    let mut blocks: Vec<FileWriteBlock> = Vec::new();
    let mut pos: usize = 0;
    loop
        invariant
            pos <= s.len(),
            all == done + tagged_blocks(s@, open@, close@, pos as int),
            done.len() == blocks@.len(),
            forall|i: int|
                0 <= i < blocks@.len() ==> (#[trigger] blocks@[i]).path@ == trim(done[i].0)
                    && blocks@[i].content@ == strip(done[i].1, Strip::Newline),
        ensures
            tagged_blocks(s@, open@, close@, pos as int).len() == 0,
        decreases s.len() - pos,
    {
        match next_block(&s, &open, &close, pos) {
            None => break,
            Some(blk) => {
                let ghost rest = tagged_blocks(s@, open@, close@, pos as int);
                let (hs, he) = strip_bounds(&s, blk.head_start, blk.head_end, Strip::Whitespace);
                let (bs, be) = strip_bounds(&s, blk.body_start, blk.body_end, Strip::Newline);
                let path = string_of_range(&s, hs, he);
                let content = string_of_range(&s, bs, be);
                proof {
                    let pair = (s@.subrange(blk.head_start as int, blk.head_end as int), s@.subrange(blk.body_start as int, blk.body_end as int));
                    assert(done + rest == done.push(pair) + tagged_blocks(s@, open@, close@, blk.next as int));
                    done = done.push(pair);
                }
                blocks.push(FileWriteBlock { path, content });
                pos = blk.next;
            },
        }
    }
    assert(done + tagged_blocks(s@, open@, close@, pos as int) == done);
    blocks
}

/// The write block, in the documented form, that asks for `content` to be
/// written to `path`.
pub open spec fn write_block_text(path: Seq<char>, content: Seq<char>) -> Seq<char> {
    write_open() + path + "\">\n"@ + content + "\n"@ + write_close()
}

/// The first occurrence at or after `from` is the one at `i` when none
/// comes between.
proof fn lemma_find_from_at(hay: Seq<char>, needle: Seq<char>, from: int, i: int)
    requires
        0 <= from <= i,
        occurs_at(hay, needle, i),
        forall|j: int| from <= j < i ==> !occurs_at(hay, needle, j),
    ensures
        find_from(hay, needle, from) == Some(i),
{
    lemma_find_from(hay, needle, from);
}

/// Line feeds around a text that neither starts nor ends with a character
/// the strip removes are stripped off exactly.
proof fn lemma_strip_around(c: Seq<char>, cls: Strip)
    requires
        strips(cls, '\n'),
        c.len() == 0 || (!strips(cls, c[0]) && !strips(cls, c.last())),
    ensures
        strip(seq!['\n'] + c + seq!['\n'], cls) == c,
{
    let body = seq!['\n'] + c + seq!['\n'];
    assert(body.drop_first() == c + seq!['\n']);
    let tail = c + seq!['\n'];
    if c.len() == 0 {
        assert(tail == seq!['\n']);
        assert(tail[0] == '\n');
        let rest = tail.drop_first();
        assert(rest.len() == 0);
        assert(strip_start(rest, cls) == rest);
        assert(strip_start(tail, cls) == strip_start(rest, cls));
        assert(strip_start(body, cls).len() == 0);
    } else {
        assert(tail[0] == c[0]);
        assert(strip_start(tail, cls) == tail);
        assert(tail.drop_last() == c);
        assert(strip_end(c, cls) == c);
    }
}

/// A text made of one block, `open`, a header, `">`, a line feed, a body,
/// a line feed and `close`, scans as that one block.
proof fn lemma_single_block(open: Seq<char>, close: Seq<char>, head: Seq<char>, c: Seq<char>)
    requires
        open.len() > 0,
        close.len() > 0,
        forall|k: int| 0 <= k < close.len() ==> close[k] != '\n',
        !contains(head, header_close()),
        !contains(c, close),
    ensures
        tagged_blocks(open + head + "\">\n"@ + c + "\n"@ + close, open, close, 0) == seq![
            (head, seq!['\n'] + c + seq!['\n']),
        ],
{
    reveal_strlit("\">");
    reveal_strlit("\">\n");
    reveal_strlit("\n");
    let hc = header_close();
    let s = open + head + "\">\n"@ + c + "\n"@ + close;
    let h = open.len() as int;
    let he = h + head.len();
    let b = he + 2;
    let be = b + 1 + c.len() + 1;
    let end = be + close.len();
    assert(s.len() == end);
    let body = seq!['\n'] + c + seq!['\n'];
    assert(s.subrange(0, h) == open);
    assert(s.subrange(h, he) == head);
    assert(s.subrange(he, he + 2) == hc);
    assert(s.subrange(b, be) == body);
    assert(s.subrange(be, end) == close);
    assert(s[he] == '"');
    assert(s[b] == '\n');
    assert(s[be - 1] == '\n');
    assert(occurs_at(s, open, 0));
    assert(find_from(s, open, 0) == Some(0int));
    assert forall|j: int| h <= j < he implies !occurs_at(s, hc, j) by {
        if occurs_at(s, hc, j) {
            if j + 2 <= he {
                assert(s.subrange(j, j + 2) == head.subrange(j - h, j - h + 2));
                assert(occurs_at(head, hc, j - h));
            } else {
                assert(s[j + 1] == hc[1]);
            }
        }
    }
    assert(occurs_at(s, hc, he));
    lemma_find_from_at(s, hc, h, he);
    assert forall|j: int| b <= j < be implies !occurs_at(s, close, j) by {
        if occurs_at(s, close, j) {
            if j + close.len() <= be - 1 && j > b {
                assert(s.subrange(j, j + close.len()) == c.subrange(j - b - 1, j - b - 1 + close.len()));
                assert(occurs_at(c, close, j - b - 1));
            } else if j == b {
                assert(s.subrange(j, j + close.len())[0] == s[b]);
                assert(s[b] == close[0]);
            } else {
                assert(s[be - 1] == close[be - 1 - j]);
            }
        }
    }
    assert(occurs_at(s, close, be));
    lemma_find_from_at(s, close, b, be);
    assert(find_from(s, open, end) is None);
    assert(tagged_blocks(s, open, close, end).len() == 0);
}

/// A reply that is one write block in the documented form gives back the
/// path and the content it was written with, when the path is trimmed and
/// holds no `">`, and the content holds no closing tag and neither starts
/// nor ends with a line feed.
pub proof fn law_write_block_round_trip(path: Seq<char>, content: Seq<char>)
    requires
        trim(path) == path,
        !contains(path, header_close()),
        !contains(content, write_close()),
        content.len() == 0 || (content[0] != '\n' && content.last() != '\n'),
    ensures
        write_blocks(write_block_text(path, content)) == seq![(path, content)],
{
    reveal_strlit("<write_file path=\"");
    reveal_strlit("</write_file>");
    assert forall|k: int| 0 <= k < write_close().len() implies write_close()[k] != '\n' by {}
    lemma_single_block(write_open(), write_close(), path, content);
    lemma_strip_around(content, Strip::Newline);
}

/// The tool block, in the documented form, that calls `name` with the JSON
/// arguments `args`.
pub open spec fn tool_block_text(name: Seq<char>, args: Seq<char>) -> Seq<char> {
    tool_open() + name + "\">\n"@ + args + "\n"@ + tool_close()
}

/// A reply that is one tool block in the documented form gives back the
/// call it was written with when its arguments parse as JSON, and no call
/// otherwise; the name is trimmed and holds no `">`, the arguments hold no
/// closing tag and neither start nor end with whitespace.
pub proof fn law_tool_block_round_trip(name: Seq<char>, args: Seq<char>)
    requires
        trim(name) == name,
        !contains(name, header_close()),
        !contains(args, tool_close()),
        args.len() == 0 || (!is_whitespace(args[0]) && !is_whitespace(args.last())),
    ensures
        tool_calls(tool_block_text(name, args)) == if json_parses(args) {
            seq![(name, args)]
        } else {
            Seq::empty()
        },
{
    reveal_strlit("<tool_call name=\"");
    reveal_strlit("</tool_call>");
    assert forall|k: int| 0 <= k < tool_close().len() implies tool_close()[k] != '\n' by {}
    lemma_single_block(tool_open(), tool_close(), name, args);
    lemma_strip_around(args, Strip::Whitespace);
    let cands = tool_blocks(tool_block_text(name, args));
    assert(cands == seq![(name, args)]);
    let flags = parse_flags(cands);
    assert(flags[0] == json_parses(args));
    assert(cands.drop_last().len() == 0);
    assert(flagged(cands.drop_last(), flags) == Seq::<(Seq<char>, Seq<char>)>::empty());
    if json_parses(args) {
        assert(Seq::<(Seq<char>, Seq<char>)>::empty().push((name, args)) == seq![(name, args)]);
    }
}

// ---------------------------------------------------------------------------
// Tool calls
// ---------------------------------------------------------------------------

/// A tool the executing model asks to run, with its JSON arguments as text.
#[derive(Clone, Debug)]
pub struct Ai2ToolCall {
    pub name: String,
    /// The JSON object of arguments, as written between the tags (trimmed).
    pub args: String,
}

/// The opening text of a tool block.
pub open spec fn tool_open() -> Seq<char> {
    "<tool_call name=\""@
}

/// The closing text of a tool block.
pub open spec fn tool_close() -> Seq<char> {
    "</tool_call>"@
}

/// The (name, arguments) pairs of all tool blocks of `input`, both trimmed,
/// whether or not the arguments are valid JSON.
pub open spec fn tool_blocks(input: Seq<char>) -> Seq<(Seq<char>, Seq<char>)> {
    tagged_blocks(input, tool_open(), tool_close(), 0).map_values(
        |p: (Seq<char>, Seq<char>)| (trim(p.0), trim(p.1)),
    )
}

/// The candidates whose flag is set, in order.
pub open spec fn flagged(cands: Seq<(Seq<char>, Seq<char>)>, flags: Seq<bool>) -> Seq<
    (Seq<char>, Seq<char>),
>
    decreases cands.len(),
{
    if cands.len() == 0 {
        Seq::empty()
    } else if flags.len() >= cands.len() && flags[cands.len() - 1] {
        flagged(cands.drop_last(), flags).push(cands.last())
    } else {
        flagged(cands.drop_last(), flags)
    }
}

/// The flags saying which candidates' arguments parse as JSON.
pub open spec fn parse_flags(cands: Seq<(Seq<char>, Seq<char>)>) -> Seq<bool> {
    cands.map_values(|p: (Seq<char>, Seq<char>)| json_parses(p.1))
}

/// The tool calls of a reply: the tool blocks whose arguments parse as JSON.
pub open spec fn tool_calls(input: Seq<char>) -> Seq<(Seq<char>, Seq<char>)> {
    flagged(tool_blocks(input), parse_flags(tool_blocks(input)))
}

/// The views of tool calls.
pub open spec fn call_views(calls: Seq<Ai2ToolCall>) -> Seq<(Seq<char>, Seq<char>)> {
    calls.map_values(|c: Ai2ToolCall| (c.name@, c.args@))
}

/// All tool blocks of a reply, in order, whether or not their arguments are
/// valid JSON.
pub fn scan_tool_blocks(input: &str) -> (calls: Vec<Ai2ToolCall>)
    ensures
        call_views(calls@) == tool_blocks(input@),
{
    let s = chars_of(input);
    let open = chars_of("<tool_call name=\"");
    let close = chars_of("</tool_call>");
    let ghost all = tagged_blocks(s@, open@, close@, 0);
    let ghost mut done: Seq<(Seq<char>, Seq<char>)> = Seq::empty();
    let mut calls: Vec<Ai2ToolCall> = Vec::new();
    let mut pos: usize = 0;
    loop
        invariant
            pos <= s.len(),
            all == done + tagged_blocks(s@, open@, close@, pos as int),
            done.len() == calls@.len(),
            forall|i: int|
                0 <= i < calls@.len() ==> (#[trigger] calls@[i]).name@ == trim(done[i].0)
                    && calls@[i].args@ == trim(done[i].1),
        ensures
            tagged_blocks(s@, open@, close@, pos as int).len() == 0,
        decreases s.len() - pos,
    {
        match next_block(&s, &open, &close, pos) {
            None => break,
            Some(blk) => {
                let ghost rest = tagged_blocks(s@, open@, close@, pos as int);
                let (hs, he) = strip_bounds(&s, blk.head_start, blk.head_end, Strip::Whitespace);
                let (bs, be) = strip_bounds(&s, blk.body_start, blk.body_end, Strip::Whitespace);
                let name = string_of_range(&s, hs, he);
                let args = string_of_range(&s, bs, be);
                proof {
                    let pair = (s@.subrange(blk.head_start as int, blk.head_end as int), s@.subrange(blk.body_start as int, blk.body_end as int));
                    assert(done + rest == done.push(pair) + tagged_blocks(s@, open@, close@, blk.next as int));
                    done = done.push(pair);
                }
                calls.push(Ai2ToolCall { name, args });
                pos = blk.next;
            },
        }
    }
    assert(done + tagged_blocks(s@, open@, close@, pos as int) == done);
    assert(call_views(calls@) == tool_blocks(s@));
    calls
}

/// The candidates whose flag in `parsed` is set, in order.
pub fn keep_parsed(candidates: &[Ai2ToolCall], parsed: &[bool]) -> (calls: Vec<Ai2ToolCall>)
    requires
        parsed@.len() == candidates@.len(),
    ensures
        call_views(calls@) == flagged(call_views(candidates@), parsed@),
{
    let ghost cands = call_views(candidates@);
    let mut calls: Vec<Ai2ToolCall> = Vec::new();
    let mut i: usize = 0;
    while i < candidates.len()
        invariant
            cands == call_views(candidates@),
            cands.len() == parsed@.len(),
            i <= candidates.len(),
            call_views(calls@) == flagged(cands.take(i as int), parsed@),
        decreases candidates.len() - i,
    {
        proof {
            assert(cands.take(i + 1).drop_last() == cands.take(i as int));
            assert(cands.take(i + 1).last() == cands[i as int]);
        }
        if parsed[i] {
            let c = Ai2ToolCall { name: candidates[i].name.clone(), args: candidates[i].args.clone() };
            calls.push(c);
            assert(call_views(calls@) == call_views(calls@.drop_last()).push(cands[i as int]));
        }
        i += 1;
    }
    assert(cands.take(candidates.len() as int) == cands);
    calls
}

/// The tool calls of a reply: each complete tool block whose trimmed
/// arguments parse as JSON, in order.
pub fn parse_tool_calls(input: &str) -> (calls: Vec<Ai2ToolCall>)
    ensures
        call_views(calls@) == tool_calls(input@),
{
    let candidates = scan_tool_blocks(input);
    let mut parsed: Vec<bool> = Vec::new();
    let mut i: usize = 0;
    while i < candidates.len()
        invariant
            i <= candidates.len(),
            parsed@.len() == i,
            forall|j: int| 0 <= j < i ==> parsed@[j] == json_parses(#[trigger] candidates@[j].args@),
        decreases candidates.len() - i,
    {
        parsed.push(json_is_valid(candidates[i].args.as_str()));
        i += 1;
    }
    let ghost cands = call_views(candidates@);
    assert(parsed@ == parse_flags(cands));
    keep_parsed(&candidates, &parsed)
}

} // verus!
