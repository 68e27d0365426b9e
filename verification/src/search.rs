//! The searching file tools: `search_files`, which walks directories for
//! file names that contain a text, and `grep`, which looks for a text in the
//! lines of files. The application reads the directories and files; the
//! searches here decide what to enter, what matches and when to stop.

use vstd::prelude::*;
use crate::paths::{
    file_name_of, is_path_allowed, join_path, parent_of, path_join, path_allowed, path_file_name, path_parent, result_view, should_skip_dir,
    skipped_name, AllowedPath,
};
use crate::preview::{is_probably_text, lossy_utf8, probably_text, utf8_lossy};
use crate::text::{
    chars_of, contains, decimal, decimal_string, join, join_strings, lowercase, push_str, str_contains,
    string_of_range, to_lower, views,
};

verus! {

broadcast use vstd::string::group_string_axioms;

/// A search does not look inside `path`: its last component is one of the
/// skipped directory names.
pub open spec fn skipped_path(path: Seq<char>) -> bool {
    path_file_name(path) matches Some(n) && skipped_name(n)
}

// ---------------------------------------------------------------------------
// search_files
// ---------------------------------------------------------------------------

/// Where `search_files` starts: the root itself, or the directory of a
/// file root.
pub fn search_root(root: String, is_file: bool) -> (r: Result<String, String>)
    ensures
        !is_file ==> result_view(r) == Ok::<Seq<char>, Seq<char>>(root@),
        is_file ==> result_view(r) == match path_parent(root@) {
            Some(p) => Ok::<Seq<char>, Seq<char>>(p),
            None => Err("文件没有父目录: "@ + root@),
        },
{
    if !is_file {
        return Ok(root);
    }
    match parent_of(root.as_str()) {
        Some(p) => Ok(p),
        None => {
            let mut e = String::from_str("文件没有父目录: ");
            push_str(&mut e, root.as_str());
            Err(e)
        },
    }
}

/// The most hits after which `search_files` enters no further directory.
pub const MAX_SEARCH_HITS: usize = 200;

/// The name a file search compares: the last component of the path in
/// lower case, or the empty text when there is none.
pub open spec fn search_name(path: Seq<char>) -> Seq<char> {
    match path_file_name(path) {
        Some(n) => lowercase(n),
        None => lowercase(Seq::empty()),
    }
}

/// Whether a search records `path` as a hit: its name contains the query and
/// the path itself is authorised.
pub open spec fn search_hit(path: Seq<char>, query: Seq<char>, allowed: Seq<AllowedPath>) -> bool {
    contains(search_name(path), query) && path_allowed(path, allowed)
}

/// The path reached from `root` by joining `names` one after the other.
pub open spec fn walk_path(root: Seq<char>, names: Seq<Seq<char>>) -> Seq<char>
    decreases names.len(),
{
    if names.len() == 0 {
        root
    } else {
        path_join(walk_path(root, names.drop_last()), names.last())
    }
}

/// No path on the walk from `root` by `names`, after the root itself, is a
/// skipped name.
pub open spec fn walk_clean(root: Seq<char>, names: Seq<Seq<char>>) -> bool {
    forall|k: int| 1 <= k <= names.len() ==> !skipped_path(#[trigger] walk_path(root, names.take(k)))
}

/// The state of a `search_files` run: the root, the query in lower case,
/// the authorised paths, the paths found so far, the directories still to
/// read (the last one next) and the directory being read. Beside each hit,
/// each queued directory and the directory being read, the names that lead
/// to it from the root are kept.
pub struct FileSearch {
    pub root: String,
    pub query: String,
    pub allowed: Vec<AllowedPath>,
    pub hits: Vec<String>,
    pub pending: Vec<String>,
    pub current: Option<String>,
    pub hit_walks: Ghost<Seq<Seq<Seq<char>>>>,
    pub pending_walks: Ghost<Seq<Seq<Seq<char>>>>,
    pub current_walk: Ghost<Seq<Seq<char>>>,
}

/// `p` is reached from `root` by `names` through no skipped directory.
pub open spec fn reached_by(p: Seq<char>, root: Seq<char>, names: Seq<Seq<char>>) -> bool {
    p == walk_path(root, names) && walk_clean(root, names)
}

/// Every hit of a search is an authorised path whose name contains the
/// query, reached from the root through no skipped directory; every queued
/// directory and the directory being read are reached the same way.
pub open spec fn search_inv(s: FileSearch) -> bool {
    &&& s.hits@.len() == s.hit_walks@.len()
    &&& s.pending@.len() == s.pending_walks@.len()
    &&& forall|i: int|
        0 <= i < s.hits@.len() ==> search_hit((#[trigger] s.hits@[i])@, s.query@, s.allowed@) && reached_by(
            s.hits@[i]@,
            s.root@,
            s.hit_walks@[i],
        )
    &&& forall|i: int|
        0 <= i < s.pending@.len() ==> reached_by((#[trigger] s.pending@[i])@, s.root@, s.pending_walks@[i])
    &&& s.current matches Some(c) ==> reached_by(c@, s.root@, s.current_walk@)
}

/// `search_files` reports authorised paths only, and nothing under a
/// skipped directory: in every state the search reaches, each hit is an
/// authorised file or lies in an authorised directory, its lower-cased name
/// contains the query, and it is reached from the root by joining names
/// with no skipped name on the way (the hit itself included).
pub proof fn law_search_reports_authorised_only(s: FileSearch, i: int)
    requires
        search_inv(s),
        0 <= i < s.hits@.len(),
    ensures
        path_allowed(s.hits@[i]@, s.allowed@),
        contains(search_name(s.hits@[i]@), s.query@),
        s.hits@[i]@ == walk_path(s.root@, s.hit_walks@[i]),
        forall|k: int|
            1 <= k <= s.hit_walks@[i].len() ==> !skipped_path(
                #[trigger] walk_path(s.root@, s.hit_walks@[i].take(k)),
            ),
{
}

/// A clean walk extended by a name whose path is not skipped stays clean.
proof fn lemma_walk_extend(root: Seq<char>, names: Seq<Seq<char>>, n: Seq<char>)
    requires
        walk_clean(root, names),
        !skipped_path(walk_path(root, names.push(n))),
    ensures
        walk_clean(root, names.push(n)),
        walk_path(root, names.push(n)) == path_join(walk_path(root, names), n),
{
    let longer = names.push(n);
    assert(longer.drop_last() == names);
    assert forall|k: int| 1 <= k <= longer.len() implies !skipped_path(
        #[trigger] walk_path(root, longer.take(k)),
    ) by {
        if k < longer.len() {
            assert(longer.take(k) == names.take(k));
        } else {
            assert(longer.take(k) == longer);
        }
    }
}

impl FileSearch {
    /// A search for `query`, in any case, under the directory `root`, that
    /// reports only paths in `allowed`.
    pub fn new(root: String, query: &str, allowed: Vec<AllowedPath>) -> (s: Self)
        ensures
            s.root == root,
            s.query@ == lowercase(query@),
            s.allowed@ == allowed@,
            s.hits@.len() == 0,
            views(s.pending@) == seq![root@],
            s.current is None,
            search_inv(s),
    {
        let mut pending: Vec<String> = Vec::new();
        pending.push(root.clone());
        let ghost start: Seq<Seq<Seq<char>>> = seq![Seq::empty()];
        let s = FileSearch {
            root,
            query: to_lower(query),
            allowed,
            hits: Vec::new(),
            pending,
            current: None,
            hit_walks: Ghost(Seq::empty()),
            pending_walks: Ghost(start),
            current_walk: Ghost(Seq::empty()),
        };
        assert(views(s.pending@) == seq![s.pending@[0]@]);
        assert(walk_path(s.root@, Seq::<Seq<char>>::empty()) == s.root@);
        s
    }

    /// The next directory to read, which becomes the directory being read,
    /// or `None` when none is left or enough hits were found.
    pub fn next_dir(&mut self) -> (d: Option<String>)
        ensures
            (old(self).hits@.len() >= MAX_SEARCH_HITS || old(self).pending@.len() == 0) ==> (d is None
                && *final(self) == *old(self)),
            (old(self).hits@.len() < MAX_SEARCH_HITS && old(self).pending@.len() > 0) ==> {
                &&& d == Some(old(self).pending@.last())
                &&& final(self).current == d
                &&& final(self).pending@ == old(self).pending@.drop_last()
                &&& final(self).hits@ == old(self).hits@
                &&& final(self).root == old(self).root
                &&& final(self).query == old(self).query
                &&& final(self).allowed == old(self).allowed
            },
            search_inv(*old(self)) ==> search_inv(*final(self)),
    {
        if self.hits.len() >= MAX_SEARCH_HITS || self.pending.len() == 0 {
            return None;
        }
        let ghost walks = self.pending_walks@;
        let d = self.pending.pop();
        proof {
            self.current_walk = Ghost(walks.last());
            self.pending_walks = Ghost(walks.drop_last());
        }
        self.current = d.clone();
        d
    }

    /// Looks at the entry `name` of the directory being read: its path is
    /// that directory joined with `name`; an authorised match is recorded, a
    /// directory is queued, and a skipped name is passed over. Nothing
    /// happens when no directory is being read.
    pub fn visit(&mut self, name: String, is_dir: bool)
        ensures
            old(self).current is None ==> *final(self) == *old(self),
            final(self).root == old(self).root,
            final(self).query == old(self).query,
            final(self).allowed == old(self).allowed,
            final(self).current == old(self).current,
            old(self).current matches Some(c) ==> {
                let p = path_join(c@, name@);
                &&& skipped_path(p) ==> views(final(self).hits@) == views(old(self).hits@) && views(
                    final(self).pending@,
                ) == views(old(self).pending@)
                &&& !skipped_path(p) ==> views(final(self).hits@) == views(old(self).hits@) + (if search_hit(
                    p,
                    old(self).query@,
                    old(self).allowed@,
                ) {
                    seq![p]
                } else {
                    Seq::empty()
                })
                &&& !skipped_path(p) ==> views(final(self).pending@) == views(old(self).pending@) + (
                if is_dir {
                    seq![p]
                } else {
                    Seq::empty()
                })
            },
            search_inv(*old(self)) ==> search_inv(*final(self)),
    {
        let dir = match &self.current {
            Some(c) => c.clone(),
            None => return,
        };
        let path = join_path(dir.as_str(), name.as_str());
        if should_skip_dir(path.as_str()) {
            return;
        }
        let search_name_of = match file_name_of(path.as_str()) {
            Some(n) => to_lower(n.as_str()),
            None => {
                let empty = String::new();
                to_lower(empty.as_str())
            },
        };
        assert(search_name_of@ == search_name(path@));
        let ghost cw: Seq<Seq<char>> = self.current_walk@;
        let ghost names: Seq<Seq<char>> = cw.push(name@);
        proof {
            if search_inv(*old(self)) {
                assert(names.drop_last() =~= cw);
                assert(walk_path(self.root@, names) == path@);
                lemma_walk_extend(self.root@, cw, name@);
            }
        }
        let ghost old_hits = views(self.hits@);
        let ghost old_pending = views(self.pending@);
        let ghost old_hit_walks = self.hit_walks@;
        let ghost old_pending_walks = self.pending_walks@;
        let hit = str_contains(search_name_of.as_str(), self.query.as_str()) && is_path_allowed(
            path.as_str(),
            self.allowed.as_slice(),
        );
        if is_dir {
            self.pending.push(path.clone());
            proof {
                self.pending_walks = Ghost(old_pending_walks.push(names));
            }
            assert(views(self.pending@) == old_pending + seq![path@]);
        } else {
            assert(views(self.pending@) == old_pending + Seq::<Seq<char>>::empty());
        }
        if hit {
            self.hits.push(path);
            proof {
                self.hit_walks = Ghost(old_hit_walks.push(names));
            }
            assert(views(self.hits@) == old_hits + seq![self.hits@.last()@]);
        } else {
            assert(views(self.hits@) == old_hits + Seq::<Seq<char>>::empty());
        }
        assert(search_inv(*old(self)) ==> search_inv(*self)) by {
            if search_inv(*old(self)) {
                assert forall|i: int| 0 <= i < self.hits@.len() implies search_hit(
                    (#[trigger] self.hits@[i])@,
                    self.query@,
                    self.allowed@,
                ) && reached_by(self.hits@[i]@, self.root@, self.hit_walks@[i]) by {
                    if i < old(self).hits@.len() {
                        assert(self.hits@[i] == old(self).hits@[i]);
                        assert(self.hit_walks@[i] == old(self).hit_walks@[i]);
                    }
                }
                assert forall|i: int| 0 <= i < self.pending@.len() implies reached_by(
                    (#[trigger] self.pending@[i])@,
                    self.root@,
                    self.pending_walks@[i],
                ) by {
                    if i < old(self).pending@.len() {
                        assert(self.pending@[i] == old(self).pending@[i]);
                        assert(self.pending_walks@[i] == old(self).pending_walks@[i]);
                    }
                }
            }
        }
    }

    /// The answer of `search_files`: the hits, one per line.
    pub fn report(&self) -> (s: String)
        ensures
            s@ == if self.hits@.len() == 0 {
                "没有找到匹配文件。"@
            } else {
                join(views(self.hits@), "\n"@)
            },
    {
        if self.hits.len() == 0 {
            String::from_str("没有找到匹配文件。")
        } else {
            join_strings(self.hits.as_slice(), "\n")
        }
    }
}

// ---------------------------------------------------------------------------
// Files for grep
// ---------------------------------------------------------------------------

/// The most files `grep` reads under a directory.
pub const MAX_GREP_FILES: usize = 500;

/// The files gathered for `grep` under a directory, in walking order, up to
/// a limit.
#[derive(Clone, Debug)]
pub struct FileCollector {
    pub files: Vec<String>,
    pub limit: usize,
}

impl FileCollector {
    /// An empty collection that takes at most `limit` files.
    pub fn new(limit: usize) -> (c: Self)
        ensures
            c.files@.len() == 0,
            c.limit == limit,
    {
        FileCollector { files: Vec::new(), limit }
    }

    /// Whether the collection has all the files it takes.
    pub fn is_full(&self) -> (b: bool)
        ensures
            b == (self.files@.len() >= self.limit),
    {
        self.files.len() >= self.limit
    }

    /// Whether the walk reads the directory `dir`: it is not full and `dir`
    /// is not a skipped name.
    pub fn may_enter(&self, dir: &str) -> (b: bool)
        ensures
            b == (self.files@.len() < self.limit && !skipped_path(dir@)),
    {
        self.files.len() < self.limit && !should_skip_dir(dir)
    }

    /// Takes the file `path`, unless the collection is full.
    pub fn add_file(&mut self, path: String)
        ensures
            final(self).limit == old(self).limit,
            old(self).files@.len() >= old(self).limit ==> final(self).files@ == old(self).files@,
            old(self).files@.len() < old(self).limit ==> final(self).files@ == old(self).files@.push(path),
            old(self).files@.len() <= old(self).limit ==> final(self).files@.len() <= final(self).limit,
    {
        if self.files.len() < self.limit {
            self.files.push(path);
        }
    }
}

// ---------------------------------------------------------------------------
// Lines
// ---------------------------------------------------------------------------

/// A line without the carriage return that ended it.
pub open spec fn strip_cr(l: Seq<char>) -> Seq<char> {
    if l.len() > 0 && l.last() == '\r' {
        l.drop_last()
    } else {
        l
    }
}

/// The lines of `s` that a line feed ended, and the text after the last
/// line feed.
pub open spec fn split_lines(s: Seq<char>) -> (Seq<Seq<char>>, Seq<char>)
    decreases s.len(),
{
    if s.len() == 0 {
        (Seq::empty(), Seq::empty())
    } else {
        let (done, cur) = split_lines(s.drop_last());
        if s.last() == '\n' {
            (done.push(cur), Seq::empty())
        } else {
            (done, cur.push(s.last()))
        }
    }
}

/// `str::lines`: the lines of `s`, each without its line feed and the
/// carriage return before it; a last line without a line feed keeps its
/// text as it is, and an empty rest is no line.
pub open spec fn lines(s: Seq<char>) -> Seq<Seq<char>> {
    let (done, cur) = split_lines(s);
    done.map_values(|l: Seq<char>| strip_cr(l)) + if cur.len() > 0 {
        seq![cur]
    } else {
        Seq::empty()
    }
}

/// The lines of `text`.
pub fn lines_of(text: &[char]) -> (v: Vec<String>)
    ensures
        views(v@) == lines(text@),
{
    let mut out: Vec<String> = Vec::new();
    let mut start: usize = 0;
    let mut i: usize = 0;
    assert(text@.take(0) == Seq::<char>::empty());
    while i < text.len()
        invariant
            start <= i <= text@.len(),
            split_lines(text@.take(i as int)).1 == text@.subrange(start as int, i as int),
            views(out@) == split_lines(text@.take(i as int)).0.map_values(|l: Seq<char>| strip_cr(l)),
        decreases text.len() - i,
    {
        let ghost before = views(out@);
        proof {
            assert(text@.take(i + 1).drop_last() == text@.take(i as int));
            assert(text@.take(i + 1).last() == text@[i as int]);
        }
        if text[i] == '\n' {
            let end: usize = if i > start && text[i - 1] == '\r' {
                i - 1
            } else {
                i
            };
            let line = string_of_range(text, start, end);
            proof {
                let cur = text@.subrange(start as int, i as int);
                if i > start && text@[i - 1] == '\r' {
                    assert(cur.drop_last() == text@.subrange(start as int, end as int));
                }
                assert(strip_cr(cur) == line@);
            }
            out.push(line);
            assert(views(out@) == before.push(out@.last()@));
            start = i + 1;
        }
        i += 1;
        proof {
            assert(text@.subrange(start as int, i as int) == split_lines(text@.take(i as int)).1);
        }
    }
    assert(text@.take(text.len() as int) == text@);
    if start < text.len() {
        let ghost before = views(out@);
        let last = string_of_range(text, start, text.len());
        out.push(last);
        assert(views(out@) == before.push(out@.last()@));
    }
    out
}

// ---------------------------------------------------------------------------
// grep
// ---------------------------------------------------------------------------

/// The most hits `grep` reports.
pub const MAX_GREP_HITS: usize = 80;

/// The largest file `grep` reads.
pub const MAX_GREP_BYTES: usize = 524288;

/// The hit for line `index` (counted from zero) of the file shown as
/// `display`.
pub open spec fn grep_row(display: Seq<char>, index: int, line: Seq<char>) -> Seq<char> {
    display + ":"@ + decimal((index + 1) as nat) + ": "@ + line
}

/// The hits for every line of `ls` that contains `query`, in order.
pub open spec fn grep_rows(display: Seq<char>, ls: Seq<Seq<char>>, query: Seq<char>) -> Seq<Seq<char>>
    decreases ls.len(),
{
    if ls.len() == 0 {
        Seq::empty()
    } else {
        grep_rows(display, ls.drop_last(), query) + if contains(ls.last(), query) {
            seq![grep_row(display, ls.len() - 1, ls.last())]
        } else {
            Seq::empty()
        }
    }
}

/// The hits after `grep` read the file shown as `display` with contents
/// `bytes`, given the hits before: nothing is added once the limit is
/// reached, nor from a file too large or not text; else the file's hits
/// are added up to the limit.
pub open spec fn grep_file_hits(hits: Seq<Seq<char>>, display: Seq<char>, bytes: Seq<u8>, query: Seq<char>) -> Seq<
    Seq<char>,
> {
    if hits.len() >= MAX_GREP_HITS || bytes.len() > MAX_GREP_BYTES || !probably_text(lossy_utf8(bytes)) {
        hits
    } else {
        let all = grep_rows(display, lines(lossy_utf8(bytes)), query);
        let room = MAX_GREP_HITS - hits.len();
        hits + if all.len() <= room {
            all
        } else {
            all.take(room)
        }
    }
}

/// The hits of a prefix of the lines come first among the hits of all of
/// them.
proof fn lemma_grep_rows_prefix(display: Seq<char>, ls: Seq<Seq<char>>, query: Seq<char>, k: int)
    requires
        0 <= k <= ls.len(),
    ensures
        grep_rows(display, ls.take(k), query).len() <= grep_rows(display, ls, query).len(),
        grep_rows(display, ls, query).take(grep_rows(display, ls.take(k), query).len() as int) == grep_rows(
            display,
            ls.take(k),
            query,
        ),
    decreases ls.len(),
{
    let m = grep_rows(display, ls.take(k), query).len() as int;
    if k == ls.len() {
        assert(ls.take(k) == ls);
        assert(grep_rows(display, ls, query).take(m) == grep_rows(display, ls, query));
    } else {
        let shorter = ls.drop_last();
        assert(shorter.take(k) == ls.take(k));
        lemma_grep_rows_prefix(display, shorter, query, k);
        let r = grep_rows(display, shorter, query);
        assert(grep_rows(display, ls, query).take(m) == r.take(m));
    }
}

/// `grep` never holds more than `MAX_GREP_HITS` hits: reading a file keeps
/// the hits within the limit, and adds nothing once it is reached.
pub proof fn law_grep_bounded(hits: Seq<Seq<char>>, display: Seq<char>, bytes: Seq<u8>, query: Seq<char>)
    ensures
        hits.len() <= MAX_GREP_HITS ==> grep_file_hits(hits, display, bytes, query).len() <= MAX_GREP_HITS,
        hits.len() >= MAX_GREP_HITS ==> grep_file_hits(hits, display, bytes, query) == hits,
        grep_file_hits(hits, display, bytes, query).take(hits.len() as int) == hits,
{
    let r = grep_file_hits(hits, display, bytes, query);
    assert(r.take(hits.len() as int) == hits);
}

/// The state of a `grep` run: the text looked for and the hits so far.
#[derive(Clone, Debug)]
pub struct GrepSearch {
    pub query: String,
    pub hits: Vec<String>,
}

impl GrepSearch {
    /// A search for `query`, with no hit yet.
    pub fn new(query: String) -> (g: Self)
        ensures
            g.query == query,
            g.hits@.len() == 0,
    {
        GrepSearch { query, hits: Vec::new() }
    }

    /// Whether the search has all the hits it reports.
    pub fn is_full(&self) -> (b: bool)
        ensures
            b == (self.hits@.len() >= MAX_GREP_HITS),
    {
        self.hits.len() >= MAX_GREP_HITS
    }

    /// Looks for the query in the file shown as `display` with contents
    /// `bytes`.
    pub fn grep_file(&mut self, display: &str, bytes: &[u8])
        ensures
            final(self).query == old(self).query,
            views(final(self).hits@) == grep_file_hits(views(old(self).hits@), display@, bytes@, old(self).query@),
    {
        if self.hits.len() >= MAX_GREP_HITS || bytes.len() > MAX_GREP_BYTES {
            return;
        }
        let text = utf8_lossy(bytes);
        if !is_probably_text(text.as_str()) {
            return;
        }
        let chars = chars_of(text.as_str());
        let ls = lines_of(chars.as_slice());
        let ghost old_hits = views(self.hits@);
        let ghost old_query = self.query;
        let ghost all = grep_rows(display@, views(ls@), self.query@);
        let ghost room = MAX_GREP_HITS - old_hits.len();
        let mut k: usize = 0;
        assert(views(ls@).take(0) == Seq::<Seq<char>>::empty());
        assert(ls@.len() == 0 ==> views(ls@) == views(ls@).take(0));
        while k < ls.len()
            invariant_except_break
                k <= ls@.len(),
                self.hits@.len() < MAX_GREP_HITS,
                views(self.hits@) == old_hits + grep_rows(display@, views(ls@).take(k as int), self.query@),
                k == ls@.len() ==> views(ls@).take(k as int) == views(ls@),
            invariant
                self.query == old_query,
                old_hits.len() < MAX_GREP_HITS,
                room == MAX_GREP_HITS - old_hits.len(),
                all == grep_rows(display@, views(ls@), self.query@),
            ensures
                views(self.hits@) == old_hits + if all.len() <= room {
                    all
                } else {
                    all.take(room)
                },
            decreases ls.len() - k,
        {
            let ghost before = views(self.hits@);
            proof {
                assert(views(ls@).take(k + 1).drop_last() == views(ls@).take(k as int));
                assert(views(ls@).take(k + 1).last() == ls@[k as int]@);
            }
            if str_contains(ls[k].as_str(), self.query.as_str()) {
                let mut row = String::from_str(display);
                push_str(&mut row, ":");
                let n = decimal_string(k as u64 + 1);
                push_str(&mut row, n.as_str());
                push_str(&mut row, ": ");
                push_str(&mut row, ls[k].as_str());
                self.hits.push(row);
                assert(views(self.hits@) == before.push(self.hits@.last()@));
                assert(views(self.hits@) == old_hits + grep_rows(
                    display@,
                    views(ls@).take(k + 1),
                    self.query@,
                ));
                if self.hits.len() >= MAX_GREP_HITS {
                    proof {
                        lemma_grep_rows_prefix(display@, views(ls@), self.query@, k + 1);
                        let r1 = grep_rows(display@, views(ls@).take(k + 1), self.query@);
                        assert(r1.len() == room);
                        assert(all.take(room) == r1);
                        if all.len() <= room {
                            assert(all.take(room) == all);
                        }
                    }
                    break;
                }
            } else {
                assert(views(self.hits@) == old_hits + grep_rows(
                    display@,
                    views(ls@).take(k + 1),
                    self.query@,
                ));
            }
            k += 1;
            proof {
                if k == ls.len() {
                    assert(views(ls@).take(k as int) == views(ls@));
                }
            }
        }
        proof {
            assert(lines(lossy_utf8(bytes@)) == views(ls@));
            assert(grep_file_hits(old_hits, display@, bytes@, self.query@) == old_hits + if all.len() <= room {
                all
            } else {
                all.take(room)
            });
        }
    }

    /// The answer of `grep`: the hits, one per line.
    pub fn report(&self) -> (s: String)
        ensures
            s@ == if self.hits@.len() == 0 {
                "没有找到匹配文本。"@
            } else {
                join(views(self.hits@), "\n"@)
            },
    {
        if self.hits.len() == 0 {
            String::from_str("没有找到匹配文本。")
        } else {
            join_strings(self.hits.as_slice(), "\n")
        }
    }
}

} // verus!
