//! How file contents are shown to the models: a text preview when the bytes
//! are readable text, a hexadecimal dump otherwise, and a summary with size,
//! modification time and SHA-256 digest.

use vstd::prelude::*;
use sha2::Digest;
use vstd::utf8::{decode_utf8, valid_utf8};
use crate::text::{hex, hex_string, join, join_strings, push_str, views};

verus! {

broadcast use vstd::string::group_string_axioms;

// ---------------------------------------------------------------------------
// Outside calls
// ---------------------------------------------------------------------------

/// `std::str::from_utf8`: the text the bytes encode, when they are valid
/// UTF-8 (as `vstd::utf8` defines it), and none otherwise.
#[verifier::external_body]
pub(crate) fn utf8_text(bytes: &[u8]) -> (r: Option<String>)
    ensures
        r is Some <==> valid_utf8(bytes@),
        r matches Some(s) ==> s@ == decode_utf8(bytes@),
{
    std::str::from_utf8(bytes).ok().map(|s| s.to_string())
}

/// What `String::from_utf8_lossy` makes of `bytes`.
pub uninterp spec fn lossy_utf8(bytes: Seq<u8>) -> Seq<char>;

/// `String::from_utf8_lossy`: the text of the bytes with each invalid
/// sequence replaced by U+FFFD. The result is named `lossy_utf8`; the only
/// fact stated of it is the documented one that valid UTF-8 comes back
/// unchanged.
#[verifier::external_body]
pub(crate) fn utf8_lossy(bytes: &[u8]) -> (s: String)
    ensures
        s@ == lossy_utf8(bytes@),
        valid_utf8(bytes@) ==> s@ == decode_utf8(bytes@),
{
    String::from_utf8_lossy(bytes).into_owned()
}

/// The SHA-256 digest of `data`.
pub uninterp spec fn sha256_digest(data: Seq<u8>) -> Seq<u8>;

/// `sha2::Sha256::digest`: the digest of `data` is named `sha256_digest`,
/// and it is 32 bytes long, as the output size of SHA-256 is.
#[verifier::external_body]
pub(crate) fn sha256(data: &[u8]) -> (d: Vec<u8>)
    ensures
        d@ == sha256_digest(data@),
        d@.len() == 32,
{
    sha2::Sha256::digest(data).to_vec()
}

// ---------------------------------------------------------------------------
// Text detection
// ---------------------------------------------------------------------------

/// `char::is_control`: the general category Cc.
pub open spec fn is_control(c: char) -> bool {
    c <= '\u{1f}' || ('\u{7f}' <= c && c <= '\u{9f}')
}

/// A control character other than line feed, carriage return and tab.
pub open spec fn is_odd_control(c: char) -> bool {
    is_control(c) && c != '\n' && c != '\r' && c != '\t'
}

/// How many characters of `s` are odd control characters.
pub open spec fn odd_controls(s: Seq<char>) -> nat
    decreases s.len(),
{
    if s.len() == 0 {
        0
    } else {
        odd_controls(s.drop_last()) + if is_odd_control(s.last()) {
            1nat
        } else {
            0nat
        }
    }
}

/// The first 1024 characters of `s`.
pub open spec fn text_sample(s: Seq<char>) -> Seq<char> {
    if s.len() < 1024 {
        s
    } else {
        s.take(1024)
    }
}

/// Text looks readable when fewer than 5% of its first 1024 characters are
/// odd control characters (an empty text counts as one character).
pub open spec fn probably_text(s: Seq<char>) -> bool {
    let sample = text_sample(s);
    let n = if sample.len() == 0 {
        1
    } else {
        sample.len()
    };
    odd_controls(sample) * 100 / n < 5
}

/// Whether `text` looks readable.
pub fn is_probably_text(text: &str) -> (b: bool)
    ensures
        b == probably_text(text@),
{
    let v = crate::text::chars_of(text);
    let n: usize = if v.len() < 1024 {
        v.len()
    } else {
        1024
    };
    let ghost sample = text_sample(v@);
    assert(sample == v@.take(n as int));
    let mut count: usize = 0;
    let mut i: usize = 0;
    while i < n
        invariant
            n <= v.len(),
            n <= 1024,
            i <= n,
            count <= i,
            count == odd_controls(v@.take(i as int)),
        decreases n - i,
    {
        let c = v[i];
        proof {
            assert(v@.take(i + 1).drop_last() == v@.take(i as int));
        }
        if (c <= '\u{1f}' || ('\u{7f}' <= c && c <= '\u{9f}')) && c != '\n' && c != '\r' && c
            != '\t' {
            count += 1;
        }
        i += 1;
    }
    let len = if n == 0 {
        1
    } else {
        n
    };
    count * 100 / len < 5
}

// ---------------------------------------------------------------------------
// Previews
// ---------------------------------------------------------------------------

/// The most bytes shown as text.
pub const MAX_FILE_BYTES: usize = 61440;

/// The hex row of `row`: two lower-case digits per byte, separated by spaces.
pub open spec fn hex_row(row: Seq<u8>) -> Seq<char> {
    join(Seq::new(row.len(), |i: int| hex(row[i] as nat, 2)), " "@)
}

/// The number of rows of 16 in `n` bytes.
pub open spec fn row_count(n: nat) -> nat {
    (n + 15) / 16
}

/// Row `r` of `bytes` cut in rows of 16.
pub open spec fn row_of(bytes: Seq<u8>, r: int) -> Seq<u8> {
    bytes.subrange(16 * r, if 16 * r + 16 <= bytes.len() {
        16 * r + 16
    } else {
        bytes.len() as int
    })
}

/// `bytes` as hex rows of 16 bytes, one per line.
pub open spec fn hex_dump(bytes: Seq<u8>) -> Seq<char> {
    join(Seq::new(row_count(bytes.len()), |r: int| hex_row(row_of(bytes, r))), "\n"@)
}

/// At most the first `n` elements of `s`.
pub open spec fn prefix<T>(s: Seq<T>, n: nat) -> Seq<T> {
    if s.len() <= n {
        s
    } else {
        s.take(n as int)
    }
}

/// How the bytes of a file are shown: as text when the first 60 KiB are
/// valid UTF-8 that looks readable (with a note when the file is longer),
/// otherwise as a hex dump of the first 1024 bytes (with a note when the
/// file is longer).
pub open spec fn preview(bytes: Seq<u8>) -> Seq<char> {
    let slice = prefix(bytes, MAX_FILE_BYTES as nat);
    if valid_utf8(slice) && probably_text(decode_utf8(slice)) {
        "文本预览:\n```text\n"@ + decode_utf8(slice) + (if bytes.len() > MAX_FILE_BYTES {
            "\n\n[文件过大，已截断前 60KB]"@
        } else {
            Seq::empty()
        }) + "\n```"@
    } else {
        "十六进制预览:\n```hex\n"@ + hex_dump(prefix(bytes, 1024)) + (if bytes.len() > 1024 {
            "\n[二进制文件，仅显示前 1024 bytes]"@
        } else {
            Seq::empty()
        }) + "\n```"@
    }
}

fn hex_row_string(bytes: &[u8], from: usize, to: usize) -> (s: String)
    requires
        from <= to <= bytes.len(),
    ensures
        s@ == hex_row(bytes@.subrange(from as int, to as int)),
{
    let ghost row = bytes@.subrange(from as int, to as int);
    let mut parts: Vec<String> = Vec::new();
    let mut i: usize = from;
    while i < to
        invariant
            from <= i <= to <= bytes.len(),
            row == bytes@.subrange(from as int, to as int),
            views(parts@) == Seq::new((i - from) as nat, |k: int| hex(row[k] as nat, 2)),
        decreases to - i,
    {
        let h = hex_string(bytes[i] as u64, 2);
        let ghost before = parts@;
        parts.push(h);
        assert(views(parts@) == views(before).push(h@));
        i += 1;
    }
    join_strings(parts.as_slice(), " ")
}

/// The hex dump of `bytes`.
pub fn hex_dump_string(bytes: &[u8]) -> (s: String)
    ensures
        s@ == hex_dump(bytes@),
{
    let n = bytes.len();
    let mut rows: Vec<String> = Vec::new();
    let mut start: usize = 0;
    let mut r: usize = 0;
    while start < n
        invariant
            n == bytes@.len(),
            start < n ==> start == 16 * r,
            start <= n,
            r <= row_count(n as nat),
            start < n ==> r < row_count(n as nat),
            start >= n ==> r == row_count(n as nat),
            views(rows@) == Seq::new(r as nat, |k: int| hex_row(row_of(bytes@, k))),
        decreases n + 16 - start,
    {
        let end = if n - start >= 16 {
            start + 16
        } else {
            n
        };
        let row = hex_row_string(bytes, start, end);
        let ghost before = rows@;
        rows.push(row);
        assert(views(rows@) == views(before).push(row@));
        assert(row_of(bytes@, r as int) == bytes@.subrange(start as int, end as int));
        start = end;
        r += 1;
        proof {
            if start >= n {
                assert(row_count(n as nat) == r) by {
                    assert((n + 15) / 16 == r) by (nonlinear_arith)
                        requires
                            16 * (r - 1) < n,
                            n <= 16 * r,
                            r >= 1,
                    ;
                }
            } else {
                assert(r < row_count(n as nat)) by {
                    assert(r < (n + 15) / 16) by (nonlinear_arith)
                        requires
                            16 * r < n,
                    ;
                }
            }
        }
    }
    proof {
        if n == 0 {
            assert(row_count(0) == 0);
        }
    }
    join_strings(rows.as_slice(), "\n")
}

/// How the bytes of a file are shown to the models.
pub fn file_preview(bytes: &[u8]) -> (s: String)
    ensures
        s@ == preview(bytes@),
{
    let truncated = bytes.len() > MAX_FILE_BYTES;
    let slice_len = if truncated {
        MAX_FILE_BYTES
    } else {
        bytes.len()
    };
    let slice = crate::preview::take_slice(bytes, slice_len);
    assert(slice@ == prefix(bytes@, MAX_FILE_BYTES as nat));
    match utf8_text(slice) {
        Some(text) => {
            if is_probably_text(text.as_str()) {
                let mut s = String::from_str("文本预览:\n```text\n");
                push_str(&mut s, text.as_str());
                if truncated {
                    push_str(&mut s, "\n\n[文件过大，已截断前 60KB]");
                }
                push_str(&mut s, "\n```");
                assert(s@ == preview(bytes@));
                return s;
            }
        },
        None => {},
    }
    let dump_len = if bytes.len() > 1024 {
        1024
    } else {
        bytes.len()
    };
    let head = take_slice(bytes, dump_len);
    let dump = hex_dump_string(head);
    let mut s = String::from_str("十六进制预览:\n```hex\n");
    push_str(&mut s, dump.as_str());
    if bytes.len() > 1024 {
        push_str(&mut s, "\n[二进制文件，仅显示前 1024 bytes]");
    }
    push_str(&mut s, "\n```");
    s
}

/// The first `n` bytes of `bytes`.
pub fn take_slice(bytes: &[u8], n: usize) -> (s: &[u8])
    requires
        n <= bytes@.len(),
    ensures
        s@ == bytes@.take(n as int),
{
    let s = vstd::slice::slice_subrange(bytes, 0, n);
    assert(s@ == bytes@.take(n as int));
    s
}

// ---------------------------------------------------------------------------
// File summaries
// ---------------------------------------------------------------------------

/// Two lower-case hex digits per byte.
pub open spec fn hex_bytes(b: Seq<u8>) -> Seq<char>
    decreases b.len(),
{
    if b.len() == 0 {
        Seq::empty()
    } else {
        hex_bytes(b.drop_last()) + hex(b.last() as nat, 2)
    }
}

/// The summary of a file: where it is, its size, when it was modified, its
/// SHA-256 digest and its preview.
pub open spec fn file_summary(display: Seq<char>, size: u64, modified: Seq<char>, bytes: Seq<u8>) -> Seq<
    char,
> {
    "[文件] "@ + display + "\n大小: "@ + crate::text::decimal(size as nat) + " bytes\n修改时间: "@
        + modified + "\nSHA256: "@ + hex_bytes(sha256_digest(bytes)) + "\n"@ + preview(bytes)
}

/// Two lower-case hex digits per byte of `b`.
pub fn hex_bytes_string(b: &[u8]) -> (s: String)
    ensures
        s@ == hex_bytes(b@),
{
    let mut s = String::new();
    let mut i: usize = 0;
    while i < b.len()
        invariant
            i <= b.len(),
            s@ == hex_bytes(b@.take(i as int)),
        decreases b.len() - i,
    {
        let h = hex_string(b[i] as u64, 2);
        push_str(&mut s, h.as_str());
        proof {
            assert(b@.take(i + 1).drop_last() == b@.take(i as int));
        }
        i += 1;
    }
    assert(b@.take(b.len() as int) == b@);
    s
}

/// The summary of a file shown at `display`, of `size` bytes, modified at
/// `modified`, with contents `bytes`.
pub fn summarize_file(display: &str, size: u64, modified: &str, bytes: &[u8]) -> (s: String)
    ensures
        s@ == file_summary(display@, size, modified@, bytes@),
{
    let digest = sha256(bytes);
    let mut s = String::from_str("[文件] ");
    push_str(&mut s, display);
    push_str(&mut s, "\n大小: ");
    let n = crate::text::decimal_string(size);
    push_str(&mut s, n.as_str());
    push_str(&mut s, " bytes\n修改时间: ");
    push_str(&mut s, modified);
    push_str(&mut s, "\nSHA256: ");
    let h = hex_bytes_string(digest.as_slice());
    push_str(&mut s, h.as_str());
    push_str(&mut s, "\n");
    let p = file_preview(bytes);
    push_str(&mut s, p.as_str());
    s
}

} // verus!
