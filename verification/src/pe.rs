//! A basic reading of Windows PE files (DLL and EXE): the COFF header, the
//! start of the optional header and the section table.

use vstd::prelude::*;
use crate::preview::{lossy_utf8, utf8_lossy};
use crate::text::{contains, decimal, decimal_string, hex, occurs_at, hex_string, join, join_strings, push_str, views};

verus! {

broadcast use vstd::string::group_string_axioms;

// ---------------------------------------------------------------------------
// Little-endian integers
// ---------------------------------------------------------------------------

/// The little-endian `u16` at offset `o` of `b`, if the bytes are there.
pub open spec fn le_u16(b: Seq<u8>, o: int) -> Option<u16> {
    if 0 <= o && o + 2 <= b.len() {
        Some((b[o] as int + 256 * b[o + 1] as int) as u16)
    } else {
        None
    }
}

/// The little-endian `u32` at offset `o` of `b`, if the bytes are there.
pub open spec fn le_u32(b: Seq<u8>, o: int) -> Option<u32> {
    if 0 <= o && o + 4 <= b.len() {
        Some(
            (b[o] as int + 0x100 * b[o + 1] as int + 0x1_0000 * b[o + 2] as int + 0x100_0000
                * b[o + 3] as int) as u32,
        )
    } else {
        None
    }
}

/// The little-endian `u64` at offset `o` of `b`, if the bytes are there.
pub open spec fn le_u64(b: Seq<u8>, o: int) -> Option<u64> {
    if 0 <= o && o + 8 <= b.len() {
        Some(
            (b[o] as int + 0x100 * b[o + 1] as int + 0x1_0000 * b[o + 2] as int + 0x100_0000
                * b[o + 3] as int + 0x1_0000_0000 * b[o + 4] as int + 0x100_0000_0000 * b[o
                + 5] as int + 0x1_0000_0000_0000 * b[o + 6] as int + 0x100_0000_0000_0000 * b[o
                + 7] as int) as u64,
        )
    } else {
        None
    }
}

/// The little-endian `u16` at `offset`, if the slice holds it.
pub fn read_u16(bytes: &[u8], offset: usize) -> (r: Option<u16>)
    ensures
        r == le_u16(bytes@, offset as int),
{
    if offset > bytes.len() || bytes.len() - offset < 2 {
        return None;
    }
    Some(bytes[offset] as u16 + 256 * bytes[offset + 1] as u16)
}

/// The little-endian `u32` at `offset`, if the slice holds it.
pub fn read_u32(bytes: &[u8], offset: usize) -> (r: Option<u32>)
    ensures
        r == le_u32(bytes@, offset as int),
{
    if offset > bytes.len() || bytes.len() - offset < 4 {
        return None;
    }
    Some(
        bytes[offset] as u32 + 0x100 * bytes[offset + 1] as u32 + 0x1_0000 * bytes[offset + 2] as u32
            + 0x100_0000 * bytes[offset + 3] as u32,
    )
}

/// The little-endian `u64` at `offset`, if the slice holds it.
pub fn read_u64(bytes: &[u8], offset: usize) -> (r: Option<u64>)
    ensures
        r == le_u64(bytes@, offset as int),
{
    if offset > bytes.len() || bytes.len() - offset < 8 {
        return None;
    }
    Some(
        bytes[offset] as u64 + 0x100 * bytes[offset + 1] as u64 + 0x1_0000 * bytes[offset + 2] as u64
            + 0x100_0000 * bytes[offset + 3] as u64 + 0x1_0000_0000 * bytes[offset + 4] as u64
            + 0x100_0000_0000 * bytes[offset + 5] as u64 + 0x1_0000_0000_0000 * bytes[offset
            + 6] as u64 + 0x100_0000_0000_0000 * bytes[offset + 7] as u64,
    )
}

/// The `u16` at `o`, or 0 when the bytes are not there.
pub open spec fn u16_at(b: Seq<u8>, o: int) -> u16 {
    match le_u16(b, o) {
        Some(v) => v,
        None => 0,
    }
}

/// The `u32` at `o`, or 0 when the bytes are not there.
pub open spec fn u32_at(b: Seq<u8>, o: int) -> u32 {
    match le_u32(b, o) {
        Some(v) => v,
        None => 0,
    }
}

/// The `u64` at `o`, or 0 when the bytes are not there.
pub open spec fn u64_at(b: Seq<u8>, o: int) -> u64 {
    match le_u64(b, o) {
        Some(v) => v,
        None => 0,
    }
}

fn u16_at_exec(b: &[u8], o: u64) -> (v: u16)
    ensures
        v == u16_at(b@, o as int),
{
    if o > b.len() as u64 {
        return 0;
    }
    match read_u16(b, o as usize) {
        Some(v) => v,
        None => 0,
    }
}

fn u32_at_exec(b: &[u8], o: u64) -> (v: u32)
    ensures
        v == u32_at(b@, o as int),
{
    if o > b.len() as u64 {
        return 0;
    }
    match read_u32(b, o as usize) {
        Some(v) => v,
        None => 0,
    }
}

fn u64_at_exec(b: &[u8], o: u64) -> (v: u64)
    ensures
        v == u64_at(b@, o as int),
{
    if o > b.len() as u64 {
        return 0;
    }
    match read_u64(b, o as usize) {
        Some(v) => v,
        None => 0,
    }
}

// ---------------------------------------------------------------------------
// Machine types
// ---------------------------------------------------------------------------

/// The architecture a COFF machine number stands for.
pub open spec fn machine(m: u16) -> Seq<char> {
    if m == 0x014c {
        "x86"@
    } else if m == 0x8664 {
        "x64"@
    } else if m == 0xaa64 {
        "ARM64"@
    } else if m == 0x01c4 {
        "ARM"@
    } else {
        "unknown"@
    }
}

/// The architecture a COFF machine number stands for.
pub fn machine_name(m: u16) -> (s: &'static str)
    ensures
        s@ == machine(m),
{
    match m {
        0x014c => "x86",
        0x8664 => "x64",
        0xaa64 => "ARM64",
        0x01c4 => "ARM",
        _ => "unknown",
    }
}

// ---------------------------------------------------------------------------
// The report
// ---------------------------------------------------------------------------

/// The bytes of `s` before its first zero byte.
pub open spec fn before_nul(s: Seq<u8>) -> Seq<u8>
    decreases s.len(),
{
    if s.len() == 0 || s[0] == 0 {
        Seq::empty()
    } else {
        seq![s[0]] + before_nul(s.drop_first())
    }
}

/// The row describing the section header at `off`.
pub open spec fn section_row(b: Seq<u8>, off: int) -> Seq<char> {
    lossy_utf8(before_nul(b.subrange(off, off + 8))) + "\tRVA=0x"@ + hex(
        u32_at(b, off + 12) as nat,
        8,
    ) + "\tVirtualSize="@ + decimal(u32_at(b, off + 8) as nat) + "\tRawSize="@ + decimal(
        u32_at(b, off + 16) as nat,
    ) + "\tCharacteristics=0x"@ + hex(u32_at(b, off + 36) as nat, 8)
}

/// The rows of the section headers `i` to `count - 1` of the table at
/// `table`, stopping at the first header that does not fit in `b`.
pub open spec fn section_rows(b: Seq<u8>, table: int, i: int, count: int) -> Seq<Seq<char>>
    decreases count - i,
{
    if i >= count || b.len() < table + 40 * i + 40 {
        Seq::empty()
    } else {
        seq![section_row(b, table + 40 * i)] + section_rows(b, table, i + 1, count)
    }
}

/// The PE part of the report on a file's bytes.
pub open spec fn pe_report(b: Seq<u8>) -> Seq<char> {
    if b.len() < 0x40 || b[0] != 0x4d || b[1] != 0x5a {
        "PE 检查: 不是 MZ/PE 文件。"@
    } else {
        let pe = u32_at(b, 0x3c) as int;
        if b.len() < pe + 24 || b[pe] != 0x50 || b[pe + 1] != 0x45 || b[pe + 2] != 0 || b[pe + 3]
            != 0 {
            "PE 检查: MZ 存在，但 PE 头无效。"@
        } else {
            let m = u16_at(b, pe + 4);
            let sections = u16_at(b, pe + 6);
            let timestamp = u32_at(b, pe + 8);
            let optional_size = u16_at(b, pe + 20);
            let opt = pe + 24;
            let magic = u16_at(b, opt);
            let entry = u32_at(b, opt + 16);
            let image_base = if magic == 0x20b {
                u64_at(b, opt + 24)
            } else {
                u32_at(b, opt + 28) as u64
            };
            let info = "PE 基础信息:\nMachine: 0x"@ + hex(m as nat, 4) + " ("@ + machine(m)
                + ")\nSections: "@ + decimal(sections as nat) + "\nTimeDateStamp: "@ + decimal(
                timestamp as nat,
            ) + "\nOptionalMagic: 0x"@ + hex(magic as nat, 4) + "\nEntryPointRVA: 0x"@ + hex(
                entry as nat,
                8,
            ) + "\nImageBase: 0x"@ + hex(image_base as nat, 0);
            let rows = section_rows(b, opt + optional_size, 0, sections as int);
            if rows.len() == 0 {
                info
            } else {
                info + "\n\n"@ + "PE 节区:\n"@ + join(rows, "\n"@)
            }
        }
    }
}

/// The PE header offset a file names at 0x3c, read from its four bytes.
pub open spec fn pe_offset_of(b: Seq<u8>) -> int {
    b[0x3c] as int + 0x100 * b[0x3d] as int + 0x1_0000 * b[0x3e] as int + 0x100_0000 * b[0x3f] as int
}

/// The image base that a PE file with its PE header at `pe` declares,
/// read from its bytes: the eight bytes at offset 24 of the optional header
/// when the optional header's magic is 0x20b (PE32+), otherwise the four
/// bytes at offset 28 (PE32).
pub open spec fn declared_image_base(b: Seq<u8>, pe: int) -> int {
    let o = pe + 24;
    if b[o] as int + 0x100 * b[o + 1] as int == 0x20b {
        b[o + 24] as int + 0x100 * b[o + 25] as int + 0x1_0000 * b[o + 26] as int + 0x100_0000 * b[o
            + 27] as int + 0x1_0000_0000 * b[o + 28] as int + 0x100_0000_0000 * b[o + 29] as int
            + 0x1_0000_0000_0000 * b[o + 30] as int + 0x100_0000_0000_0000 * b[o + 31] as int
    } else {
        b[o + 28] as int + 0x100 * b[o + 29] as int + 0x1_0000 * b[o + 30] as int + 0x100_0000 * b[o
            + 31] as int
    }
}

/// For an MZ file whose PE header (signature `PE\0\0` at the offset named
/// at 0x3c) is followed by the optional header's first 32 bytes, the report
/// gives the image base the optional header declares: for a PE32 image the
/// four bytes at offset 28, for a PE32+ image the eight bytes at offset 24.
pub proof fn law_image_base(b: Seq<u8>)
    requires
        b.len() >= 0x40,
        b[0] == 0x4d,
        b[1] == 0x5a,
        pe_offset_of(b) + 24 + 32 <= b.len(),
        b[pe_offset_of(b)] == 0x50,
        b[pe_offset_of(b) + 1] == 0x45,
        b[pe_offset_of(b) + 2] == 0,
        b[pe_offset_of(b) + 3] == 0,
    ensures
        contains(pe_report(b), "\nImageBase: 0x"@ + hex(declared_image_base(b, pe_offset_of(b)) as nat, 0)),
{
    let pe = u32_at(b, 0x3c) as int;
    assert(pe == pe_offset_of(b));
    let m = u16_at(b, pe + 4);
    let sections = u16_at(b, pe + 6);
    let timestamp = u32_at(b, pe + 8);
    let opt = pe + 24;
    let magic = u16_at(b, opt);
    let entry = u32_at(b, opt + 16);
    let image_base = if magic == 0x20b {
        u64_at(b, opt + 24)
    } else {
        u32_at(b, opt + 28) as u64
    };
    assert(image_base as int == declared_image_base(b, pe));
    let needle = "\nImageBase: 0x"@ + hex(image_base as nat, 0);
    let head = "PE 基础信息:\nMachine: 0x"@ + hex(m as nat, 4) + " ("@ + machine(m) + ")\nSections: "@
        + decimal(sections as nat) + "\nTimeDateStamp: "@ + decimal(timestamp as nat)
        + "\nOptionalMagic: 0x"@ + hex(magic as nat, 4) + "\nEntryPointRVA: 0x"@ + hex(entry as nat, 8);
    let info = head + "\nImageBase: 0x"@ + hex(image_base as nat, 0);
    assert(info == head + needle);
    let report = pe_report(b);
    assert(report.subrange(head.len() as int, (head.len() + needle.len()) as int) == needle);
    assert(occurs_at(report, needle, head.len() as int));
}

/// The bytes of `s[from..to]` before the first zero byte.
fn nul_end(s: &[u8], from: usize, to: usize) -> (e: usize)
    requires
        from <= to <= s.len(),
    ensures
        from <= e <= to,
        s@.subrange(from as int, e as int) == before_nul(s@.subrange(from as int, to as int)),
{
    let mut e: usize = from;
    while e < to && s[e] != 0
        invariant
            from <= e <= to <= s.len(),
            forall|k: int| from <= k < e ==> s@[k] != 0,
        decreases to - e,
    {
        e += 1;
    }
    proof {
        lemma_before_nul(s@.subrange(from as int, to as int), (e - from) as int);
    }
    e
}

proof fn lemma_before_nul(s: Seq<u8>, k: int)
    requires
        0 <= k <= s.len(),
        forall|j: int| 0 <= j < k ==> s[j] != 0,
        k < s.len() ==> s[k] == 0,
    ensures
        before_nul(s) == s.take(k),
    decreases s.len(),
{
    if k == 0 {
        assert(s.take(0) == Seq::<u8>::empty());
    } else {
        let t = s.drop_first();
        assert forall|j: int| 0 <= j < k - 1 implies t[j] != 0 by {
            assert(t[j] == s[j + 1]);
        }
        lemma_before_nul(t, k - 1);
        assert(seq![s[0]] + t.take(k - 1) == s.take(k));
    }
}

fn section_row_string(b: &[u8], off: u64) -> (s: String)
    requires
        off + 40 <= b.len(),
    ensures
        s@ == section_row(b@, off as int),
{
    let o = off as usize;
    let e = nul_end(b, o, o + 8);
    let name_bytes = vstd::slice::slice_subrange(b, o, e);
    let mut s = utf8_lossy(name_bytes);
    push_str(&mut s, "\tRVA=0x");
    let va = hex_string(u32_at_exec(b, off + 12) as u64, 8);
    push_str(&mut s, va.as_str());
    push_str(&mut s, "\tVirtualSize=");
    let vs = decimal_string(u32_at_exec(b, off + 8) as u64);
    push_str(&mut s, vs.as_str());
    push_str(&mut s, "\tRawSize=");
    let rs = decimal_string(u32_at_exec(b, off + 16) as u64);
    push_str(&mut s, rs.as_str());
    push_str(&mut s, "\tCharacteristics=0x");
    let ch = hex_string(u32_at_exec(b, off + 36) as u64, 8);
    push_str(&mut s, ch.as_str());
    s
}

/// The rows of the section table.
fn section_rows_strings(b: &[u8], table: u64, count: u16) -> (rows: Vec<String>)
    requires
        table <= 0x1_0000_0000 + 24 + 0xffff,
    ensures
        views(rows@) == section_rows(b@, table as int, 0, count as int),
{
    let mut rows: Vec<String> = Vec::new();
    let mut i: u64 = 0;
    while i < count as u64 && (b.len() as u64) >= table + 40 * i + 40
        invariant
            i <= count,
            table <= 0x1_0000_0000 + 24 + 0xffff,
            section_rows(b@, table as int, 0, count as int) == views(rows@) + section_rows(
                b@,
                table as int,
                i as int,
                count as int,
            ),
        decreases count - i,
    {
        let row = section_row_string(b, table + 40 * i);
        let ghost before = rows@;
        rows.push(row);
        proof {
            assert(views(rows@) == views(before).push(row@));
            assert(views(before) + section_rows(b@, table as int, i as int, count as int) == views(
                rows@,
            ) + section_rows(b@, table as int, i + 1, count as int));
        }
        i += 1;
    }
    assert(views(rows@) + Seq::<Seq<char>>::empty() == views(rows@));
    rows
}

/// The PE part of the report on a file's bytes: whether it is a PE file,
/// its machine, section count, timestamp, optional-header magic, entry point
/// and image base, and a row per section header.
pub fn pe_report_string(b: &[u8]) -> (s: String)
    ensures
        s@ == pe_report(b@),
{
    if b.len() < 0x40 || b[0] != 0x4d || b[1] != 0x5a {
        return String::from_str("PE 检查: 不是 MZ/PE 文件。");
    }
    let pe = u32_at_exec(b, 0x3c) as u64;
    if (b.len() as u64) < pe + 24 || b[pe as usize] != 0x50 || b[pe as usize + 1] != 0x45
        || b[pe as usize + 2] != 0 || b[pe as usize + 3] != 0 {
        return String::from_str("PE 检查: MZ 存在，但 PE 头无效。");
    }
    let m = u16_at_exec(b, pe + 4);
    let sections = u16_at_exec(b, pe + 6);
    let timestamp = u32_at_exec(b, pe + 8);
    let optional_size = u16_at_exec(b, pe + 20);
    let opt = pe + 24;
    let magic = u16_at_exec(b, opt);
    let entry = u32_at_exec(b, opt + 16);
    let image_base = if magic == 0x20b {
        u64_at_exec(b, opt + 24)
    } else {
        u32_at_exec(b, opt + 28) as u64
    };
    let mut s = String::from_str("PE 基础信息:\nMachine: 0x");
    let x = hex_string(m as u64, 4);
    push_str(&mut s, x.as_str());
    push_str(&mut s, " (");
    push_str(&mut s, machine_name(m));
    push_str(&mut s, ")\nSections: ");
    let x = decimal_string(sections as u64);
    push_str(&mut s, x.as_str());
    push_str(&mut s, "\nTimeDateStamp: ");
    let x = decimal_string(timestamp as u64);
    push_str(&mut s, x.as_str());
    push_str(&mut s, "\nOptionalMagic: 0x");
    let x = hex_string(magic as u64, 4);
    push_str(&mut s, x.as_str());
    push_str(&mut s, "\nEntryPointRVA: 0x");
    let x = hex_string(entry as u64, 8);
    push_str(&mut s, x.as_str());
    push_str(&mut s, "\nImageBase: 0x");
    let x = hex_string(image_base, 0);
    push_str(&mut s, x.as_str());
    let rows = section_rows_strings(b, opt + optional_size as u64, sections);
    if rows.len() > 0 {
        push_str(&mut s, "\n\n");
        push_str(&mut s, "PE 节区:\n");
        let joined = join_strings(rows.as_slice(), "\n");
        push_str(&mut s, joined.as_str());
    }
    s
}

/// The report of the PE analysis tool: the file summary, then the PE part.
pub fn analyze_pe_basic(summary: &str, bytes: &[u8]) -> (s: String)
    ensures
        s@ == summary@ + "\n\n"@ + pe_report(bytes@),
{
    let mut s = String::from_str(summary);
    push_str(&mut s, "\n\n");
    let r = pe_report_string(bytes);
    push_str(&mut s, r.as_str());
    s
}

} // verus!
