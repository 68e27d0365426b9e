use chat_to_chat::reports::write_plan;
use chat_to_chat::pe::{analyze_pe_basic, machine_name, pe_report_string, read_u16, read_u32, read_u64};
use chat_to_chat::preview::{file_preview, is_probably_text, summarize_file};
use chat_to_chat::reports::{
    list_dir_report, local_file_context, read_file_report, require_dir, require_file, tool_file_info,
    write_block_target, write_file_report, write_summary_line, ContextEntry, ContextItem, DirEntryInfo,
    FileInfoStep, PathKind, LOCAL_CONTEXT_HEADER,
};
use chat_to_chat::paths::AllowedPath;

#[test]
fn summary_digest_is_sha256() {
    let summary = summarize_file("/e", 0, "t", b"");
    assert!(summary.contains("\nSHA256: e3b0c44298fc1c149afbf4c8996fb92427ae41e4649b934ca495991b7852b855\n"));
}

#[test]
fn preview_decodes_utf8_strictly() {
    assert_eq!(file_preview("é".as_bytes()), "文本预览:\n```text\né\n```");
    assert_eq!(file_preview(&[0xff, 0x41]), "十六进制预览:\n```hex\nff 41\n```");
}

#[test]
fn text_detection_counts_odd_controls() {
    assert!(is_probably_text(""));
    assert!(is_probably_text("line\n\tx\r\n"));
    assert!(!is_probably_text("\u{1}\u{2}abc"));
    let mostly = format!("{}{}", "a".repeat(96), "\u{0}".repeat(4));
    assert!(is_probably_text(&mostly));
    let too_many = format!("{}{}", "a".repeat(95), "\u{0}".repeat(5));
    assert!(!is_probably_text(&too_many));
}

#[test]
fn text_preview_of_small_file() {
    assert_eq!(file_preview(b"hello"), "文本预览:\n```text\nhello\n```");
}

#[test]
fn text_preview_of_large_file_is_cut() {
    let bytes = vec![b'a'; 61441];
    let expected = format!("文本预览:\n```text\n{}\n\n[文件过大，已截断前 60KB]\n```", "a".repeat(61440));
    assert_eq!(file_preview(&bytes), expected);
}

#[test]
fn binary_preview_is_hex_rows_of_sixteen() {
    assert_eq!(file_preview(&[0, 1, 2]), "十六进制预览:\n```hex\n00 01 02\n```");
    let bytes: Vec<u8> = (0u8..18).collect();
    assert_eq!(
        file_preview(&bytes),
        "十六进制预览:\n```hex\n00 01 02 03 04 05 06 07 08 09 0a 0b 0c 0d 0e 0f\n10 11\n```"
    );
    let big = vec![0u8; 1025];
    let preview = file_preview(&big);
    assert!(preview.ends_with("\n[二进制文件，仅显示前 1024 bytes]\n```"));
    assert_eq!(preview.matches("00").count(), 1024);
}

#[test]
fn file_summary_lists_size_time_digest_and_preview() {
    assert_eq!(
        summarize_file("/tmp/a.txt", 3, "unknown", b"abc"),
        "[文件] /tmp/a.txt\n大小: 3 bytes\n修改时间: unknown\nSHA256: ba7816bf8f01cfea414140de5dae2223b00361a396177a9cb410ff61f20015ad\n文本预览:\n```text\nabc\n```"
    );
}

#[test]
fn read_report_clamps_the_window() {
    assert_eq!(
        read_file_report("f", b"hello world", 6, 100),
        "path: f\noffset: 6\nlength: 5\n文本预览:\n```text\nworld\n```"
    );
    assert_eq!(
        read_file_report("f", b"hello", 50, 10),
        "path: f\noffset: 5\nlength: 0\n文本预览:\n```text\n\n```"
    );
    let big = vec![b'z'; 200_000];
    let report = read_file_report("f", &big, 10, u64::MAX);
    assert!(report.starts_with("path: f\noffset: 10\nlength: 122880\n"));
}

#[test]
fn kind_checks_name_the_path() {
    assert_eq!(require_file("/a".into(), true), Ok("/a".to_string()));
    assert_eq!(require_file("/a".into(), false), Err("不是文件: /a".to_string()));
    assert_eq!(require_dir("/a".into(), true), Ok("/a".to_string()));
    assert_eq!(require_dir("/a".into(), false), Err("不是目录: /a".to_string()));
}

#[test]
fn write_reports_count_characters() {
    assert_eq!(write_file_report("/d/a.txt", "héllo"), "已写入 /d/a.txt，5 字符");
    assert_eq!(write_summary_line("/d/a.txt", "写入"), "已写入 /d/a.txt (2 字符)");
}

#[test]
fn write_block_target_refuses_unauthorised_paths() {
    let allowed = vec![AllowedPath { path: "/data".to_string(), is_file: false }];
    assert_eq!(write_block_target(Ok("/data/x".into()), &allowed), Ok("/data/x".to_string()));
    assert_eq!(
        write_block_target(Ok("/etc/passwd".into()), &allowed),
        Err("AI2 尝试写入未授权路径: /etc/passwd".to_string())
    );
    assert_eq!(write_block_target(Err("bad".into()), &allowed), Err("bad".to_string()));
}

#[test]
fn directory_listing_rows() {
    let entries = vec![
        DirEntryInfo { path: "/d/a".into(), is_dir: false, size: 3 },
        DirEntryInfo { path: "/d/b".into(), is_dir: true, size: 4096 },
    ];
    assert_eq!(list_dir_report(&entries), "file\t/d/a\t3 bytes\ndir\t/d/b\t4096 bytes");
    assert_eq!(list_dir_report(&[]), "");
    let many: Vec<DirEntryInfo> =
        (0..250).map(|i| DirEntryInfo { path: format!("/d/{i}"), is_dir: false, size: 0 }).collect();
    assert_eq!(list_dir_report(&many).lines().count(), 200);
}

#[test]
fn file_info_by_kind() {
    assert!(matches!(tool_file_info("/f", PathKind::File), FileInfoStep::Summarize));
    assert!(matches!(tool_file_info("/d", PathKind::Dir), FileInfoStep::ListDir));
    match tool_file_info("/dev/x", PathKind::Other) {
        FileInfoStep::Answer(t) => assert_eq!(t, "其他路径类型: /dev/x"),
        other => panic!("unexpected {other:?}"),
    }
}

#[test]
fn local_context_sections() {
    assert_eq!(local_file_context(&[]), Ok(String::new()));
    let items = vec![
        ContextItem::File("S1".into()),
        ContextItem::Dir {
            display: "/d".into(),
            entries: vec![
                ContextEntry::Dir("/d/sub".into()),
                ContextEntry::Other("/d/sock".into()),
                ContextEntry::File("S2".into()),
            ],
        },
    ];
    assert_eq!(
        local_file_context(&items),
        Ok(format!("{}\n\nS1\n\n授权目录: /d\n[目录] /d/sub\n[其他] /d/sock\nS2", LOCAL_CONTEXT_HEADER))
    );
}

#[test]
fn local_context_fails_on_first_missing_path() {
    let items = vec![
        ContextItem::File("S1".into()),
        ContextItem::Missing("/x".into()),
        ContextItem::Missing("/y".into()),
    ];
    assert_eq!(local_file_context(&items), Err("授权路径不存在: /x".to_string()));
}

#[test]
fn local_context_shows_fifty_entries() {
    let entries: Vec<ContextEntry> = (0..60).map(|i| ContextEntry::Dir(format!("/d/{i}"))).collect();
    let text = local_file_context(&[ContextItem::Dir { display: "/d".into(), entries }]).unwrap();
    assert_eq!(text.matches("[目录]").count(), 50);
}

#[test]
fn little_endian_reads() {
    let b = [1u8, 2, 3, 4, 5, 6, 7, 8, 9];
    assert_eq!(read_u16(&b, 1), Some(0x0302));
    assert_eq!(read_u16(&b, 8), None);
    assert_eq!(read_u32(&b, 0), Some(0x04030201));
    assert_eq!(read_u32(&b, 6), None);
    assert_eq!(read_u64(&b, 1), Some(0x0908070605040302));
    assert_eq!(read_u64(&b, 2), None);
    assert_eq!(read_u16(&b, usize::MAX), None);
}

#[test]
fn machine_names() {
    assert_eq!(machine_name(0x014c), "x86");
    assert_eq!(machine_name(0x8664), "x64");
    assert_eq!(machine_name(0xaa64), "ARM64");
    assert_eq!(machine_name(0x01c4), "ARM");
    assert_eq!(machine_name(0x1234), "unknown");
}

#[test]
fn pe_report_rejects_non_pe() {
    assert_eq!(analyze_pe_basic("S", b"hello"), "S\n\nPE 检查: 不是 MZ/PE 文件。");
    let mut mz = vec![0u8; 0x40];
    mz[0] = b'M';
    mz[1] = b'Z';
    mz[0x3c] = 0x10;
    assert_eq!(pe_report_string(&mz), "PE 检查: MZ 存在，但 PE 头无效。");
}

fn put(b: &mut [u8], at: usize, v: &[u8]) {
    b[at..at + v.len()].copy_from_slice(v);
}

#[test]
fn pe_report_of_a_small_image() {
    let mut b = vec![0u8; 0x148 + 40];
    put(&mut b, 0, b"MZ");
    put(&mut b, 0x3c, &0x40u32.to_le_bytes());
    put(&mut b, 0x40, b"PE\0\0");
    put(&mut b, 0x44, &0x8664u16.to_le_bytes());
    put(&mut b, 0x46, &1u16.to_le_bytes());
    put(&mut b, 0x48, &0x12345678u32.to_le_bytes());
    put(&mut b, 0x54, &0xF0u16.to_le_bytes());
    put(&mut b, 0x58, &0x20bu16.to_le_bytes());
    put(&mut b, 0x68, &0x1000u32.to_le_bytes());
    put(&mut b, 0x70, &0x1_4000_0000u64.to_le_bytes());
    put(&mut b, 0x148, b".text\0\0\0");
    put(&mut b, 0x150, &0x200u32.to_le_bytes());
    put(&mut b, 0x154, &0x1000u32.to_le_bytes());
    put(&mut b, 0x158, &0x400u32.to_le_bytes());
    put(&mut b, 0x16c, &0x6000_0020u32.to_le_bytes());
    assert_eq!(
        analyze_pe_basic("S", &b),
        "S\n\nPE 基础信息:\nMachine: 0x8664 (x64)\nSections: 1\nTimeDateStamp: 305419896\nOptionalMagic: 0x020b\nEntryPointRVA: 0x00001000\nImageBase: 0x140000000\n\nPE 节区:\n.text\tRVA=0x00001000\tVirtualSize=512\tRawSize=1024\tCharacteristics=0x60000020"
    );
}

#[test]
fn write_plan_needs_an_authorised_path() {
    let reply = "<write_file path=\"/data/a\">\nx\n</write_file>";
    assert!(write_plan(reply, &[]).is_empty());
    let allowed = vec![AllowedPath { path: "/data".to_string(), is_file: false }];
    let plan = write_plan(reply, &allowed);
    assert_eq!(plan.len(), 1);
    assert_eq!((plan[0].path.as_str(), plan[0].content.as_str()), ("/data/a", "x"));
}
