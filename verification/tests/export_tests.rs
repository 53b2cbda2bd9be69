//! Bookmark record construction for export.

use quer::export::bookmark_records;
use quer::scanner::Finding;

fn finding(path: &str, offset: usize, size: usize, content: &str) -> Finding {
    Finding {
        filepath: path.to_string(),
        offset,
        match_size: size,
        match_content: content.to_string(),
    }
}

#[test]
fn records_only_the_chosen_file_with_running_ids() {
    let findings = vec![
        finding("/r/a.bin", 0, 2, "de ad"),
        finding("/r/b.bin", 4, 2, "de ad"),
        finding("/r/a.bin", 6, 2, "de ad"),
    ];
    let records = bookmark_records(&findings, &"/r/a.bin".to_string());
    assert_eq!(records.len(), 2);
    assert_eq!(records[0].id, 1);
    assert_eq!(records[0].name, "de ad @ 0x0");
    assert_eq!(records[0].address, 0);
    assert_eq!(records[0].size, 2);
    assert_eq!(records[1].id, 2);
    assert_eq!(records[1].name, "de ad @ 0x6");
    assert_eq!(records[1].address, 6);
}

#[test]
fn offsets_render_in_lowercase_hex() {
    let findings = vec![finding("/f", 255, 1, "ff"), finding("/f", 4096, 1, "00")];
    let records = bookmark_records(&findings, &"/f".to_string());
    assert_eq!(records[0].name, "ff @ 0xff");
    assert_eq!(records[1].name, "00 @ 0x1000");
}

#[test]
fn no_matching_findings_no_records() {
    let findings = vec![finding("/r/a.bin", 0, 2, "de ad")];
    let records = bookmark_records(&findings, &"/r/z.bin".to_string());
    assert!(records.is_empty());
}
