//! Scanning byte buffers: cap, alignment, ordering, rendering.

use quer::hex::to_hex_pairs;
use quer::matcher::Pattern;
use quer::pattern::{ContentMode, PatternError};
use quer::scanner::{scan_slice, SearchOptions};

fn hex_options(text: &str, max_hits: u32, alignment: u32) -> SearchOptions {
    SearchOptions {
        pattern: Pattern::compile(text, ContentMode::Hex),
        max_hits,
        alignment,
    }
}

fn text_options(text: &str, max_hits: u32) -> SearchOptions {
    SearchOptions {
        pattern: Pattern::compile(text, ContentMode::Text),
        max_hits,
        alignment: 0,
    }
}

#[test]
fn renders_hex_pairs() {
    assert_eq!(to_hex_pairs(&[0xde, 0xad, 0xbe, 0xef]), "de ad be ef");
    assert_eq!(to_hex_pairs(&[0x0f]), "0f");
    assert_eq!(to_hex_pairs(&[]), "");
    assert_eq!(to_hex_pairs(&[0x00, 0xff]), "00 ff");
}

#[test]
fn finds_pairs_at_an_offset() {
    // Hex-to-expression translation end to end: the pairs' bytes, at an
    // offset, give one match there with length equal to the pair count.
    let opts = hex_options("DE AD BE EF", 10, 0);
    let data = [0x00u8, 0x11, 0x22, 0xde, 0xad, 0xbe, 0xef, 0x33];
    let fs = scan_slice(&opts, "buf", &data);
    assert_eq!(fs.len(), 1);
    assert_eq!(fs[0].filepath, "buf");
    assert_eq!(fs[0].offset, 3);
    assert_eq!(fs[0].match_size, 4);
    assert_eq!(fs[0].match_content, "de ad be ef");
}

#[test]
fn matches_bytes_that_are_not_valid_text() {
    // Byte-exact semantics: 0xFF never occurs in valid text encoding.
    let opts = hex_options("FF FE", 10, 0);
    let data = [0xffu8, 0xfe, 0x41];
    let fs = scan_slice(&opts, "buf", &data);
    assert_eq!(fs.len(), 1);
    assert_eq!(fs[0].offset, 0);
    assert_eq!(fs[0].match_content, "ff fe");
}

#[test]
fn caps_hits_per_buffer_in_offset_order() {
    let opts = hex_options("00", 3, 0);
    let data = [0u8; 5];
    let fs = scan_slice(&opts, "buf", &data);
    assert_eq!(fs.len(), 3);
    assert_eq!(fs[0].offset, 0);
    assert_eq!(fs[1].offset, 1);
    assert_eq!(fs[2].offset, 2);
}

#[test]
fn alignment_keeps_only_multiples() {
    let opts = hex_options("DE", 10, 2);
    let data = [0xdeu8, 0xde, 0xde, 0xde, 0xde];
    let fs = scan_slice(&opts, "buf", &data);
    assert_eq!(fs.len(), 3);
    assert_eq!(fs[0].offset, 0);
    assert_eq!(fs[1].offset, 2);
    assert_eq!(fs[2].offset, 4);
}

#[test]
fn suppressed_matches_still_consume_the_cap() {
    // Matches at offsets 0 and 1 are counted against the cap of 2; the
    // one at 1 is suppressed by the alignment, so only one comes out —
    // the aligned match at 2 no longer fits the budget.
    let opts = hex_options("DE", 2, 2);
    let data = [0xdeu8, 0xde, 0xde];
    let fs = scan_slice(&opts, "buf", &data);
    assert_eq!(fs.len(), 1);
    assert_eq!(fs[0].offset, 0);
}

#[test]
fn text_mode_ignores_alignment() {
    let opts = SearchOptions {
        pattern: Pattern::compile("ab", ContentMode::Text),
        max_hits: 10,
        alignment: 2,
    };
    let data = *b"xabxab";
    let fs = scan_slice(&opts, "buf", &data);
    assert_eq!(fs.len(), 2);
    assert_eq!(fs[0].offset, 1);
    assert_eq!(fs[1].offset, 4);
}

#[test]
fn text_mode_renders_text() {
    let opts = text_options("ab+", 10);
    let data = *b"xabbby";
    let fs = scan_slice(&opts, "buf", &data);
    assert_eq!(fs.len(), 1);
    assert_eq!(fs[0].offset, 1);
    assert_eq!(fs[0].match_size, 4);
    assert_eq!(fs[0].match_content, "abbb");
}

#[test]
fn text_mode_replaces_undecodable_bytes() {
    let opts = text_options("(?-u:.)ab", 10);
    let data = [0xffu8, b'a', b'b'];
    let fs = scan_slice(&opts, "buf", &data);
    assert_eq!(fs.len(), 1);
    assert_eq!(fs[0].offset, 0);
    assert_eq!(fs[0].match_content, "\u{fffd}ab");
}

#[test]
fn failed_pattern_scans_nothing() {
    let opts = SearchOptions {
        pattern: Err(PatternError::EmptyPattern),
        max_hits: 10,
        alignment: 0,
    };
    let fs = scan_slice(&opts, "buf", &[1u8, 2, 3]);
    assert!(fs.is_empty());
}

#[test]
fn wildcard_matches_any_single_byte() {
    let opts = hex_options("DE . AD", 10, 0);
    let data = [0xdeu8, 0x00, 0xad, 0xde, 0xff, 0xad];
    let fs = scan_slice(&opts, "buf", &data);
    assert_eq!(fs.len(), 2);
    assert_eq!(fs[0].offset, 0);
    assert_eq!(fs[0].match_content, "de 00 ad");
    assert_eq!(fs[1].offset, 3);
    assert_eq!(fs[1].match_content, "de ff ad");
}

#[test]
fn end_to_end_two_buffers() {
    // Two files: one holds the pairs at offsets 0 and 6, the other at 0.
    let opts = hex_options("DEAD", 10, 0);
    let a = [0xdeu8, 0xad, 0xbe, 0xef, 0x00, 0x00, 0xde, 0xad];
    let b = [0xdeu8, 0xad];
    let fa = scan_slice(&opts, "a.bin", &a);
    let fb = scan_slice(&opts, "b.bin", &b);
    assert_eq!(fa.len(), 2);
    assert_eq!(fa[0].offset, 0);
    assert_eq!(fa[0].match_size, 2);
    assert_eq!(fa[0].match_content, "de ad");
    assert_eq!(fa[1].offset, 6);
    assert_eq!(fa[1].match_size, 2);
    assert_eq!(fb.len(), 1);
    assert_eq!(fb[0].offset, 0);
    assert_eq!(fb[0].match_size, 2);
    assert_eq!(fb[0].filepath, "b.bin");
}
