use bt_extract::extract::extract_backtraces;
use bt_extract::symbolize::{annotate_frames, resolver_addresses};

#[test]
fn resolver_gets_pc_then_frame_names() {
    let r = extract_backtraces("PC:0x400d1234\nBacktrace:0x400d1111:0x20 0x400d2222:0x30\n");
    let a = resolver_addresses(&r[0]);
    assert_eq!(a, vec!["0x400d1234".to_string(), "0x400d1111".to_string(), "0x400d2222".to_string()]);
}

#[test]
fn resolved_lines_pair_with_frames() {
    let r = extract_backtraces("PC:0x400d1234\nBacktrace:0x400d1111:0x20 0x400d2222:0x30\n");
    let lines = vec!["f at a.c:1".to_string(), "g at b.c:2".to_string(), "h at c.c:3".to_string()];
    let p = annotate_frames(&r[0], &lines);
    assert_eq!(p, vec![("0x20".to_string(), "f at a.c:1".to_string()), ("0x30".to_string(), "g at b.c:2".to_string())]);
    let short = vec!["only".to_string()];
    assert_eq!(annotate_frames(&r[0], &short), vec![("0x20".to_string(), "only".to_string())]);
    assert!(annotate_frames(&r[0], &Vec::new()).is_empty());
}
