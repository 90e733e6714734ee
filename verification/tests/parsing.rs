use openclaw_panel::bytes::contains_bytes;
use openclaw_panel::bytes::find_bytes;
use openclaw_panel::bytes::last_token;
use openclaw_panel::bytes::parse_u32;
use openclaw_panel::bytes::split_lines;
use openclaw_panel::bytes::trim_bytes;
use openclaw_panel::bytes::u32_to_dec;
use openclaw_panel::inspector::build_port_pattern;
use openclaw_panel::inspector::list_all_probe;
use openclaw_panel::inspector::list_probe;
use openclaw_panel::inspector::table_all_probe;
use openclaw_panel::inspector::table_probe;
use openclaw_panel::skills::extract_frontmatter;
use openclaw_panel::skills::listing_mentions_registry_tool;

#[test]
fn parse_u32_reads_plain_digits() {
    assert_eq!(parse_u32(&b"12345".to_vec()), Some(12345));
    assert_eq!(parse_u32(&b"0".to_vec()), Some(0));
    assert_eq!(parse_u32(&b"007".to_vec()), Some(7));
    assert_eq!(parse_u32(&b"4294967295".to_vec()), Some(u32::MAX));
}

#[test]
fn parse_u32_rejects_everything_else() {
    assert_eq!(parse_u32(&b"".to_vec()), None);
    assert_eq!(parse_u32(&b"12a".to_vec()), None);
    assert_eq!(parse_u32(&b"-5".to_vec()), None);
    assert_eq!(parse_u32(&b" 5".to_vec()), None);
    assert_eq!(parse_u32(&b"4294967296".to_vec()), None);
    assert_eq!(parse_u32(&b"99999999999999999999".to_vec()), None);
}

#[test]
fn decimal_rendering_round_trips() {
    assert_eq!(u32_to_dec(18789), b"18789".to_vec());
    assert_eq!(u32_to_dec(0), b"0".to_vec());
    assert_eq!(u32_to_dec(u32::MAX), b"4294967295".to_vec());
    assert_eq!(parse_u32(&u32_to_dec(987654321)), Some(987654321));
}

#[test]
fn trim_strips_ascii_whitespace() {
    assert_eq!(trim_bytes(&b"  42\t\r\n".to_vec()), b"42".to_vec());
    assert_eq!(trim_bytes(&b"42".to_vec()), b"42".to_vec());
    assert_eq!(trim_bytes(&b"   ".to_vec()), b"".to_vec());
    assert_eq!(trim_bytes(&b"".to_vec()), b"".to_vec());
}

#[test]
fn last_token_takes_the_trailing_column() {
    assert_eq!(
        last_token(&b"  TCP    0.0.0.0:18789   0.0.0.0:0   LISTENING   5432".to_vec()),
        b"5432".to_vec()
    );
    assert_eq!(last_token(&b"5432  ".to_vec()), b"5432".to_vec());
    assert_eq!(last_token(&b"   ".to_vec()), b"".to_vec());
    assert_eq!(last_token(&b"".to_vec()), b"".to_vec());
}

#[test]
fn split_lines_matches_line_reading() {
    let lines = split_lines(&b"a\nbb\r\nccc\n".to_vec());
    assert_eq!(lines, vec![b"a".to_vec(), b"bb".to_vec(), b"ccc".to_vec()]);
    assert_eq!(split_lines(&b"".to_vec()), Vec::<Vec<u8>>::new());
    assert_eq!(
        split_lines(&b"a\n\nb".to_vec()),
        vec![b"a".to_vec(), b"".to_vec(), b"b".to_vec()]
    );
}

#[test]
fn substring_search_finds_first_occurrence() {
    assert!(contains_bytes(&b"hello world".to_vec(), &b"o w".to_vec()));
    assert!(!contains_bytes(&b"hello".to_vec(), &b"world".to_vec()));
    assert!(contains_bytes(&b"abc".to_vec(), &b"".to_vec()));
    assert_eq!(find_bytes(&b"abcabc".to_vec(), &b"bc".to_vec()), Some(1));
    assert_eq!(find_bytes(&b"abc".to_vec(), &b"zz".to_vec()), None);
}

#[test]
fn port_pattern_is_colon_and_digits() {
    assert_eq!(build_port_pattern(18789), b":18789".to_vec());
    assert_eq!(build_port_pattern(80), b":80".to_vec());
}

#[test]
fn list_probe_reads_the_first_line() {
    assert_eq!(list_probe(true, &b"1234\n5678\n".to_vec()), Some(1234));
    assert_eq!(list_probe(true, &b"  1234 \n".to_vec()), Some(1234));
    assert_eq!(list_probe(true, &b"".to_vec()), None);
    assert_eq!(list_probe(true, &b"abc\n1234\n".to_vec()), None);
}

#[test]
fn failed_probe_reads_as_no_listener() {
    assert_eq!(list_probe(false, &b"1234\n".to_vec()), None);
    assert_eq!(list_all_probe(false, &b"1234\n".to_vec()), Vec::<u32>::new());
    assert_eq!(table_probe(false, &b"x :18789 LISTENING 7\n".to_vec(), 18789), None);
    assert_eq!(
        table_all_probe(false, &b"x :18789 LISTENING 7\n".to_vec(), 18789),
        Vec::<u32>::new()
    );
}

#[test]
fn list_all_probe_collects_unique_positive_ids() {
    let out = b"100\n200\n100\n0\njunk\n300\n".to_vec();
    assert_eq!(list_all_probe(true, &out), vec![100, 200, 300]);
}

#[test]
fn table_probe_wants_port_and_listening_marker() {
    let out = b"  TCP 0.0.0.0:18789 0.0.0.0:0 ESTABLISHED 111\n  TCP 0.0.0.0:18789 0.0.0.0:0 LISTENING 222\n".to_vec();
    assert_eq!(table_probe(true, &out, 18789), Some(222));
    let other = b"  TCP 0.0.0.0:9999 0.0.0.0:0 LISTENING 333\n".to_vec();
    assert_eq!(table_probe(true, &other, 18789), None);
}

#[test]
fn table_all_probe_collects_only_listening_lines() {
    let out = b"  TCP 0.0.0.0:18789 a ESTABLISHED 111\n  TCP 0.0.0.0:18789 b LISTENING 222\n  TCP 0.0.0.0:18789 c CLOSE_WAIT 111\n".to_vec();
    assert_eq!(table_all_probe(true, &out, 18789), vec![222]);
}

#[test]
fn table_all_probe_deduplicates_listening_ids() {
    let out = b"  TCP 0.0.0.0:18789 a LISTENING 222\n  TCP [::]:18789 b LISTENING 222\n  TCP 0.0.0.0:18789 c LISTENING 333\n  UDP 0.0.0.0:18789 d LISTENING 0\n".to_vec();
    assert_eq!(table_all_probe(true, &out, 18789), vec![222, 333]);
}

#[test]
fn frontmatter_sits_between_fences() {
    let content = b"---\nname: Demo\ndescription: d\n---\nbody".to_vec();
    assert_eq!(
        extract_frontmatter(&content),
        Some(b"\nname: Demo\ndescription: d\n".to_vec())
    );
}

#[test]
fn frontmatter_needs_both_fences() {
    assert_eq!(extract_frontmatter(&b"name: Demo\n".to_vec()), None);
    assert_eq!(extract_frontmatter(&b"---\nname: Demo\n".to_vec()), None);
    assert_eq!(extract_frontmatter(&b"--".to_vec()), None);
}

#[test]
fn registry_tool_marker_is_spotted_in_listings() {
    assert!(listing_mentions_registry_tool(
        &b"/usr/lib\n`-- clawhub@1.2.3\n".to_vec()
    ));
    assert!(!listing_mentions_registry_tool(&b"`-- (empty)\n".to_vec()));
}
