use chatty_stats::general_stats::{is_data_file, process_directory, reduce_sites, select_data_files, GeneralStats};
use chatty_stats::record::{fold_records, line_record, parse_record, process_json_file, LineRecord, RecordError};
use chatty_stats::site_data::{get_site_top_ten, get_tag_top_ten, process_site, SiteData, SiteTable};
use chatty_stats::tag_data::{TagData, TagTable};

fn words(n: usize, w: &str) -> String {
    vec![w; n].join(" ")
}

fn line(title: usize, body: usize, tags: &[&str]) -> String {
    let tags: Vec<String> = tags.iter().map(|t| format!("\"{}\"", t)).collect();
    format!(
        "{{\"texts\": [\"{}\", \"{}\"], \"tags\": [{}]}}",
        words(title, "title"),
        words(body, "body"),
        tags.join(", ")
    )
}

fn site_content() -> String {
    [line(10, 40, &["rust", "verus"]), line(12, 30, &["rust"]), line(2, 48, &["json", "serde"])].join("\n")
}

fn key(s: &str) -> String {
    s.to_string()
}

#[test]
fn test_empty_process_directory() {
    let processed = process_directory(None);
    assert_eq!(processed.padron, "106998");
    assert_eq!(processed.sites.len(), 0);
    assert_eq!(processed.tags.len(), 0);
    assert_eq!(processed.totals.chatty_sites.len(), 0);
    assert_eq!(processed.totals.chatty_tags.len(), 0);
}

#[test]
fn test_process_directory() {
    let a = [line(3, 7, &["a", "b"]), line(1, 1, &["a"])].join("\n");
    let b = [line(5, 5, &["c"]), line(2, 2, &["d", "a"])].join("\n");
    let files = vec![
        (key("site_a.jsonl"), process_site(&a)),
        (key("site_b.json"), process_site(&b)),
        (key("README.md"), process_site(&a)),
    ];
    let processed = process_directory(Some(files));
    assert_eq!(processed.padron, "106998");
    assert_eq!(processed.sites.len(), 2);
    assert_eq!(processed.tags.len(), 4);
    assert_eq!(processed.totals.chatty_sites.len(), 2);
    assert_eq!(processed.totals.chatty_tags.len(), 4);
}

#[test]
fn test_process_json_file() {
    let (questions, words, tags) = process_json_file(&site_content()).unwrap();
    assert_eq!(questions, 3);
    assert_eq!(words, 142);
    assert_eq!(tags.len(), 4);
}

#[test]
fn test_get_tag_top_ten() {
    let mut tags = TagTable::new();
    for i in 1..=11usize {
        let tag_name = format!("tag{}", i);
        let questions = if i == 11 { 1000 } else { 12 - i };
        tags.add(&tag_name, questions, 1000);
    }
    let chatty_tags = get_tag_top_ten(&tags);
    assert_eq!(
        chatty_tags,
        vec!["tag10", "tag9", "tag8", "tag7", "tag6", "tag5", "tag4", "tag3", "tag2", "tag1"]
    );
}

#[test]
fn test_get_site_top_ten() {
    let mut sites: Vec<(String, SiteData)> = Vec::new();
    for i in 1..=11usize {
        let site_name = format!("site{}", i);
        let questions = if i == 11 { 100 } else { 12 - i };
        sites.push((
            site_name,
            SiteData { questions, words: 100, tags: TagTable::new(), chatty_tags: Vec::new() },
        ));
    }
    let chatty_sites = get_site_top_ten(&sites);
    assert_eq!(
        chatty_sites,
        vec!["site10", "site9", "site8", "site7", "site6", "site5", "site4", "site3", "site2", "site1"]
    );
}

#[test]
fn three_line_file_tally() {
    let records = vec![
        LineRecord { words: 10, tags: vec![key("A"), key("B")] },
        LineRecord { words: 5, tags: vec![key("A")] },
        LineRecord { words: 0, tags: vec![] },
    ];
    let (questions, words, tags) = fold_records(&records);
    assert_eq!(questions, 3);
    assert_eq!(words, 15);
    assert_eq!(tags.get(&key("A")), Some(TagData { questions: 2, words: 15 }));
    assert_eq!(tags.get(&key("B")), Some(TagData { questions: 1, words: 10 }));
    assert_eq!(tags.len(), 2);
}

#[test]
fn ranking_keeps_at_most_ten_known_keys_in_order() {
    let mut tags = TagTable::new();
    for i in 1..=15usize {
        tags.add(&format!("t{}", i), i, 100 * i + 7 * (i % 4));
    }
    let top = get_tag_top_ten(&tags);
    assert_eq!(top.len(), 10);
    let ratios: Vec<usize> = top
        .iter()
        .map(|k| {
            let d = tags.get(k).unwrap();
            d.words / d.questions
        })
        .collect();
    for w in ratios.windows(2) {
        assert!(w[0] >= w[1]);
    }
}

#[test]
fn ranking_fewer_than_ten_and_empty() {
    let mut tags = TagTable::new();
    tags.add(&key("low"), 4, 7);
    tags.add(&key("high"), 1, 9);
    assert_eq!(get_tag_top_ten(&tags), vec!["high", "low"]);
    assert_eq!(get_tag_top_ten(&TagTable::new()), Vec::<String>::new());
}

#[test]
fn ratio_is_truncating() {
    let mut tags = TagTable::new();
    tags.add(&key("a"), 3, 8);
    tags.add(&key("b"), 1, 2);
    tags.add(&key("c"), 2, 5);
    // 8/3 = 2, 2/1 = 2, 5/2 = 2: all tie at two; a ratio of 3 wins.
    tags.add(&key("d"), 3, 9);
    let top = get_tag_top_ten(&tags);
    assert_eq!(top[0], "d");
    assert_eq!(top.len(), 4);
}

#[test]
fn unreadable_directory_report_is_empty() {
    let r = GeneralStats::empty();
    assert_eq!(r.padron, "106998");
    assert_eq!(r.sites.len(), 0);
    assert!(r.totals.chatty_tags.is_empty());
}

#[test]
fn add_merges_equal_keys() {
    let mut t = TagTable::new();
    t.add(&key("x"), 1, 4);
    t.add(&key("x"), 2, 6);
    assert_eq!(t.len(), 1);
    assert_eq!(t.get(&key("x")), Some(TagData { questions: 3, words: 10 }));
    assert_eq!(t.get(&key("y")), None);
}

#[test]
fn add_saturates_at_the_largest_size() {
    let mut t = TagTable::new();
    t.add(&key("x"), usize::MAX, usize::MAX);
    t.add(&key("x"), 1, 1);
    assert_eq!(t.get(&key("x")), Some(TagData { questions: usize::MAX, words: usize::MAX }));
}

#[test]
fn parse_record_errors() {
    assert_eq!(parse_record("not json").unwrap_err(), RecordError::InvalidJson);
    assert_eq!(parse_record("{\"tags\": []}").unwrap_err(), RecordError::MalformedRecord);
    assert_eq!(parse_record("{\"texts\": []}").unwrap_err(), RecordError::MalformedRecord);
    assert_eq!(parse_record("{\"texts\": \"a b\", \"tags\": []}").unwrap_err(), RecordError::MalformedRecord);
}

#[test]
fn parse_record_counts_words_and_distinct_tags() {
    let r = parse_record("{\"texts\": [\"  one two\\tthree \", 5, \"\", \"four\"], \"tags\": [\"x\", \"y\", \"x\", 3], \"id\": 1}").unwrap();
    assert_eq!(r.words, 4);
    assert_eq!(r.tags, vec!["x", "y"]);
}

#[test]
fn line_record_on_items() {
    let texts = vec![Some(key("a b c")), None, Some(key("  d\u{3000}e "))];
    let tags = vec![Some(key("t")), Some(key("t")), None, Some(key("u"))];
    let r = line_record(&texts, &tags);
    assert_eq!(r.words, 5);
    assert_eq!(r.tags, vec!["t", "u"]);
}

#[test]
fn file_with_trailing_empty_lines() {
    let content = format!("{}\n{}\n\n\n", line(1, 2, &["a"]), line(0, 0, &[]));
    let (q, w, tags) = process_json_file(&content).unwrap();
    assert_eq!(q, 2);
    assert_eq!(w, 3);
    assert_eq!(tags.get(&key("a")), Some(TagData { questions: 1, words: 3 }));
}

#[test]
fn file_fails_on_first_bad_line() {
    let content = format!("{}\n{{\"texts\": []}}\nnot json", line(1, 2, &["a"]));
    assert_eq!(process_json_file(&content).unwrap_err(), RecordError::MalformedRecord);
    let content = format!("{}\nnot json\n{{\"texts\": []}}", line(1, 2, &["a"]));
    assert_eq!(process_json_file(&content).unwrap_err(), RecordError::InvalidJson);
    assert!(process_site("[1, 2").is_err());
}

#[test]
fn empty_file_is_an_empty_site() {
    let site = process_site("").unwrap();
    assert_eq!(site.questions, 0);
    assert_eq!(site.words, 0);
    assert_eq!(site.tags.len(), 0);
}

#[test]
fn site_keeps_its_chatty_tags() {
    let site = process_site(&site_content()).unwrap();
    assert_eq!(site.questions, 3);
    assert_eq!(site.words, 142);
    // rust: 2 questions, 92 words (ratio 46); verus, json and serde: ratio 50.
    assert_eq!(site.chatty_tags.len(), 4);
    assert_eq!(site.chatty_tags[3], "rust");
}

#[test]
fn data_file_names() {
    assert!(is_data_file("stackoverflow.com.json"));
    assert!(is_data_file("data1.jsonl"));
    assert!(is_data_file("jsonfile"));
    assert!(!is_data_file("README.md"));
    assert!(!is_data_file("JSON.txt"));
    assert!(!is_data_file("jso"));
    let kept = select_data_files(vec![key("a.json"), key(".git"), key("b.jsonl")]);
    assert_eq!(kept, vec!["a.json", "b.jsonl"]);
}

#[test]
fn reduce_merges_tags_and_ranks_sites() {
    let s1 = process_site(&[line(3, 7, &["a", "b"]), line(1, 1, &["a"])].join("\n")).unwrap();
    let s2 = process_site(&[line(30, 30, &["a"])].join("\n")).unwrap();
    let empty = process_site("").unwrap();
    let r = reduce_sites(vec![(key("one.json"), s1), (key("two.json"), s2), (key("none.json"), empty)]);
    assert_eq!(r.sites.len(), 3);
    assert_eq!(r.tags.get(&key("a")), Some(TagData { questions: 3, words: 72 }));
    assert_eq!(r.tags.get(&key("b")), Some(TagData { questions: 1, words: 10 }));
    assert_eq!(r.totals.chatty_sites, vec!["two.json", "one.json"]);
    assert_eq!(r.totals.chatty_tags, vec!["a", "b"]);
}

#[test]
fn site_table_replaces_equal_names() {
    let mut t = SiteTable::new();
    let s1 = process_site(&line(1, 1, &["a"])).unwrap();
    let s2 = process_site(&line(2, 2, &["b"])).unwrap();
    t.insert(key("x.json"), s1);
    t.insert(key("x.json"), s2);
    assert_eq!(t.len(), 1);
    assert_eq!(t.entries[0].1.words, 4);
}

#[test]
fn repeated_tag_in_a_line_counts_once() {
    let content = "{\"texts\": [\"a b c\"], \"tags\": [\"x\", \"x\"]}\r\n{\"texts\": [\"d\"], \"tags\": [\"x\"]}\n";
    let (q, w, tags) = process_json_file(content).unwrap();
    assert_eq!(q, 2);
    assert_eq!(w, 4);
    assert_eq!(tags.get(&key("x")), Some(TagData { questions: 2, words: 4 }));
    assert_eq!(tags.len(), 1);
}

#[test]
fn empty_file_tally_is_zero() {
    let (q, w, tags) = process_json_file("").unwrap();
    assert_eq!((q, w, tags.len()), (0, 0, 0));
    let (q, w, tags) = process_json_file("\n\n").unwrap();
    assert_eq!((q, w, tags.len()), (0, 0, 0));
}
