use slide_voice::section::{Content, Section};

fn texts(s: &Section) -> Vec<String> {
    s.contents.iter().map(|c| c.text.clone()).collect()
}

#[test]
fn header_without_body() {
    let sections = Section::create_vec("[a.png]");
    assert_eq!(sections.len(), 1);
    assert_eq!(sections[0].filename, "a.png");
    assert!(sections[0].contents.is_empty());
    assert_eq!(sections[0].title, None);
    assert!(sections[0].video.is_none());
}

#[test]
fn title_override() {
    let sections = Section::create_vec("[a.png]\n# first\n# second\nhello");
    assert_eq!(sections.len(), 1);
    assert_eq!(sections[0].title.as_deref(), Some("second"));
    assert_eq!(texts(&sections[0]), vec!["hello".to_string()]);
}

#[test]
fn leading_content_discard() {
    let sections = Section::create_vec("stray line\n[a.png]\nhello");
    assert_eq!(sections.len(), 1);
    assert_eq!(texts(&sections[0]), vec!["hello".to_string()]);
}

#[test]
fn blank_line_preservation() {
    let sections = Section::create_vec("[a.png]\nline1\n\nline2");
    assert_eq!(sections.len(), 1);
    assert_eq!(texts(&sections[0]), vec!["line1".to_string(), "".to_string(), "line2".to_string()]);
    assert!(sections[0].contents.iter().all(|c| c.voice_id.is_none()));
}

#[test]
fn voice_id_directive() {
    let sections = Section::create_vec("[a.png]\n@42 hello\n@notanumber hello");
    let c = &sections[0].contents;
    assert_eq!(c.len(), 2);
    assert_eq!(c[0].voice_id, Some(42));
    assert_eq!(c[0].text, "hello");
    assert_eq!(c[1].voice_id, None);
    assert_eq!(c[1].text, "hello");
}

#[test]
fn voice_id_edge_cases() {
    let sections = Section::create_vec(
        "[a.png]\n@-7 low\n@+8 plus\n@2147483647 max\n@2147483648 over\n@42\n@@5 twice\n@3  two spaces",
    );
    let c = &sections[0].contents;
    assert_eq!(c.len(), 7);
    assert_eq!((c[0].voice_id, c[0].text.as_str()), (Some(-7), "low"));
    assert_eq!((c[1].voice_id, c[1].text.as_str()), (Some(8), "plus"));
    assert_eq!((c[2].voice_id, c[2].text.as_str()), (Some(2147483647), "max"));
    assert_eq!((c[3].voice_id, c[3].text.as_str()), (None, "over"));
    assert_eq!((c[4].voice_id, c[4].text.as_str()), (Some(42), ""));
    assert_eq!((c[5].voice_id, c[5].text.as_str()), (Some(5), "twice"));
    assert_eq!((c[6].voice_id, c[6].text.as_str()), (Some(3), " two spaces"));
}

#[test]
fn sections_follow_headers_in_order() {
    let text = "[one.png]\nfirst\n[two.png]\n[three.png]\n# T\nthird\n";
    let sections = Section::create_vec(text);
    let names: Vec<&str> = sections.iter().map(|s| s.filename.as_str()).collect();
    assert_eq!(names, vec!["one.png", "two.png", "three.png"]);
    assert!(sections[1].contents.is_empty());
    assert_eq!(sections[2].title.as_deref(), Some("T"));
}

#[test]
fn bom_crlf_and_trimming() {
    let text = "\u{feff}\r\n  [ dir/a.png ]  \r\n\r\n  hello \r\n\r\nworld\r\n\r\n";
    let sections = Section::create_vec(text);
    assert_eq!(sections.len(), 1);
    assert_eq!(sections[0].filename, "dir/a.png");
    assert_eq!(
        texts(&sections[0]),
        vec!["hello".to_string(), "".to_string(), "world".to_string(), "".to_string()]
    );
}

#[test]
fn empty_header_is_not_a_section() {
    let sections = Section::create_vec("[a.png]\nx\n[  ]\ny\n[b.png]\nz");
    let names: Vec<&str> = sections.iter().map(|s| s.filename.as_str()).collect();
    assert_eq!(names, vec!["a.png", "b.png"]);
    assert_eq!(texts(&sections[1]), vec!["z".to_string()]);
}

#[test]
fn title_before_first_header_carries_over() {
    let sections = Section::create_vec("## Intro\n[a.png]\nhi");
    assert_eq!(sections[0].title.as_deref(), Some("Intro"));
}

#[test]
fn empty_script() {
    assert!(Section::create_vec("").is_empty());
    assert!(Section::create_vec("\n\n  \n").is_empty());
}

#[test]
fn content_keys_are_fresh() {
    let a = Content::new(Some(1), "x".to_string());
    let b = Content::new(None, "y".to_string());
    assert_eq!(a.key.len(), 36);
    assert_eq!(b.key.len(), 36);
    assert_ne!(a.key, b.key);
    assert_eq!(a.voice_id, Some(1));
    assert_eq!(a.text, "x");
}

#[test]
fn blanc_is_empty() {
    let s = Section::blanc();
    assert_eq!(s.filename, "");
    assert!(s.title.is_none());
    assert!(s.contents.is_empty());
    assert!(s.video.is_none());
}

#[test]
fn parse_keys_are_distinct() {
    let sections = Section::create_vec("[a.png]\nx\n\ny\n[b.png]\nz\n\n");
    let mut keys: Vec<&str> = sections.iter().flat_map(|s| s.contents.iter().map(|c| c.key.as_str())).collect();
    assert_eq!(keys.len(), 5);
    assert!(keys.iter().all(|k| k.len() >= 36));
    keys.sort();
    keys.dedup();
    assert_eq!(keys.len(), 5);
}
