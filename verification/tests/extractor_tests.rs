use dy_weekly_generator::casual::Casual;
use dy_weekly_generator::entry::EntryType;
use dy_weekly_generator::formal::{Fence, Formal};
use dy_weekly_generator::weekly::{Extractor, Registered, Weekly, WeeklyBuilder, HEADER};

fn some(s: &str) -> Option<String> {
    Some(s.to_string())
}

fn standard() -> Weekly {
    WeeklyBuilder::new()
        .add_extractor(Registered::Formal(Formal::new()))
        .add_extractor(Registered::Casual(Casual::new()))
        .build()
}

fn formal_of(weekly: &Weekly) -> &Formal {
    match weekly.extractor(0) {
        Registered::Formal(f) => f,
        Registered::Casual(_) => panic!("the first extractor is the formal one"),
    }
}

fn casual_of(weekly: &Weekly) -> &Casual {
    match weekly.extractor(1) {
        Registered::Casual(c) => c,
        Registered::Formal(_) => panic!("the second extractor is the casual one"),
    }
}

#[test]
fn casual_new_is_empty() {
    let c = Casual::new();
    assert_eq!(c.len(), 0);
    assert_eq!(c.render(), "");
}

#[test]
fn casual_keeps_comment_with_link() {
    let mut c = Casual::new();
    assert!(c.extract("check this out https://example.com/page"));
    assert_eq!(c.len(), 1);
    assert_eq!(c.entry(0), "check this out https://example.com/page");
}

#[test]
fn casual_recognises_every_prefix() {
    let mut c = Casual::new();
    assert!(c.extract("http://example.com"));
    assert!(c.extract("https://a.b.example.com/x?y=z"));
    assert!(c.extract("see ftp://files.example.org"));
    assert!(c.extract("go to www.example.com now"));
    assert_eq!(c.len(), 4);
}

#[test]
fn casual_leaves_comment_without_link() {
    let mut c = Casual::new();
    assert!(!c.extract("nothing to see here"));
    assert!(!c.extract("example.com"));
    assert!(!c.extract("http://localhost"));
    assert!(!c.extract(""));
    assert_eq!(c.len(), 0);
}

#[test]
fn casual_collect_follows_its_argument() {
    let mut c = Casual::new();
    assert!(!c.collect("http://example.com", false));
    assert_eq!(c.len(), 0);
    assert!(c.collect("no link at all", true));
    assert_eq!(c.len(), 1);
    assert_eq!(c.entry(0), "no link at all");
}

#[test]
fn casual_keeps_duplicates_in_order() {
    let mut c = Casual::new();
    assert!(c.extract("b http://x.com"));
    assert!(c.extract("a http://x.com"));
    assert!(c.extract("b http://x.com"));
    assert_eq!(c.len(), 3);
    assert_eq!(c.render(), "b http://x.com\n\n***\n\na http://x.com\n\n***\n\nb http://x.com\n\n***\n\n");
}

#[test]
fn fence_gathers_lines_of_open_block() {
    let mut f = Fence::new();
    assert!(!f.in_block());
    assert_eq!(f.feed("before", false, false), None);
    assert_eq!(f.buffer(), "");
    assert_eq!(f.feed("```yaml", true, true), None);
    assert!(f.in_block());
    assert_eq!(f.feed("name: Foo", false, false), None);
    assert_eq!(f.feed("link: l", false, false), None);
    assert_eq!(f.buffer(), "name: Foo\nlink: l\n");
    assert_eq!(f.feed("```", false, true), some("name: Foo\nlink: l\n"));
    assert!(!f.in_block());
    assert_eq!(f.feed("after", false, false), None);
    assert_eq!(f.buffer(), "name: Foo\nlink: l\n");
}

#[test]
fn fence_open_resets_buffer() {
    let mut f = Fence::new();
    f.feed("```yaml", true, true);
    f.feed("a", false, false);
    f.feed("```yml", true, true);
    assert_eq!(f.buffer(), "");
    f.feed("b", false, false);
    assert_eq!(f.feed("```", false, true), some("b\n"));
}

#[test]
fn fence_close_without_open_hands_over_buffer() {
    let mut f = Fence::new();
    assert_eq!(f.feed("```", false, true), some(""));
}

#[test]
fn formal_new_is_empty() {
    let f = Formal::new();
    assert_eq!(f.len(), 0);
    assert_eq!(f.render(), "");
}

#[test]
fn formal_parse_files_entry() {
    let mut f = Formal::new();
    assert!(f.parse("name: Foo\nlink: http://x.com\n"));
    assert_eq!(f.len(), 1);
    assert_eq!(f.position("Foo"), Some(0));
    assert_eq!(f.position("Bar"), None);
    assert_eq!(f.entry(0).name(), "Foo");
}

#[test]
fn formal_parse_failure_changes_nothing() {
    let mut f = Formal::new();
    assert!(f.parse("name: Foo\n"));
    assert!(!f.parse("type: topic\n"));
    assert!(!f.parse("name: Foo\ntype: invalid_value\n"));
    assert_eq!(f.len(), 1);
    assert_eq!(f.entry(0).kind(), EntryType::Draft);
}

#[test]
fn formal_parse_merges_same_name() {
    let mut f = Formal::new();
    assert!(f.parse("name: Foo\nlink: http://x.com\n"));
    assert!(f.parse("name: Bar\n"));
    assert!(f.parse("name: Foo\ntype: topic\ndescription: update\ncc: [alice]\n"));
    assert_eq!(f.len(), 2);
    assert_eq!(f.entry(0).name(), "Foo");
    assert_eq!(f.entry(0).kind(), EntryType::Topic);
    assert_eq!(f.entry(0).link(), &some("http://x.com"));
    assert_eq!(f.entry(0).description(), &some("update"));
    assert_eq!(f.entry(0).contributors(), &vec!["alice".to_string()]);
    assert_eq!(f.entry(1).name(), "Bar");
}

#[test]
fn formal_reparse_of_same_block_doubles() {
    let block = "name: Foo\nlink: http://x.com\ndescription: d\nquote: q\ncc: \"alice bob\"\n";
    let mut f = Formal::new();
    assert!(f.parse(block));
    assert!(f.parse(block));
    assert_eq!(f.len(), 1);
    let e = f.entry(0);
    assert_eq!(e.link(), &some("http://x.comhttp://x.com"));
    assert_eq!(e.description(), &some("dd"));
    assert_eq!(e.quote(), &some("qq"));
    assert_eq!(
        e.contributors(),
        &vec!["alice".to_string(), "bob".to_string(), "alice".to_string(), "bob".to_string()]
    );
}

#[test]
fn formal_insert_or_merge_keeps_first_seen_order() {
    let mut f = Formal::new();
    assert!(f.parse("name: B\n"));
    assert!(f.parse("name: A\n"));
    assert!(f.parse("name: B\ndescription: again\n"));
    assert_eq!(f.render(), "- B, again\n- A\n");
}

#[test]
fn formal_extract_reads_yaml_block() {
    let mut f = Formal::new();
    assert!(f.extract("intro\n```yaml\nname: Foo\nlink: http://x.com\n```\noutro"));
    assert_eq!(f.len(), 1);
    assert_eq!(f.render(), "- [Foo](http://x.com)\n");
}

#[test]
fn formal_extract_accepts_yml_tag() {
    let mut f = Formal::new();
    assert!(f.extract("```yml\nname: Foo\n```"));
    assert_eq!(f.len(), 1);
}

#[test]
fn formal_extract_handles_crlf() {
    let mut f = Formal::new();
    assert!(f.extract("```yaml\r\nname: Foo\r\ndescription: d\r\n```\r\n"));
    assert_eq!(f.render(), "- Foo, d\n");
}

#[test]
fn formal_extract_reads_several_blocks() {
    let mut f = Formal::new();
    let comment = "```yaml\nname: A\n```\ntext\n```yaml\ntype: topic\n```\n```yaml\nname: B\n```\n";
    assert!(f.extract(comment));
    assert_eq!(f.len(), 2);
    assert_eq!(f.render(), "- A\n- B\n");
}

#[test]
fn formal_extract_without_fence_is_not_consumed() {
    let mut f = Formal::new();
    assert!(!f.extract("name: Foo\nlink: http://x.com"));
    assert!(!f.extract(""));
    assert_eq!(f.len(), 0);
}

#[test]
fn formal_extract_of_failing_block_is_not_consumed() {
    let mut f = Formal::new();
    assert!(!f.extract("```yaml\ntype: topic\n```"));
    assert!(!f.extract("```yaml\nname: Foo\ntype: invalid_value\n```"));
    assert!(!f.extract("```yaml\nname: [unclosed\n```"));
    assert_eq!(f.len(), 0);
}

#[test]
fn formal_extract_ignores_other_fences() {
    let mut f = Formal::new();
    assert!(!f.extract("```rust\nname: Foo\n```"));
    assert_eq!(f.len(), 0);
}

#[test]
fn formal_extract_of_unclosed_block_is_not_consumed() {
    let mut f = Formal::new();
    assert!(!f.extract("```yaml\nname: Foo\n"));
    assert_eq!(f.len(), 0);
}

#[test]
fn weekly_builder_keeps_order() {
    let w = standard();
    assert_eq!(w.len(), 2);
    assert!(matches!(w.extractor(0), Registered::Formal(_)));
    assert!(matches!(w.extractor(1), Registered::Casual(_)));
    assert_eq!(WeeklyBuilder::new().build().len(), 0);
}

#[test]
fn weekly_render_of_nothing_is_the_header() {
    assert_eq!(standard().render(), HEADER);
    assert_eq!(
        HEADER,
        "---\nlayout: post\ntitle: Weekly\ncategory: Weekly\nauthor: \u{4e1c}\u{5cb3}\n\n---\n\n"
    );
}

#[test]
fn weekly_formal_claim_excludes_casual() {
    let mut w = standard();
    w.parse("see http://example.com\n```yaml\nname: Foo\nlink: http://x.com\n```\n");
    assert_eq!(formal_of(&w).len(), 1);
    assert_eq!(casual_of(&w).len(), 0);
}

#[test]
fn weekly_failing_block_falls_through_to_casual() {
    let mut w = standard();
    let comment = "see http://example.com\n```yaml\ntype: invalid_value\nname: Foo\n```\n";
    w.parse(comment);
    assert_eq!(formal_of(&w).len(), 0);
    assert_eq!(casual_of(&w).len(), 1);
    assert_eq!(casual_of(&w).entry(0), comment);
}

#[test]
fn weekly_unclaimed_comment_is_dropped() {
    let mut w = standard();
    w.parse("thanks, looks good");
    w.parse("```yaml\ntype: topic\n```");
    assert_eq!(formal_of(&w).len(), 0);
    assert_eq!(casual_of(&w).len(), 0);
    assert_eq!(w.render(), HEADER);
}

#[test]
fn weekly_merges_two_comments_into_one_entry() {
    let mut w = standard();
    w.parse("```yaml\nname: Foo\nlink: http://x.com\n```");
    w.parse("```yaml\nname: Foo\ndescription: update\n```");
    assert_eq!(formal_of(&w).len(), 1);
    assert_eq!(w.render(), format!("{}- [Foo](http://x.com), update\n", HEADER));
}

#[test]
fn weekly_renders_casual_comment_with_separator() {
    let mut w = standard();
    w.parse("check this out https://example.com/page");
    assert_eq!(
        w.render(),
        format!("{}check this out https://example.com/page\n\n***\n\n", HEADER)
    );
}

#[test]
fn weekly_renders_formal_before_casual() {
    let mut w = standard();
    w.parse("first https://example.com/page");
    w.parse("```yaml\nname: Foo\n```");
    assert_eq!(
        w.render(),
        format!("{}- Foo\nfirst https://example.com/page\n\n***\n\n", HEADER)
    );
}

#[test]
fn weekly_without_extractors_drops_everything() {
    let mut w = WeeklyBuilder::new().build();
    w.parse("http://example.com");
    assert_eq!(w.render(), HEADER);
}

#[test]
fn weekly_casual_first_claims_before_formal() {
    let mut w = WeeklyBuilder::new()
        .add_extractor(Registered::Casual(Casual::new()))
        .add_extractor(Registered::Formal(Formal::new()))
        .build();
    w.parse("http://example.com\n```yaml\nname: Foo\n```");
    assert!(matches!(w.extractor(0), Registered::Casual(c) if c.len() == 1));
    assert!(matches!(w.extractor(1), Registered::Formal(f) if f.len() == 0));
}

#[test]
fn registered_extracts_and_renders_as_its_kind() {
    let mut r = Registered::Casual(Casual::new());
    assert!(r.extract("www.example.com"));
    assert_eq!(r.render(), "www.example.com\n\n***\n\n");
    let mut f = Registered::Formal(Formal::new());
    assert!(!f.extract("www.example.com"));
    assert!(f.extract("```yaml\nname: Foo\n```"));
    assert_eq!(f.render(), "- Foo\n");
}

#[test]
fn formal_extract_reads_buffer_again_at_each_closing_fence() {
    let mut f = Formal::new();
    assert!(f.extract("```yaml\nname: A\nlink: l\n```\n```\ncode\n```\n"));
    assert_eq!(f.len(), 1);
    assert_eq!(f.entry(0).link(), &some("lll"));
}

#[test]
fn formal_extract_fence_tag_follows_the_backticks() {
    let mut f = Formal::new();
    assert!(!f.extract("``` yaml\nname: Foo\n```"));
    assert!(f.extract("text ```yaml\nname: Foo\n```"));
    assert!(f.extract("```yamlish\nname: Bar\n```"));
    assert_eq!(f.len(), 2);
}

#[test]
fn formal_extract_keeps_table_when_every_block_fails() {
    let mut f = Formal::new();
    assert!(f.extract("```yaml\nname: A\n```"));
    assert!(!f.extract("```yaml\nname: A\ntype: invalid_value\ndescription: lost\n```"));
    assert_eq!(f.len(), 1);
    assert_eq!(f.entry(0).description(), &None);
}
