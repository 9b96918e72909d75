use dy_weekly_generator::error::Error;
use dy_weekly_generator::github::{
    authorization, comments_url, next_link, parse_page, Comments, Page, Step,
};

fn strings(v: &[&str]) -> Vec<String> {
    v.iter().map(|s| s.to_string()).collect()
}

fn page(comments: &[&str], next: Option<&str>) -> Page {
    Page { comments: strings(comments), next: next.map(|s| s.to_string()) }
}

fn comment_of(step: Step) -> String {
    match step {
        Step::Comment(body) => body,
        Step::Fetch(url) => panic!("asked to fetch {}", url),
        Step::Done => panic!("done too early"),
    }
}

#[test]
fn comments_url_names_repo_and_issue() {
    assert_eq!(
        comments_url("dyweb/weekly", "42"),
        "https://api.github.com/repos/dyweb/weekly/issues/42/comments"
    );
    assert_eq!(comments_url("", ""), "https://api.github.com/repos//issues//comments");
}

#[test]
fn authorization_presents_token() {
    assert_eq!(authorization("abc123"), "token abc123");
    assert_eq!(authorization(""), "token ");
}

#[test]
fn next_link_finds_the_next_page() {
    let header = "<https://api.github.com/repositories/1/issues/2/comments?page=2>; rel=\"next\", <https://api.github.com/repositories/1/issues/2/comments?page=5>; rel=\"last\"";
    assert_eq!(
        next_link(header),
        Some("https://api.github.com/repositories/1/issues/2/comments?page=2".to_string())
    );
}

#[test]
fn next_link_skips_other_relations() {
    let header = "<https://x/?page=1>; rel=\"prev\", <https://x/?page=3>; rel=\"next\", <https://x/?page=9>; rel=\"last\"";
    assert_eq!(next_link(header), Some("https://x/?page=3".to_string()));
}

#[test]
fn next_link_of_last_page_is_none() {
    assert_eq!(next_link("<https://x/?page=1>; rel=\"prev\", <https://x/?page=1>; rel=\"first\""), None);
    assert_eq!(next_link(""), None);
    assert_eq!(next_link("<https://x/?page=2>; rel=next"), None);
}

#[test]
fn next_link_may_be_empty() {
    assert_eq!(next_link("<>; rel=\"next\""), Some(String::new()));
}

#[test]
fn parse_page_reads_bodies_in_order() {
    let content = "[{\"id\": 1, \"body\": \"first comment, long enough to be kept on the heap\"}, {\"id\": 2, \"body\": \"second\"}]";
    assert_eq!(
        parse_page(content),
        Ok(strings(&["first comment, long enough to be kept on the heap", "second"]))
    );
}

#[test]
fn parse_page_unescapes_bodies() {
    let content = "[{\"body\": \"```yaml\\r\\nname: Foo\\r\\n```\"}]";
    assert_eq!(parse_page(content), Ok(strings(&["```yaml\r\nname: Foo\r\n```"])));
}

#[test]
fn parse_page_skips_elements_without_string_body() {
    let content = "[{\"id\": 1}, {\"body\": 7}, {\"body\": null}, 3, \"body\", {\"body\": \"kept\"}]";
    assert_eq!(parse_page(content), Ok(strings(&["kept"])));
}

#[test]
fn parse_page_of_empty_array_is_empty() {
    assert_eq!(parse_page("[]"), Ok(Vec::new()));
}

#[test]
fn parse_page_rejects_what_is_no_array() {
    assert_eq!(parse_page("{\"body\": \"x\"}"), Err(Error::JsonParseErr));
    assert_eq!(parse_page("\"text\""), Err(Error::JsonParseErr));
    assert_eq!(parse_page("null"), Err(Error::JsonParseErr));
}

#[test]
fn parse_page_rejects_broken_json() {
    assert_eq!(parse_page(""), Err(Error::JsonParseErr));
    assert_eq!(parse_page("[{\"body\": \"x\""), Err(Error::JsonParseErr));
    assert_eq!(parse_page("not json"), Err(Error::JsonParseErr));
}

#[test]
fn walk_hands_out_comments_then_asks_for_next_page() {
    let mut walk = Comments::new(page(&["a", "b"], Some("https://x/?page=2")));
    assert_eq!(comment_of(walk.advance()), "a");
    assert_eq!(comment_of(walk.advance()), "b");
    assert!(matches!(walk.advance(), Step::Fetch(url) if url == "https://x/?page=2"));
    walk.load(page(&["c"], None));
    assert_eq!(comment_of(walk.advance()), "c");
    assert!(matches!(walk.advance(), Step::Done));
    assert!(matches!(walk.advance(), Step::Done));
}

#[test]
fn walk_ends_when_next_page_is_not_loaded() {
    let mut walk = Comments::new(page(&[], Some("https://x/?page=2")));
    assert!(matches!(walk.advance(), Step::Fetch(_)));
    assert!(matches!(walk.advance(), Step::Done));
}

#[test]
fn walk_over_empty_pages() {
    let mut walk = Comments::new(page(&[], None));
    assert!(matches!(walk.advance(), Step::Done));
    let mut other = Comments::new(page(&[], Some("u")));
    assert!(matches!(other.advance(), Step::Fetch(url) if url == "u"));
    other.load(page(&[], Some("v")));
    assert!(matches!(other.advance(), Step::Fetch(url) if url == "v"));
    other.load(page(&["z"], None));
    assert_eq!(comment_of(other.advance()), "z");
    assert!(matches!(other.advance(), Step::Done));
}

#[test]
fn error_messages() {
    assert_eq!(Error::ConfigErr.message(), "Invalid arguments!");
    assert_eq!(Error::RequestErr.message(), "Error while sending request");
    assert_eq!(Error::FetchErr.message(), "Error while fetching");
    assert_eq!(Error::JsonParseErr.message(), "Invalid json");
    assert_eq!(Error::IOErr.message(), "Error while file operations");
}
