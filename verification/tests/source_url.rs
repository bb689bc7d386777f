use crabberbot::source_url::{cleanup_url, find_video_id_param, trim_trailing_spaces, SourceUrl};

fn canonical_text(link: &str) -> String {
    let parsed = SourceUrl::parse(link).expect("a valid link");
    cleanup_url(&parsed).to_text()
}

#[test]
fn parsing_splits_a_link_into_its_parts() {
    let url = SourceUrl::parse("https://Example.com/a/b?x=1&y=2#top").unwrap();
    assert_eq!(
        url,
        SourceUrl {
            base: "https://example.com/a/b".to_string(),
            host: Some("example.com".to_string()),
            query: Some("x=1&y=2".to_string()),
            fragment: Some("top".to_string()),
            opaque: false,
        }
    );
    assert_eq!(url.to_text(), "https://example.com/a/b?x=1&y=2#top");
}

#[test]
fn parsing_refuses_what_is_no_link() {
    assert_eq!(SourceUrl::parse("not a link"), None);
    assert_eq!(SourceUrl::parse(""), None);
}

#[test]
fn a_link_without_query_and_fragment_has_neither() {
    let url = SourceUrl::parse("https://instagram.com/p/valid_post").unwrap();
    assert_eq!(url.query, None);
    assert_eq!(url.fragment, None);
    assert_eq!(url.to_text(), "https://instagram.com/p/valid_post");
}

#[test]
fn the_fragment_is_always_stripped() {
    assert_eq!(
        canonical_text("https://example.com/page#section"),
        "https://example.com/page"
    );
    assert_eq!(
        canonical_text("https://www.youtube.com/watch?v=abc#t=10"),
        "https://www.youtube.com/watch?v=abc"
    );
}

#[test]
fn other_hosts_lose_their_whole_query() {
    assert_eq!(
        canonical_text("https://instagram.com/p/xyz/?utm_source=share&igsh=1"),
        "https://instagram.com/p/xyz/"
    );
    assert_eq!(
        canonical_text("https://example.com/watch?v=abc"),
        "https://example.com/watch"
    );
    assert_eq!(
        canonical_text("https://notyoutube.com/watch?v=abc"),
        "https://notyoutube.com/watch"
    );
}

#[test]
fn video_hosts_keep_only_the_video_id() {
    assert_eq!(
        canonical_text("https://www.youtube.com/watch?si=track&v=tPEE9ZwTmy0&t=42s"),
        "https://www.youtube.com/watch?v=tPEE9ZwTmy0"
    );
    assert_eq!(
        canonical_text("https://youtube.com/watch?v=first&v=second"),
        "https://youtube.com/watch?v=first"
    );
    assert_eq!(
        canonical_text("https://m.youtube.com/watch?feature=share"),
        "https://m.youtube.com/watch"
    );
    assert_eq!(
        canonical_text("https://www.youtube.com/shorts/tPEE9ZwTmy0?si=abc"),
        "https://www.youtube.com/shorts/tPEE9ZwTmy0"
    );
}

#[test]
fn canonicalizing_twice_equals_canonicalizing_once() {
    for link in [
        "https://www.youtube.com/watch?si=track&v=tPEE9ZwTmy0&t=42s#frag",
        "https://instagram.com/p/xyz/?utm_source=share#x",
        "https://youtube.com/watch?v=&v=b",
        "https://example.com",
        "https://music.youtube.com/watch?list=1",
    ] {
        let once = cleanup_url(&SourceUrl::parse(link).unwrap());
        let twice = cleanup_url(&once);
        assert_eq!(twice, once);
        let reparsed = cleanup_url(&SourceUrl::parse(&once.to_text()).unwrap());
        assert_eq!(reparsed, once);
    }
}

#[test]
fn the_video_id_parameter_is_the_first_with_key_v() {
    assert_eq!(find_video_id_param("v=abc"), Some("v=abc".to_string()));
    assert_eq!(find_video_id_param("a=1&v=abc&v=def"), Some("v=abc".to_string()));
    assert_eq!(find_video_id_param("a=1&b=2"), None);
    assert_eq!(find_video_id_param(""), None);
    assert_eq!(find_video_id_param("v"), None);
    assert_eq!(find_video_id_param("v="), Some("v=".to_string()));
    assert_eq!(find_video_id_param("vv=1&xv=2"), None);
    assert_eq!(find_video_id_param("&&v=x&"), Some("v=x".to_string()));
}

#[test]
fn an_opaque_path_loses_its_trailing_spaces() {
    let url = SourceUrl::parse("data:text/plain,hello  ?q=1#frag").unwrap();
    assert!(url.opaque);
    assert_eq!(url.host, None);
    assert_eq!(url.base, "data:text/plain,hello  ");
    assert_eq!(canonical_text("data:text/plain,hello  ?q=1#frag"), "data:text/plain,hello");
    assert_eq!(canonical_text("mailto:someone@example.com"), "mailto:someone@example.com");
    assert!(!SourceUrl::parse("https://example.com/a%20 ?x").unwrap().opaque);
}

#[test]
fn trailing_spaces_are_cut_and_nothing_else() {
    assert_eq!(trim_trailing_spaces("a b  "), "a b");
    assert_eq!(trim_trailing_spaces("  a"), "  a");
    assert_eq!(trim_trailing_spaces("   "), "");
    assert_eq!(trim_trailing_spaces(""), "");
    assert_eq!(trim_trailing_spaces("a\t "), "a\t");
    assert_eq!(trim_trailing_spaces("a \t"), "a \t");
}

#[test]
fn the_canonical_text_is_what_the_url_crate_serializes() {
    for link in [
        "https://instagram.com/p/xyz/?utm_source=share&igsh=1#x",
        "https://example.com",
        "https://example.com/a b?c d#e f",
        "http://user:pw@example.com:8080/p/a/t/h?query=string#hash",
        "data:text/plain,hello  ?q=1#frag",
        "data:text/plain, a b  #frag",
        "mailto:someone@example.com  ?subject=x",
        "file:///tmp/some file.txt?x#y",
        "https://notyoutube.com/watch?v=abc",
    ] {
        let mut expected = url::Url::parse(link).unwrap();
        expected.set_query(None);
        expected.set_fragment(None);
        assert_eq!(canonical_text(link), expected.as_str(), "{}", link);
    }
    for (link, kept) in [
        ("https://www.youtube.com/watch?si=t&v=tPEE9ZwTmy0&t=42s#f", "v=tPEE9ZwTmy0"),
        ("https://youtube.com/watch?v=a%20b+c&x=1", "v=a%20b+c"),
    ] {
        let mut expected = url::Url::parse(link).unwrap();
        expected.set_fragment(None);
        expected.set_query(Some(kept));
        assert_eq!(canonical_text(link), expected.as_str(), "{}", link);
    }
}
