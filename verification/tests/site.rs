use spuri_io::base::Base;
use spuri_io::blog::{Blog, Post, PostFault};
use spuri_io::dates::date_string;
use spuri_io::digest::{integrity, text_integrity};
use spuri_io::err::{unicode_error, NotFound};
use spuri_io::header::{cache_for_one_day, cache_for_one_week, cache_forever};
use spuri_io::markup::render_post;
use spuri_io::robots::get_robots_txt;
use spuri_io::static_pages::{get_about, get_index};
use spuri_io::text::decimal_text;
use std::sync::Arc;

const EMPTY_INTEGRITY: &str =
    "sha512-z4PhNX7vuL3xVChQ1m2AB9Yg5AULVxXcg/SpIdNs6c5H0NE8XYXysP+DGNKHfuwvY7kxvUdBeoGlODJ6+SfaPg==";

fn base() -> Arc<Base> {
    Arc::new(Base::new("sha512-abc".to_string()))
}

#[test]
fn the_frame_has_four_entries() {
    let base = Base::new("sha512-abc".to_string());
    assert_eq!(base.css_file_hash, "sha512-abc");
    let shown: Vec<(&str, &str, bool)> =
        base.nav_items.iter().map(|item| (item.link, item.name, item.new_page)).collect();
    assert_eq!(
        shown,
        vec![
            ("/code_art", "Code Art", false),
            ("/blog", "Blog", false),
            ("https://github.com/sameer", "GitHub", false),
            ("/about", "About", false),
        ]
    );
}

#[test]
fn crawlers_are_kept_from_the_files() {
    assert_eq!(get_robots_txt(), "User-agent: *\nDisallow: /files");
}

#[test]
fn caches_are_told_how_long() {
    assert_eq!((cache_for_one_day().public, cache_for_one_day().max_age), (true, 86_400));
    assert_eq!((cache_for_one_week().public, cache_for_one_week().max_age), (true, 604_800));
    assert_eq!((cache_forever().public, cache_forever().max_age), (true, 314_496_000));
}

#[test]
fn pages_stand_in_the_frame() {
    let about = get_about(Base::new("h".to_string()));
    assert_eq!(about._parent, Base::new("h".to_string()));
    let index = get_index(Base::new("i".to_string()));
    assert_eq!(index._parent.css_file_hash, "i");
    let missing = NotFound { _parent: base(), title: "T".to_string(), msg: "M".to_string() };
    assert_eq!(missing.title, "T");
}

#[test]
fn a_bad_path_is_named_in_the_complaint() {
    assert_eq!(
        unicode_error("/blog/a\"b"),
        "Path contained invalid unicode characters or no file name could be identified: \"/blog/a\\\"b\""
    );
    assert_eq!(
        unicode_error(""),
        "Path contained invalid unicode characters or no file name could be identified: \"\""
    );
}

#[test]
fn an_integrity_value_is_a_hash_in_base_64() {
    assert_eq!(integrity(b""), EMPTY_INTEGRITY);
    assert_eq!(text_integrity(""), EMPTY_INTEGRITY);
    assert_eq!(
        text_integrity("abc"),
        "sha512-3a81oZNherrMQXNJriBBMRLm+k6JqX6iCp7u5ktV05ohkpkqJ0/BqDa6PCOj/uu9RU1EI2Q86A4qmslPpUyknw=="
    );
    assert_eq!(text_integrity("é"), integrity(&[0xc3, 0xa9]));
}

#[test]
fn markdown_becomes_html() {
    assert_eq!(render_post("Hello *world*"), "<p>Hello <em>world</em></p>\n");
    assert_eq!(render_post("# Title"), "<h1>Title</h1>\n");
    assert_eq!(render_post(""), "");
}

#[test]
fn html_in_a_post_is_cleaned() {
    assert_eq!(render_post("<script>alert(1)</script>"), "");
    assert_eq!(
        render_post("<video controls src=\"a.mp4\" onplay=\"x()\"></video>"),
        "<p><video controls=\"\" src=\"a.mp4\"></video></p>\n"
    );
    assert_eq!(
        render_post("<div id=\"x\" class=\"footnote-definition\" style=\"a\">in</div>"),
        "<div id=\"x\" class=\"footnote-definition\">in</div>"
    );
    assert_eq!(render_post("<div class=\"other\">in</div>"), "<div>in</div>");
}

#[test]
fn footnotes_are_rendered() {
    let html = render_post("Text[^1]\n\n[^1]: Note");
    assert_eq!(
        html,
        "<p>Text<sup><a href=\"#1\" rel=\"noopener noreferrer\">1</a></sup></p>\n<div class=\"footnote-definition\" id=\"1\"><sup class=\"footnote-definition-label\">1</sup>\n<p>Note</p>\n</div>\n"
    );
}

#[test]
fn a_time_is_written_as_a_date() {
    assert_eq!(date_string(0, 0), Some("Thu, 1 Jan 1970 00:00:00 +0000".to_string()));
    assert_eq!(date_string(1_545_000_000, 5), Some("Sun, 16 Dec 2018 22:40:00 +0000".to_string()));
    assert_eq!(
        date_string(253_402_300_799, 0),
        Some("Fri, 31 Dec 9999 23:59:59 +0000".to_string())
    );
    assert_eq!(
        date_string(-62_167_219_200, 0),
        Some("Sat, 1 Jan 0000 00:00:00 +0000".to_string())
    );
    assert_eq!(date_string(253_402_300_800, 0), None);
    assert_eq!(date_string(-62_167_219_201, 0), None);
    assert_eq!(date_string(i64::MAX, 0), None);
    assert_eq!(date_string(0, 2_000_000_000), None);
}

#[test]
fn a_number_is_written_in_decimal() {
    assert_eq!(decimal_text(0), "0");
    assert_eq!(decimal_text(7), "7");
    assert_eq!(decimal_text(10), "10");
    assert_eq!(decimal_text(1920), "1920");
    assert_eq!(decimal_text(u32::MAX), "4294967295");
}

#[test]
fn a_file_becomes_a_post() {
    let post = Post::try_from(
        base(),
        "/blog/First.md",
        Some("First"),
        Ok((0, 0)),
        Ok("Hello *world*".to_string()),
    )
    .unwrap();
    assert_eq!(post.title, "First");
    assert_eq!(post.last_modified, "Thu, 1 Jan 1970 00:00:00 +0000");
    assert_eq!(post.author, "");
    assert_eq!(post.body, "<p>Hello <em>world</em></p>\n");
    assert_eq!(post.checksum, text_integrity("<p>Hello <em>world</em></p>\n"));
    assert_eq!(Post::body_to_checksum(&String::new()), EMPTY_INTEGRITY);
    assert_eq!(Post::path_to_author(), Some(String::new()));
    assert_eq!(Post::path_to_title(Some("A")), Some("A".to_string()));
    assert_eq!(Post::path_to_title(None), None);
}

#[test]
fn a_file_that_cannot_be_a_post_says_why() {
    let fault = |stem, modified, markdown| {
        Post::try_from(base(), "/blog/..", stem, modified, markdown).err().unwrap()
    };
    assert_eq!(
        fault(None, Err("no time".to_string()), Err("no file".to_string())),
        PostFault::Title(unicode_error("/blog/.."))
    );
    assert_eq!(
        fault(Some("a"), Err("no time".to_string()), Err("no file".to_string())),
        PostFault::Modified("no time".to_string())
    );
    assert_eq!(fault(Some("a"), Ok((i64::MIN, 0)), Err("no file".to_string())), PostFault::Date);
    assert_eq!(
        fault(Some("a"), Ok((1, 0)), Err("no file".to_string())),
        PostFault::Body("no file".to_string())
    );
}

fn post(title: &str, body: &str) -> Post {
    Post::try_from(base(), "p", Some(title), Ok((0, 0)), Ok(body.to_string())).unwrap()
}

#[test]
fn posts_are_found_by_title() {
    let mut blog = Blog::new(base());
    assert_eq!(blog.get_post("a"), None);
    blog.add_post(post("a", "one"));
    blog.add_post(post("b", "two"));
    blog.add_post(post("a", "three"));
    assert_eq!(blog.index.len(), 3);
    assert_eq!(blog.get_post("a"), Some(2));
    assert_eq!(blog.index[2].body, "<p>three</p>\n");
    assert_eq!(blog.get_post("b"), Some(1));
    assert_eq!(blog.get_post("c"), None);
    assert_eq!(blog.get_post(""), None);
}
