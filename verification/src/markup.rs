//! From Markdown to HTML that is safe to show.
use vstd::prelude::*;

verus! {

/// The HTML that `markdown` stands for, with or without footnotes.
pub uninterp spec fn markdown_html(markdown: Seq<char>, footnotes: bool) -> Seq<char>;

/// `html` with everything removed that the default rules of the cleaner do
/// not allow, after these have been widened by the tags `tags`, by the
/// attributes `attributes` (each a tag and an attribute) and by the values
/// `values` (each a tag, an attribute and a value).
pub uninterp spec fn clean_html(
    html: Seq<char>,
    tags: Seq<Seq<char>>,
    attributes: Seq<(Seq<char>, Seq<char>)>,
    values: Seq<(Seq<char>, Seq<char>, Seq<char>)>,
) -> Seq<char>;

/// The text of each string slice of a list.
pub open spec fn names_view(names: Seq<&str>) -> Seq<Seq<char>> {
    Seq::new(names.len(), |i: int| names[i]@)
}

/// The text of each pair of a list.
pub open spec fn name_pairs_view(pairs: Seq<(&str, &str)>) -> Seq<(Seq<char>, Seq<char>)> {
    Seq::new(pairs.len(), |i: int| (pairs[i].0@, pairs[i].1@))
}

/// The text of each triple of a list.
pub open spec fn name_triples_view(triples: Seq<(&str, &str, &str)>) -> Seq<
    (Seq<char>, Seq<char>, Seq<char>),
> {
    Seq::new(triples.len(), |i: int| (triples[i].0@, triples[i].1@, triples[i].2@))
}

/// A tag whose content the cleaner removes whole; it can be given no
/// attributes and cannot be allowed.
pub open spec fn is_content_tag(tag: Seq<char>) -> bool {
    tag == "script"@ || tag == "style"@
}

/// The widenings that the cleaner takes: none touches a tag whose content
/// is removed, and none allows `rel` on links, which the cleaner sets.
pub open spec fn cleaner_takes(tags: Seq<Seq<char>>, attributes: Seq<(Seq<char>, Seq<char>)>) -> bool {
    &&& forall|i: int| 0 <= i < tags.len() ==> !is_content_tag(#[trigger] tags[i])
    &&& forall|i: int|
        0 <= i < attributes.len() ==> !is_content_tag((#[trigger] attributes[i]).0) && !(
        attributes[i].0 == "a"@ && attributes[i].1 == "rel"@)
}

/// The tags that posts may hold beyond the cleaner's own.
pub open spec fn post_tags() -> Seq<Seq<char>> {
    seq!["video"@]
}

/// The attributes that posts may hold beyond the cleaner's own.
pub open spec fn post_attributes() -> Seq<(Seq<char>, Seq<char>)> {
    seq![("video"@, "controls"@), ("video"@, "src"@), ("div"@, "id"@)]
}

/// The classes that the footnotes of a post carry.
pub open spec fn post_values() -> Seq<(Seq<char>, Seq<char>, Seq<char>)> {
    seq![
        ("div"@, "class"@, "footnote-definition"@),
        ("sup"@, "class"@, "footnote-definition-label"@),
    ]
}

/// The body of a post written in `markdown`: its HTML with footnotes,
/// cleaned by the rules for posts.
pub open spec fn post_body(markdown: Seq<char>) -> Seq<char> {
    clean_html(markdown_html(markdown, true), post_tags(), post_attributes(), post_values())
}

/// `pulldown_cmark::html::push_html` on a new string and a
/// `Parser::new_ext` over the text, with `ENABLE_FOOTNOTES` set as asked.
/// The result is the one that `markdown_html` names.
#[verifier::external_body]
fn to_html(markdown: &str, footnotes: bool) -> (html: String)
    ensures
        html@ == markdown_html(markdown@, footnotes),
{
    let mut options = pulldown_cmark::Options::empty();
    options.set(pulldown_cmark::Options::ENABLE_FOOTNOTES, footnotes);
    let mut html = String::new();
    pulldown_cmark::html::push_html(&mut html, pulldown_cmark::Parser::new_ext(markdown, options));
    html
}

/// `Builder::clean` of the ammonia crate, on a default builder after
/// `add_tags`, `add_tag_attributes` and `add_tag_attribute_values` with what
/// is given, and the document written back as text. The result is the one
/// that `clean_html` names. The builder stops the program on widenings
/// that contradict its own rules: those are left out.
#[verifier::external_body]
fn clean(html: &str, tags: &Vec<&str>, attributes: &Vec<(&str, &str)>, values: &Vec<(&str, &str, &str)>) -> (cleaned: String)
    requires
        cleaner_takes(names_view(tags@), name_pairs_view(attributes@)),
    ensures
        cleaned@ == clean_html(
            html@,
            names_view(tags@),
            name_pairs_view(attributes@),
            name_triples_view(values@),
        ),
{
    let mut builder = ammonia::Builder::default();
    builder.add_tags(tags.iter().copied());
    for (tag, attribute) in attributes.iter() {
        builder.add_tag_attributes(*tag, [*attribute]);
    }
    for (tag, attribute, value) in values.iter() {
        builder.add_tag_attribute_values(*tag, *attribute, [*value]);
    }
    builder.clean(html).to_string()
}

/// The body of a post written in `markdown`.
pub fn render_post(markdown: &str) -> (body: String)
    ensures
        body@ == post_body(markdown@),
{
    let html = to_html(markdown, true);
    let mut tags: Vec<&str> = Vec::new();
    tags.push("video");
    let mut attributes: Vec<(&str, &str)> = Vec::new();
    attributes.push(("video", "controls"));
    attributes.push(("video", "src"));
    attributes.push(("div", "id"));
    let mut values: Vec<(&str, &str, &str)> = Vec::new();
    values.push(("div", "class", "footnote-definition"));
    values.push(("sup", "class", "footnote-definition-label"));
    proof {
        reveal_strlit("video");
        reveal_strlit("div");
        reveal_strlit("script");
        reveal_strlit("style");
        reveal_strlit("a");
        assert(names_view(tags@) =~= post_tags());
        assert(name_pairs_view(attributes@) =~= post_attributes());
        assert(name_triples_view(values@) =~= post_values());
        assert("video"@ != "script"@ && "video"@ != "style"@ && "video"@ != "a"@) by {
            assert("video"@.len() == 5 && "script"@.len() == 6 && "a"@.len() == 1);
            assert("video"@[0] == 'v' && "style"@[0] == 's');
        }
        assert("div"@ != "script"@ && "div"@ != "style"@ && "div"@ != "a"@) by {
            assert("div"@.len() == 3 && "script"@.len() == 6 && "a"@.len() == 1 && "style"@.len() == 5);
        }
    }
    clean(html.as_str(), &tags, &attributes, &values)
}

} // verus!
