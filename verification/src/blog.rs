//! The blog: posts written in Markdown, found again by their titles.
use crate::base::Base;
use crate::dates::{date_string, date_text};
use crate::digest::{integrity_of, text_integrity};
use crate::err::{debug_text, unicode_error, UNICODE_ERROR_PREFIX};
use crate::markup::{post_body, render_post};
use crate::text::opt_string_view;
use std::sync::Arc;
use vstd::prelude::*;
use vstd::string::StringExecFns;

verus! {

/// One post, ready to be shown.
pub struct Post {
    pub _parent: Arc<Base>,
    pub title: String,
    pub last_modified: String,
    pub author: String,
    pub checksum: String,
    pub body: String,
}

/// The index page and the posts.
pub struct Blog {
    pub _parent: Arc<Base>,
    pub index: Vec<Post>,
}

/// Why a file could not be made a post.
#[derive(Debug, PartialEq, Eq, Clone)]
pub enum PostFault {
    /// The path of the file names no file.
    Title(String),
    /// The time of the last change could not be had; the reason is the
    /// caller's.
    Modified(String),
    /// The time of the last change cannot be written as a date.
    Date,
    /// The file could not be read; the reason is the caller's.
    Body(String),
}

/// A post as plain text.
pub struct PostText {
    pub title: Seq<char>,
    pub last_modified: Seq<char>,
    pub author: Seq<char>,
    pub checksum: Seq<char>,
    pub body: Seq<char>,
}

impl View for Post {
    type V = PostText;

    open spec fn view(&self) -> PostText {
        PostText {
            title: self.title@,
            last_modified: self.last_modified@,
            author: self.author@,
            checksum: self.checksum@,
            body: self.body@,
        }
    }
}

/// The text of each post of a list.
pub open spec fn posts_view(posts: Seq<Post>) -> Seq<PostText> {
    Seq::new(posts.len(), |i: int| posts[i]@)
}

/// The bytes of a text in UTF-8.
pub open spec fn utf8(text: Seq<char>) -> Seq<u8> {
    vstd::utf8::encode_utf8(text)
}

/// The post that a file gives: its title is the name of the file, its body
/// the file's Markdown as cleaned HTML, its checksum the integrity value
/// of that body.
pub open spec fn post_of(title: Seq<char>, last_modified: Seq<char>, markdown: Seq<char>) -> PostText {
    PostText {
        title,
        last_modified,
        author: Seq::empty(),
        checksum: integrity_of(utf8(post_body(markdown))),
        body: post_body(markdown),
    }
}

/// The place of the post that was added last among those called `title`.
pub open spec fn latest_titled(posts: Seq<PostText>, title: Seq<char>) -> Option<int>
    decreases posts.len(),
{
    if posts.len() == 0 {
        None
    } else if posts.last().title == title {
        Some(posts.len() - 1)
    } else {
        latest_titled(posts.drop_last(), title)
    }
}

/// A place that `latest_titled` gives holds a post of that title, and no
/// later place does; where it gives none, no post has the title.
pub proof fn lemma_latest_titled(posts: Seq<PostText>, title: Seq<char>)
    ensures
        match latest_titled(posts, title) {
            Some(i) => 0 <= i < posts.len() && posts[i].title == title && forall|k: int|
                i < k < posts.len() ==> (#[trigger] posts[k]).title != title,
            None => forall|k: int| 0 <= k < posts.len() ==> (#[trigger] posts[k]).title != title,
        },
    decreases posts.len(),
{
    if posts.len() > 0 && posts.last().title != title {
        lemma_latest_titled(posts.drop_last(), title);
        let init = posts.drop_last();
        assert forall|k: int| 0 <= k < init.len() implies init[k] == posts[k] by {}
        match latest_titled(init, title) {
            Some(i) => {
                assert forall|k: int| i < k < posts.len() implies (#[trigger] posts[k]).title
                    != title by {
                    if k < init.len() {
                        assert(init[k] == posts[k]);
                    }
                }
            },
            None => {
                assert forall|k: int| 0 <= k < posts.len() implies (#[trigger] posts[k]).title
                    != title by {
                    if k < init.len() {
                        assert(init[k] == posts[k]);
                    }
                }
            },
        }
    }
}

impl Post {
    /// The title of the post in the file called `stem`.
    pub fn path_to_title(stem: Option<&str>) -> (title: Option<String>)
        ensures
            opt_string_view(title) == crate::text::opt_str_view(stem),
    {
        match stem {
            Some(stem) => Some(String::from_str(stem)),
            None => None,
        }
    }

    /// The time of the last change as a date.
    pub fn path_to_last_modified(seconds: i64, nanos: u32) -> (date: Option<String>)
        ensures
            opt_string_view(date) == date_text(seconds, nanos),
    {
        date_string(seconds, nanos)
    }

    /// The author of a post: none is kept yet.
    pub fn path_to_author() -> (author: Option<String>)
        ensures
            opt_string_view(author) == Some(Seq::<char>::empty()),
    {
        Some(String::new())
    }

    /// The integrity value of a body.
    pub fn body_to_checksum(body: &String) -> (checksum: String)
        ensures
            checksum@ == integrity_of(utf8(body@)),
    {
        text_integrity(body.as_str())
    }

    /// The body of a post written in `markdown`.
    pub fn path_to_body(markdown: &str) -> (body: String)
        ensures
            body@ == post_body(markdown@),
    {
        render_post(markdown)
    }

    /// The post of the file at `path`. `stem` is the name of the file
    /// without its extension, if the path names a file; `modified` is the
    /// time of the file's last change, in seconds and nanoseconds since the
    /// start of 1970, and `markdown` what the file holds, or the reasons why
    /// they could not be had. A path without file name is reported first,
    /// then a missing time, then a missing content.
    pub fn try_from(
        base: Arc<Base>,
        path: &str,
        stem: Option<&str>,
        modified: Result<(i64, u32), String>,
        markdown: Result<String, String>,
    ) -> (post: Result<Post, PostFault>)
        ensures
            match post {
                Ok(post) => post._parent == base && stem is Some && modified is Ok && markdown is Ok
                    && date_text(modified->Ok_0.0, modified->Ok_0.1) is Some && post@ == post_of(
                    stem->0@,
                    date_text(modified->Ok_0.0, modified->Ok_0.1)->0,
                    markdown->Ok_0@,
                ),
                Err(PostFault::Title(message)) => stem is None && message@ == UNICODE_ERROR_PREFIX@
                    + debug_text(path@),
                Err(PostFault::Modified(reason)) => stem is Some && modified is Err && reason@
                    == modified->Err_0@,
                Err(PostFault::Date) => stem is Some && modified is Ok && date_text(
                    modified->Ok_0.0,
                    modified->Ok_0.1,
                ) is None,
                Err(PostFault::Body(reason)) => stem is Some && modified is Ok && date_text(
                    modified->Ok_0.0,
                    modified->Ok_0.1,
                ) is Some && markdown is Err && reason@ == markdown->Err_0@,
            },
    {
        let title = match Post::path_to_title(stem) {
            Some(title) => title,
            None => {
                return Err(PostFault::Title(unicode_error(path)));
            },
        };
        let (seconds, nanos) = match modified {
            Ok(time) => time,
            Err(reason) => {
                return Err(PostFault::Modified(reason));
            },
        };
        let last_modified = match Post::path_to_last_modified(seconds, nanos) {
            Some(date) => date,
            None => {
                return Err(PostFault::Date);
            },
        };
        let markdown = match markdown {
            Ok(markdown) => markdown,
            Err(reason) => {
                return Err(PostFault::Body(reason));
            },
        };
        let body = Post::path_to_body(markdown.as_str());
        let checksum = Post::body_to_checksum(&body);
        Ok(Post { _parent: base, title, last_modified, author: String::new(), checksum, body })
    }
}

impl Blog {
    /// The text of the posts, in the order in which they were added.
    pub open spec fn posts(&self) -> Seq<PostText> {
        posts_view(self.index@)
    }

    /// A blog without posts.
    pub fn new(parent: Arc<Base>) -> (blog: Blog)
        ensures
            blog._parent == parent,
            blog.index@.len() == 0,
    {
        Blog { _parent: parent, index: Vec::new() }
    }

    /// Adds a post behind the others. A post of a title that is there
    /// already stays in the index and is found in place of the older one.
    pub fn add_post(&mut self, post: Post)
        ensures
            final(self)._parent == old(self)._parent,
            final(self).posts() == old(self).posts().push(post@),
            latest_titled(final(self).posts(), post@.title) == Some(old(self).posts().len() as int),
    {
        let ghost before = self.posts();
        self.index.push(post);
        proof {
            assert(self.posts() =~= before.push(post@));
        }
    }

    /// The post called `title`: of several, the one added last.
    pub fn get_post(&self, title: &str) -> (place: Option<usize>)
        ensures
            match place {
                Some(i) => latest_titled(self.posts(), title@) == Some(i as int) && i
                    < self.index@.len(),
                None => latest_titled(self.posts(), title@) is None,
            },
    {
        let wanted = String::from_str(title);
        let ghost all = self.posts();
        let mut left: usize = self.index.len();
        proof {
            assert(all.take(left as int) =~= all);
        }
        while left > 0
            invariant
                left <= self.index.len(),
                all == self.posts(),
                wanted@ == title@,
                latest_titled(all, title@) == latest_titled(all.take(left as int), title@),
            decreases left,
        {
            left -= 1;
            proof {
                assert(all.take(left + 1).drop_last() =~= all.take(left as int));
                assert(all.take(left + 1).last() == self.index@[left as int]@);
            }
            if self.index[left].title == wanted {
                return Some(left);
            }
        }
        None
    }
}

} // verus!
