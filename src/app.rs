use vstd::prelude::*;
use crate::config::Config;
use crate::date::{date_text, Date};
use crate::page::{index_text, render_index, default_stylesheet, stylesheet_text};
use crate::post::{posts_view, Post, PostView};
use crate::recover::{existing_posts, parse_posts};

verus! {

/// Name of the index page inside the blog folder.
pub const INDEX_FILE: &'static str = "index.html";

/// Name of the stylesheet inside the blog folder.
pub const STYLESHEET_FILE: &'static str = "styles.css";

/// The HTML that pulldown-cmark renders for a markdown text.
pub uninterp spec fn markdown_html(markdown: Seq<char>) -> Seq<char>;

/// Relies on pulldown_cmark::Parser::new and pulldown_cmark::html::push_html:
/// the HTML of a markdown text, with pulldown-cmark's default options.
#[verifier::external_body]
fn markdown_to_html(markdown: &str) -> (r: String)
    ensures
        r@ == markdown_html(markdown@),
{
    let parser = pulldown_cmark::Parser::new(markdown);
    let mut output = String::new();
    pulldown_cmark::html::push_html(&mut output, parser);
    output
}

/// The stylesheet to write into a folder: none where one is there already,
/// the default one otherwise.
pub open spec fn stylesheet_write(present: bool) -> Option<Seq<char>> {
    if present {
        None
    } else {
        Some(stylesheet_text())
    }
}

/// The stylesheet a folder holds after a regeneration, given what it held
/// before.
pub open spec fn stylesheet_after(before: Option<Seq<char>>) -> Option<Seq<char>> {
    match stylesheet_write(before is Some) {
        Some(s) => Some(s),
        None => before,
    }
}

/// The posts after publishing `new` onto `existing`: newest first.
pub open spec fn published(existing: Seq<PostView>, new: PostView) -> Seq<PostView> {
    seq![new] + existing
}

/// The text of an optional page.
pub open spec fn text_of(page: Option<String>) -> Option<Seq<char>> {
    match page {
        Some(s) => Some(s@),
        None => None,
    }
}

/// What a regeneration writes into the blog folder: the whole index page,
/// and the stylesheet where one is to be written.
#[derive(Debug)]
pub struct Regeneration {
    pub index_html: String,
    pub stylesheet: Option<String>,
}

/// The editor: the post being written, whether the text field has had its
/// first focus, and the blog's settings.
#[derive(Debug)]
pub struct App {
    pub post: Post,
    pub focused: bool,
    pub config: Config,
}

impl App {
    /// A fresh editor: an empty post dated `today`, focus not yet given.
    pub fn new(config: Config, today: Date) -> (r: App)
        requires
            today.wf(),
        ensures
            r.config == config,
            !r.focused,
            r.post.content@.len() == 0,
            r.post.date_formatted@ == date_text(today),
    {
        App { post: Post::dated(&today), focused: false, config }
    }

    /// Whether the text field is to be given focus now: only the first time
    /// this is asked. Afterwards focus is never forced again.
    pub fn take_focus(&mut self) -> (r: bool)
        ensures
            r == !old(self).focused,
            final(self).focused,
            final(self).post == old(self).post,
            final(self).config == old(self).config,
    {
        let r = !self.focused;
        self.focused = true;
        r
    }

    /// Whether the publish control is enabled: the post has content.
    pub fn can_publish(&self) -> (r: bool)
        ensures
            r == (self.post.content@.len() > 0),
    {
        !self.post.content.as_str().is_empty()
    }

    /// Whether to publish now, given a click on the publish control and a
    /// press of the control key with Enter: either one, and only with content.
    pub fn should_publish(&self, clicked: bool, ctrl_enter: bool) -> (r: bool)
        ensures
            r == ((clicked || ctrl_enter) && self.post.content@.len() > 0),
            r ==> self.post.content@.len() > 0,
    {
        (clicked || ctrl_enter) && self.can_publish()
    }

    /// The posts already on the index page, whose text is given where the
    /// page exists; none where it does not.
    pub fn load_existing_posts(&self, index_html: Option<String>) -> (r: Vec<Post>)
        ensures
            posts_view(r@) == existing_posts(text_of(index_html)),
            index_html is None ==> r@.len() == 0,
    {
        match index_html {
            Some(html) => parse_posts(html.as_str()),
            None => Vec::new(),
        }
    }

    /// The index page for the posts, in the order given, under this blog's
    /// title and author; and the default stylesheet unless one is present.
    pub fn generate_index(&self, posts: &Vec<Post>, stylesheet_present: bool) -> (r:
        Regeneration)
        ensures
            r.index_html@ == index_text(
                self.config.title@,
                self.config.username@,
                posts_view(posts@),
            ),
            text_of(r.stylesheet) == stylesheet_write(stylesheet_present),
    {
        let index_html = render_index(
            self.config.title.as_str(),
            self.config.username.as_str(),
            posts,
        );
        let stylesheet = if stylesheet_present {
            None
        } else {
            Some(default_stylesheet())
        };
        Regeneration { index_html, stylesheet }
    }

    /// Publishing with the post's content already rendered to `html`: a post
    /// with that content and the post's date goes first, before `existing`.
    pub fn publish_html(&self, existing: Vec<Post>, html: String, stylesheet_present: bool) -> (r:
        Regeneration)
        ensures
            r.index_html@ == index_text(
                self.config.title@,
                self.config.username@,
                published(
                    posts_view(existing@),
                    PostView { content: html@, date: self.post.date_formatted@ },
                ),
            ),
            text_of(r.stylesheet) == stylesheet_write(stylesheet_present),
    {
        let mut posts = existing;
        let ghost before = posts@;
        let new_post = Post::new(html, self.post.date_formatted.clone());
        posts.insert(0, new_post);
        assert(posts_view(posts@) =~= published(
            posts_view(before),
            PostView { content: new_post@.content, date: self.post.date_formatted@ },
        ));
        self.generate_index(&posts, stylesheet_present)
    }

    /// Publishes the post being written: the posts of the existing index page
    /// (its text where it exists), with the post's markdown rendered to HTML
    /// put first, make the new page.
    pub fn publish(&self, index_html: Option<String>, stylesheet_present: bool) -> (r:
        Regeneration)
        ensures
            r.index_html@ == index_text(
                self.config.title@,
                self.config.username@,
                published(
                    existing_posts(text_of(index_html)),
                    PostView {
                        content: markdown_html(self.post.content@),
                        date: self.post.date_formatted@,
                    },
                ),
            ),
            text_of(r.stylesheet) == stylesheet_write(stylesheet_present),
    {
        let existing = self.load_existing_posts(index_html);
        let html = markdown_to_html(self.post.content.as_str());
        self.publish_html(existing, html, stylesheet_present)
    }
}

} // verus!
