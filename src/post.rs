use vstd::prelude::*;
use crate::date::{date_text, format_date, Date};

verus! {

/// One entry of the blog: its HTML content and the date it shows.
#[derive(Debug, Clone)]
pub struct Post {
    pub content: String,
    pub date_formatted: String,
}

/// What a post holds, as text.
pub struct PostView {
    pub content: Seq<char>,
    pub date: Seq<char>,
}

impl View for Post {
    type V = PostView;

    open spec fn view(&self) -> PostView {
        PostView { content: self.content@, date: self.date_formatted@ }
    }
}

/// The views of a sequence of posts, in the same order.
pub open spec fn posts_view(posts: Seq<Post>) -> Seq<PostView> {
    posts.map_values(|p: Post| p@)
}

impl Post {
    /// A post with the given content and date text.
    pub fn new(content: String, date_formatted: String) -> (r: Post)
        ensures
            r.content@ == content@,
            r.date_formatted@ == date_formatted@,
    {
        Post { content, date_formatted }
    }

    /// An empty post stamped with the given day.
    pub fn dated(date: &Date) -> (r: Post)
        requires
            date.wf(),
        ensures
            r.content@.len() == 0,
            r.date_formatted@ == date_text(*date),
    {
        Post { content: String::new(), date_formatted: format_date(date) }
    }
}

} // verus!
