use vstd::prelude::*;
use crate::post::{posts_view, Post, PostView};

verus! {

/// How a character is written in HTML text: the five characters that markup
/// gives a meaning to become entities, every other stays as it is.
pub open spec fn entity(c: char) -> Seq<char> {
    if c == '&' {
        "&amp;"@
    } else if c == '<' {
        "&lt;"@
    } else if c == '>' {
        "&gt;"@
    } else if c == '"' {
        "&quot;"@
    } else if c == '\'' {
        "&#039;"@
    } else {
        seq![c]
    }
}

/// Text made safe to stand in HTML, one character at a time.
pub open spec fn escaped(s: Seq<char>) -> Seq<char>
    decreases s.len(),
{
    if s.len() == 0 {
        Seq::empty()
    } else {
        escaped(s.drop_last()) + entity(s.last())
    }
}

/// Relies on sailfish::runtime::escape::escape_to_string: it appends `feed`
/// to `out` with each of `&"'<>` replaced by its entity.
#[verifier::external_body]
fn escape_into(feed: &str, out: &mut String)
    ensures
        final(out)@ == old(out)@ + escaped(feed@),
{
    sailfish::runtime::escape::escape_to_string(feed, out)
}

/// The page up to the first post: document head, blog title and author.
pub open spec fn head_text(title: Seq<char>, username: Seq<char>) -> Seq<char> {
    "<!DOCTYPE html>\n<html lang=\"en\">\n<head>\n<meta charset=\"utf-8\">\n<title>"@ + escaped(title)
        + "</title>\n<link rel=\"stylesheet\" href=\"styles.css\">\n</head>\n<body>\n<header>\n<h1>"@
        + escaped(title) + "</h1>\n<p class=\"author\">"@ + escaped(username)
        + "</p>\n</header>\n<main>\n"@
}

/// The page after the last post.
pub open spec fn tail_text() -> Seq<char> {
    "</main>\n</body>\n</html>\n"@
}

/// One post as an article block: a header holding its date in a time
/// element, then its content as it is.
pub open spec fn article_text(p: PostView) -> Seq<char> {
    "<article>\n<header><time>"@ + escaped(p.date) + "</time></header>\n"@ + p.content
        + "\n</article>\n"@
}

/// The article blocks of the posts, in the order given.
pub open spec fn articles_text(posts: Seq<PostView>) -> Seq<char>
    decreases posts.len(),
{
    if posts.len() == 0 {
        Seq::empty()
    } else {
        articles_text(posts.drop_last()) + article_text(posts.last())
    }
}

/// The whole index page.
pub open spec fn index_text(title: Seq<char>, username: Seq<char>, posts: Seq<PostView>) -> Seq<
    char,
> {
    head_text(title, username) + articles_text(posts) + tail_text()
}

/// The stylesheet that a new blog folder receives.
pub open spec fn stylesheet_text() -> Seq<char> {
    "body {\n  max-width: 40rem;\n  margin: 2rem auto;\n  padding: 0 1rem;\n  font-family: Georgia, serif;\n  line-height: 1.6;\n  color: #222;\n}\n\nheader h1 {\n  margin-bottom: 0;\n}\n\n.author {\n  color: #666;\n  margin-top: 0;\n}\n\narticle {\n  border-top: 1px solid #ddd;\n  padding: 1rem 0;\n}\n\narticle time {\n  color: #888;\n  font-size: 0.9rem;\n}\n"@
}

/// The stylesheet that a new blog folder receives.
pub fn default_stylesheet() -> (r: String)
    ensures
        r@ == stylesheet_text(),
{
    String::from_str(
        "body {\n  max-width: 40rem;\n  margin: 2rem auto;\n  padding: 0 1rem;\n  font-family: Georgia, serif;\n  line-height: 1.6;\n  color: #222;\n}\n\nheader h1 {\n  margin-bottom: 0;\n}\n\n.author {\n  color: #666;\n  margin-top: 0;\n}\n\narticle {\n  border-top: 1px solid #ddd;\n  padding: 1rem 0;\n}\n\narticle time {\n  color: #888;\n  font-size: 0.9rem;\n}\n",
    )
}

fn push_article(p: &Post, out: &mut String)
    ensures
        final(out)@ == old(out)@ + article_text(p@),
{
    let ghost start = out@;
    out.append("<article>\n<header><time>");
    escape_into(p.date_formatted.as_str(), out);
    out.append("</time></header>\n");
    out.append(p.content.as_str());
    out.append("\n</article>\n");
    assert(out@ =~= start + article_text(p@));
}

/// Renders the index page: title and author at the top, then one article
/// block per post in the order given.
pub fn render_index(title: &str, username: &str, posts: &Vec<Post>) -> (r: String)
    ensures
        r@ == index_text(title@, username@, posts_view(posts@)),
{
    let mut out = String::new();
    out.append("<!DOCTYPE html>\n<html lang=\"en\">\n<head>\n<meta charset=\"utf-8\">\n<title>");
    escape_into(title, &mut out);
    out.append("</title>\n<link rel=\"stylesheet\" href=\"styles.css\">\n</head>\n<body>\n<header>\n<h1>");
    escape_into(title, &mut out);
    out.append("</h1>\n<p class=\"author\">");
    escape_into(username, &mut out);
    out.append("</p>\n</header>\n<main>\n");
    assert(out@ =~= head_text(title@, username@));
    let mut i: usize = 0;
    while i < posts.len()
        invariant
            i <= posts@.len(),
            out@ == head_text(title@, username@) + articles_text(
                posts_view(posts@).subrange(0, i as int),
            ),
        decreases posts@.len() - i,
    {
        push_article(&posts[i], &mut out);
        proof {
            let v = posts_view(posts@);
            assert(v.subrange(0, i + 1).drop_last() =~= v.subrange(0, i as int));
            assert(v.subrange(0, i + 1).last() == posts@[i as int]@);
        }
        i += 1;
        assert(out@ =~= head_text(title@, username@) + articles_text(
            posts_view(posts@).subrange(0, i as int),
        ));
    }
    assert(posts_view(posts@).subrange(0, i as int) =~= posts_view(posts@));
    out.append("</main>\n</body>\n</html>\n");
    out
}

} // verus!
