use vstd::prelude::*;
use crate::app::{published, stylesheet_after};
use crate::page::{article_text, articles_text, entity, escaped};
use crate::post::PostView;
use crate::recover::{
    body_text, first_at, header_close, is_white, occurs_at, recovered, trim_end, trim_start,
    trimmed,
};

verus! {

/// Regenerating never overwrites a stylesheet: one that is present stays as
/// it is, so a second regeneration leaves what the first one left.
pub proof fn lemma_stylesheet_kept(before: Option<Seq<char>>)
    ensures
        before is Some ==> stylesheet_after(before) == before,
        stylesheet_after(stylesheet_after(before)) == stylesheet_after(before),
        stylesheet_after(before) is Some,
{
}

/// The article blocks of two runs of posts, one after the other, are the
/// blocks of the first run followed by those of the second.
pub proof fn lemma_articles_concat(a: Seq<PostView>, b: Seq<PostView>)
    ensures
        articles_text(a + b) == articles_text(a) + articles_text(b),
    decreases b.len(),
{
    if b.len() == 0 {
        assert(a + b =~= a);
        assert(articles_text(b) =~= Seq::<char>::empty());
        assert(articles_text(a) + articles_text(b) =~= articles_text(a));
    } else {
        lemma_articles_concat(a, b.drop_last());
        assert((a + b).drop_last() =~= a + b.drop_last());
        assert((a + b).last() == b.last());
        assert(articles_text(a + b) =~= articles_text(a) + articles_text(b));
    }
}

/// Publishing `p1`, then `p2`, then `p3` lists them newest first, above the
/// posts that were there before, and the page shows their articles from top
/// to bottom in that order.
pub proof fn lemma_publish_order(existing: Seq<PostView>, p1: PostView, p2: PostView, p3: PostView)
    ensures
        published(published(published(existing, p1), p2), p3) == seq![p3, p2, p1] + existing,
        articles_text(published(published(published(existing, p1), p2), p3)) == article_text(p3)
            + article_text(p2) + article_text(p1) + articles_text(existing),
{
    let all = published(published(published(existing, p1), p2), p3);
    assert(all =~= seq![p3, p2, p1] + existing);
    lemma_articles_concat(seq![p3, p2, p1], existing);
    let one = seq![p3];
    let two = seq![p3, p2];
    let three = seq![p3, p2, p1];
    assert(one.drop_last() =~= Seq::<PostView>::empty());
    assert(two.drop_last() =~= one);
    assert(three.drop_last() =~= two);
    assert(articles_text(Seq::<PostView>::empty()) =~= Seq::<char>::empty());
    assert(articles_text(one) =~= article_text(p3));
    assert(articles_text(two) =~= article_text(p3) + article_text(p2));
    assert(articles_text(three) =~= article_text(p3) + article_text(p2) + article_text(p1));
}

/// What an article element holds as the page writes it: the header with the
/// date in a time element, then the content between two line breaks.
pub open spec fn article_inner(p: PostView) -> Seq<char> {
    "\n<header><time>"@ + escaped(p.date) + "</time></header>\n"@ + p.content + "\n"@
}

/// An article block is its inner markup inside the article tags.
pub proof fn lemma_article_wraps_inner(p: PostView)
    ensures
        article_text(p) == "<article>"@ + article_inner(p) + "</article>\n"@,
{
    reveal_strlit("<article>\n<header><time>");
    reveal_strlit("<article>");
    reveal_strlit("\n<header><time>");
    reveal_strlit("\n</article>\n");
    reveal_strlit("</article>\n");
    reveal_strlit("\n");
    assert(article_text(p) =~= "<article>"@ + article_inner(p) + "</article>\n"@);
}

proof fn lemma_escaped_no_lt(s: Seq<char>)
    ensures
        forall|i: int| 0 <= i < escaped(s).len() ==> escaped(s)[i] != '<',
    decreases s.len(),
{
    if s.len() > 0 {
        lemma_escaped_no_lt(s.drop_last());
        reveal_strlit("&amp;");
        reveal_strlit("&lt;");
        reveal_strlit("&gt;");
        reveal_strlit("&quot;");
        reveal_strlit("&#039;");
        let e = entity(s.last());
        assert(forall|i: int| 0 <= i < e.len() ==> e[i] != '<');
        let a = escaped(s.drop_last());
        assert(escaped(s) == a + e);
        assert forall|i: int| 0 <= i < escaped(s).len() implies escaped(s)[i] != '<' by {
            if i < a.len() {
                assert(escaped(s)[i] == a[i]);
            } else {
                assert(escaped(s)[i] == e[i - a.len()]);
            }
        }
    }
}

proof fn lemma_trim_start_append(c: Seq<char>, t: Seq<char>)
    ensures
        trim_start(c).len() > 0 ==> trim_start(c + t) == trim_start(c) + t,
        trim_start(c).len() == 0 ==> trim_start(c + t) == trim_start(t),
    decreases c.len(),
{
    if c.len() == 0 {
        assert(c + t =~= t);
    } else if is_white(c[0]) {
        assert((c + t).drop_first() =~= c.drop_first() + t);
        assert((c + t)[0] == c[0]);
        lemma_trim_start_append(c.drop_first(), t);
    } else {
        assert((c + t)[0] == c[0]);
    }
}

/// Line breaks around a text change nothing once it is trimmed.
pub proof fn lemma_trimmed_line_breaks(c: Seq<char>)
    ensures
        trimmed(seq!['\n'] + c + seq!['\n']) == trimmed(c),
{
    let nl = seq!['\n'];
    assert(is_white('\n'));
    let s = nl + c + nl;
    assert(s.drop_first() =~= c + nl);
    assert(s[0] == '\n');
    assert(trim_start(s) == trim_start(c + nl));
    lemma_trim_start_append(c, nl);
    if trim_start(c).len() > 0 {
        let x = trim_start(c);
        assert((x + nl).drop_last() =~= x);
        assert((x + nl).last() == '\n');
    } else {
        assert(nl.drop_first() =~= Seq::<char>::empty());
        assert(nl[0] == '\n' && nl.len() == 1);
        assert(trim_start(Seq::<char>::empty()) =~= Seq::<char>::empty());
        assert(trim_start(nl) == trim_start(nl.drop_first()));
        assert(trim_start(nl) =~= Seq::<char>::empty());
    }
}

proof fn lemma_header_close_position(p: PostView)
    ensures
        first_at(
            article_inner(p),
            header_close(),
            escaped(p.date).len() as int + 22,
        ),
        article_inner(p).subrange(escaped(p.date).len() as int + 31, article_inner(p).len() as int)
            == seq!['\n'] + p.content + seq!['\n'],
{
    reveal_strlit("\n<header><time>");
    reveal_strlit("</time></header>\n");
    reveal_strlit("</header>");
    reveal_strlit("\n");
    lemma_escaped_no_lt(p.date);
    let s = article_inner(p);
    let e = escaped(p.date);
    let a = "\n<header><time>"@;
    let b = "</time></header>\n"@;
    let pat = header_close();
    let k = e.len() as int + 22;
    assert(s =~= a + e + b + p.content + "\n"@);
    assert(s.subrange(k, k + 9) =~= pat);
    assert forall|j: int| 0 <= j < k implies !occurs_at(s, pat, j) by {
        if occurs_at(s, pat, j) {
            assert(s.subrange(j, j + 9)[0] == pat[0]);
            assert(s.subrange(j, j + 9)[1] == pat[1]);
            assert(s.subrange(j, j + 9)[2] == pat[2]);
            assert(s[j] == '<');
            if j < 15 {
                assert(j == 1 || j == 9);
            } else if j < 15 + e.len() {
                assert(s[j] == e[j - 15]);
            } else {
                assert(s[j + 2] == b[j - 15 - e.len() + 2]);
            }
        }
    }
    assert(s.subrange(e.len() as int + 31, s.len() as int) =~= seq!['\n'] + p.content + seq!['\n']);
}

/// The library's part of reading a page back: where scraper hands back each
/// article as the page wrote it (its date as the time text, its inner markup
/// as written), the posts recovered are the posts written, in order, each
/// with its date and its content trimmed.
pub proof fn lemma_written_articles_recovered(
    posts: Seq<PostView>,
    frags: Seq<(Option<Seq<char>>, Seq<char>)>,
)
    requires
        frags.len() == posts.len(),
        forall|i: int|
            0 <= i < posts.len() ==> #[trigger] frags[i] == (
                Some(posts[i].date),
                article_inner(posts[i]),
            ),
    ensures
        recovered(frags).len() == posts.len(),
        forall|i: int|
            0 <= i < posts.len() ==> #[trigger] recovered(frags)[i] == (PostView {
                content: trimmed(posts[i].content),
                date: posts[i].date,
            }),
    decreases posts.len(),
{
    if posts.len() > 0 {
        let n = posts.len() - 1;
        lemma_written_articles_recovered(posts.drop_last(), frags.drop_last());
        let p = posts[n];
        assert(frags.last() == frags[n]);
        lemma_header_close_position(p);
        let k = escaped(p.date).len() as int + 22;
        reveal_strlit("</header>");
        assert forall|j: int| first_at(article_inner(p), header_close(), j) implies j == k by {
            if j < k {
                assert(!occurs_at(article_inner(p), header_close(), j));
            } else if k < j {
                assert(!occurs_at(article_inner(p), header_close(), k));
            }
        }
        lemma_trimmed_line_breaks(p.content);
        assert(body_text(article_inner(p)) == trimmed(p.content));
        let r = recovered(frags);
        let r0 = recovered(frags.drop_last());
        assert(r == r0.push(PostView { content: trimmed(p.content), date: p.date }));
        assert forall|i: int| 0 <= i < posts.len() implies #[trigger] r[i] == (PostView {
            content: trimmed(posts[i].content),
            date: posts[i].date,
        }) by {
            if i < n {
                assert(posts.drop_last()[i] == posts[i]);
                assert(frags.drop_last()[i] == frags[i]);
                assert(r0[i] == r[i]);
            }
        }
    }
}

} // verus!
