use vstd::prelude::*;
use crate::post::{posts_view, Post, PostView};

verus! {

/// One block selected from a page: the text of the first time element in it,
/// if it has one, and its inner markup.
#[derive(Debug, Clone)]
pub struct Fragment {
    pub time: Option<String>,
    pub inner: String,
}

/// A fragment as text.
pub open spec fn fragment_view(f: Fragment) -> (Option<Seq<char>>, Seq<char>) {
    (
        match f.time {
            Some(t) => Some(t@),
            None => None,
        },
        f.inner@,
    )
}

/// What scraper finds in the page `html`: for each element that the CSS
/// selector `block` matches, in the order scraper's `select` yields them, the
/// text of the first descendant that `stamp` matches and the inner HTML;
/// nothing where either selector does not parse.
pub uninterp spec fn scraped(html: Seq<char>, block: Seq<char>, stamp: Seq<char>) -> Option<
    Seq<(Option<Seq<char>>, Seq<char>)>,
>;

/// Relies on scraper's Html::parse_document, Selector::parse, Html::select,
/// ElementRef::select, ElementRef::text and ElementRef::inner_html.
#[verifier::external_body]
fn scrape(html: &str, block: &str, stamp: &str) -> (r: Option<Vec<Fragment>>)
    ensures
        r is Some <==> scraped(html@, block@, stamp@) is Some,
        r is Some ==> r->0@.map_values(|f: Fragment| fragment_view(f)) == scraped(
            html@,
            block@,
            stamp@,
        )->0,
{
    let doc = scraper::Html::parse_document(html);
    let outer = scraper::Selector::parse(block).ok()?;
    let inner = scraper::Selector::parse(stamp).ok()?;
    Some(doc.select(&outer).map(|e| Fragment {
        time: e.select(&inner).next().map(|t| t.text().collect()),
        inner: e.inner_html(),
    }).collect())
}

/// A character with the Unicode property White_Space, as `char::is_whitespace`
/// documents it.
pub open spec fn is_white(c: char) -> bool {
    let u = c as u32;
    (0x9 <= u <= 0xd) || u == 0x20 || u == 0x85 || u == 0xa0 || u == 0x1680 || (0x2000 <= u
        <= 0x200a) || u == 0x2028 || u == 0x2029 || u == 0x202f || u == 0x205f || u == 0x3000
}

/// The text without its leading whitespace.
pub open spec fn trim_start(s: Seq<char>) -> Seq<char>
    decreases s.len(),
{
    if s.len() > 0 && is_white(s[0]) {
        trim_start(s.drop_first())
    } else {
        s
    }
}

/// The text without its trailing whitespace.
pub open spec fn trim_end(s: Seq<char>) -> Seq<char>
    decreases s.len(),
{
    if s.len() > 0 && is_white(s.last()) {
        trim_end(s.drop_last())
    } else {
        s
    }
}

/// The text without leading and trailing whitespace.
pub open spec fn trimmed(s: Seq<char>) -> Seq<char> {
    trim_end(trim_start(s))
}

/// Relies on str::trim, which removes leading and trailing characters with the
/// Unicode property White_Space.
#[verifier::external_body]
pub(crate) fn trim_text(s: &str) -> (r: String)
    ensures
        r@ == trimmed(s@),
{
    s.trim().to_string()
}

/// The characters of the text, in order.
fn chars_of(s: &str) -> (r: Vec<char>)
    ensures
        r@ == s@,
{
    let n = s.unicode_len();
    let mut r: Vec<char> = Vec::new();
    let mut i: usize = 0;
    while i < n
        invariant
            n == s@.len(),
            i <= n,
            r@ == s@.subrange(0, i as int),
        decreases n - i,
    {
        r.push(s.get_char(i));
        i += 1;
        assert(r@ =~= s@.subrange(0, i as int));
    }
    assert(s@.subrange(0, n as int) =~= s@);
    r
}

/// The tag that ends the header region of an article.
pub open spec fn header_close() -> Seq<char> {
    "</header>"@
}

/// `pat` stands in `s` from position `i` on.
pub open spec fn occurs_at(s: Seq<char>, pat: Seq<char>, i: int) -> bool {
    0 <= i && i + pat.len() <= s.len() && s.subrange(i, i + pat.len()) == pat
}

/// `i` is the first position at which `pat` stands in `s`.
pub open spec fn first_at(s: Seq<char>, pat: Seq<char>, i: int) -> bool {
    occurs_at(s, pat, i) && forall|j: int| 0 <= j < i ==> !occurs_at(s, pat, j)
}

/// An article's content: what follows the end of its header, trimmed; the
/// whole inner markup where there is no header end.
pub open spec fn body_text(inner: Seq<char>) -> Seq<char> {
    if exists|i: int| first_at(inner, header_close(), i) {
        let i = choose|i: int| first_at(inner, header_close(), i);
        trimmed(inner.subrange(i + header_close().len(), inner.len() as int))
    } else {
        inner
    }
}

/// The posts that the fragments hold, in order: one for each fragment that
/// has a time element, with that text as its date.
pub open spec fn recovered(frags: Seq<(Option<Seq<char>>, Seq<char>)>) -> Seq<PostView>
    decreases frags.len(),
{
    if frags.len() == 0 {
        Seq::empty()
    } else {
        let rest = recovered(frags.drop_last());
        let f = frags.last();
        match f.0 {
            Some(t) => rest.push(PostView { content: body_text(f.1), date: t }),
            None => rest,
        }
    }
}

/// The posts of a page, as the selectors `article` and `time` find them.
pub open spec fn page_posts(html: Seq<char>) -> Seq<PostView> {
    match scraped(html, "article"@, "time"@) {
        Some(f) => recovered(f),
        None => Seq::empty(),
    }
}

/// The posts of the index page, if there is one.
pub open spec fn existing_posts(index: Option<Seq<char>>) -> Seq<PostView> {
    match index {
        Some(html) => page_posts(html),
        None => Seq::empty(),
    }
}

proof fn lemma_first_unique(s: Seq<char>, pat: Seq<char>, i: int, k: int)
    requires
        first_at(s, pat, i),
        first_at(s, pat, k),
    ensures
        i == k,
{
    if i < k {
        assert(!occurs_at(s, pat, i));
    } else if k < i {
        assert(!occurs_at(s, pat, k));
    }
}

/// The position of the first `</header>` in the characters, if any.
fn find_header_close(s: &Vec<char>) -> (r: Option<usize>)
    ensures
        r matches Some(i) ==> first_at(s@, header_close(), i as int),
        r is None ==> forall|i: int| !occurs_at(s@, header_close(), i),
{
    let pat = chars_of("</header>");
    proof {
        reveal_strlit("</header>");
    }
    assert(pat@ == header_close());
    assert(pat@.len() == 9);
    let n = s.len();
    let m = pat.len();
    if n < m {
        return None;
    }
    let mut i: usize = 0;
    while i <= n - m
        invariant
            n == s@.len(),
            m == pat@.len(),
            pat@ == header_close(),
            m == 9,
            m <= n,
            i <= n - m + 1,
            forall|j: int| 0 <= j < i ==> !occurs_at(s@, header_close(), j),
        decreases n - m + 1 - i,
    {
        let mut k: usize = 0;
        let mut same = true;
        assert(s@.subrange(i as int, i as int) =~= pat@.subrange(0, 0));
        while k < m
            invariant
                n == s@.len(),
                m == pat@.len(),
                i + m <= n,
                k <= m,
                same == (s@.subrange(i as int, i + k) == pat@.subrange(0, k as int)),
            decreases m - k,
        {
            if s[i + k] != pat[k] {
                same = false;
            }
            proof {
                let a = s@.subrange(i as int, i + k + 1);
                let b = pat@.subrange(0, k + 1);
                assert(a.subrange(0, k as int) =~= s@.subrange(i as int, i + k));
                assert(b.subrange(0, k as int) =~= pat@.subrange(0, k as int));
                assert(a[k as int] == s@[i + k]);
                assert(b[k as int] == pat@[k as int]);
                if same {
                    assert(a =~= b);
                }
            }
            k += 1;
        }
        assert(pat@.subrange(0, m as int) =~= pat@);
        if same {
            return Some(i);
        }
        i += 1;
    }
    None
}

/// An article's content, from its inner markup: what follows the first
/// `</header>`, trimmed, or all of it where there is none.
pub fn article_body(inner: &str) -> (r: String)
    ensures
        r@ == body_text(inner@),
{
    let cs = chars_of(inner);
    let n = cs.len();
    match find_header_close(&cs) {
        Some(i) => {
            proof {
                reveal_strlit("</header>");
                assert(header_close().len() == 9);
                assert(occurs_at(inner@, header_close(), i as int));
                assert forall|k: int| first_at(inner@, header_close(), k) implies k == i by {
                    lemma_first_unique(inner@, header_close(), i as int, k);
                }
            }
            let rest = inner.substring_char(i + 9, n);
            trim_text(rest)
        },
        None => {
            String::from_str(inner)
        },
    }
}

/// The posts held by the selected fragments, in order; fragments without a
/// time element are left out.
pub fn recover_posts(frags: &Vec<Fragment>) -> (r: Vec<Post>)
    ensures
        posts_view(r@) == recovered(frags@.map_values(|f: Fragment| fragment_view(f))),
{
    let ghost fv = frags@.map_values(|f: Fragment| fragment_view(f));
    let mut out: Vec<Post> = Vec::new();
    let mut i: usize = 0;
    while i < frags.len()
        invariant
            i <= frags@.len(),
            fv == frags@.map_values(|f: Fragment| fragment_view(f)),
            posts_view(out@) == recovered(fv.subrange(0, i as int)),
        decreases frags@.len() - i,
    {
        let f = &frags[i];
        proof {
            assert(fv.subrange(0, i + 1).drop_last() =~= fv.subrange(0, i as int));
            assert(fv.subrange(0, i + 1).last() == fragment_view(*f));
        }
        match &f.time {
            Some(t) => {
                let p = Post::new(article_body(f.inner.as_str()), t.clone());
                out.push(p);
                assert(posts_view(out@) =~= recovered(fv.subrange(0, i + 1)));
            },
            None => {},
        }
        i += 1;
    }
    assert(fv.subrange(0, i as int) =~= fv);
    out
}

/// The posts of an index page, newest first as the page lists them: each
/// `article` element that holds a `time` element gives one post.
pub fn parse_posts(html: &str) -> (r: Vec<Post>)
    ensures
        posts_view(r@) == page_posts(html@),
{
    match scrape(html, "article", "time") {
        Some(frags) => recover_posts(&frags),
        None => Vec::new(),
    }
}

} // verus!
