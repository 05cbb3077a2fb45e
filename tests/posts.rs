use thought::{
    article_body, default_stylesheet, format_date, ordinal_suffix, parse_posts, recover_posts,
    render_index, App, Config, Date, Fragment, Post, SetupError,
};

fn config() -> Config {
    Config::new("My Blog".to_string(), "ana".to_string(), "/tmp/blog".to_string())
}

fn app_with(content: &str, date: &str) -> App {
    let mut app = App::new(config(), Date { year: 2024, month: 6, day: 3 });
    app.post = Post::new(content.to_string(), date.to_string());
    app
}

#[test]
fn ordinal_suffixes_of_listed_days() {
    let days = [1, 2, 3, 11, 21, 22, 23, 31];
    let expected = ["st", "nd", "rd", "th", "st", "nd", "rd", "st"];
    for (d, e) in days.iter().zip(expected.iter()) {
        assert_eq!(ordinal_suffix(*d), *e, "day {}", d);
    }
    assert_eq!(ordinal_suffix(12), "th");
    assert_eq!(ordinal_suffix(13), "th");
    assert_eq!(ordinal_suffix(4), "th");
}

#[test]
fn date_is_written_long() {
    let d = Date { year: 2024, month: 6, day: 3 };
    assert_eq!(format_date(&d), "June 3rd, 2024");
    let d = Date { year: 1999, month: 12, day: 31 };
    assert_eq!(format_date(&d), "December 31st, 1999");
    let d = Date { year: 2023, month: 1, day: 11 };
    assert_eq!(format_date(&d), "January 11th, 2023");
}

#[test]
fn year_is_padded_and_signed_outside_four_digits() {
    let d = Date { year: 42, month: 2, day: 22 };
    assert_eq!(format_date(&d), "February 22nd, 0042");
    let d = Date { year: -7, month: 3, day: 23 };
    assert_eq!(format_date(&d), "March 23rd, -0007");
    let d = Date { year: 12345, month: 4, day: 1 };
    assert_eq!(format_date(&d), "April 1st, +12345");
}

#[test]
fn new_editor_dates_its_post() {
    let app = App::new(config(), Date { year: 2024, month: 6, day: 3 });
    assert!(app.post.content.is_empty());
    assert_eq!(app.post.date_formatted, "June 3rd, 2024");
    assert!(!app.focused);
    let p = Post::dated(&Date { year: 2021, month: 11, day: 21 });
    assert!(p.content.is_empty());
    assert_eq!(p.date_formatted, "November 21st, 2021");
}

#[test]
fn round_trip_through_the_page() {
    let posts = vec![
        Post::new("<p>third</p>".to_string(), "June 3rd, 2024".to_string()),
        Post::new("<h1>second</h1>\n<p>two <em>words</em></p>".to_string(), "May 22nd, 2024".to_string()),
        Post::new("<p>first &amp; last</p>".to_string(), "April 11th, 2024".to_string()),
    ];
    let page = render_index("My Blog", "ana", &posts);
    let back = parse_posts(&page);
    assert_eq!(back.len(), posts.len());
    for (a, b) in back.iter().zip(posts.iter()) {
        assert_eq!(a.date_formatted, b.date_formatted);
        assert_eq!(a.content.trim(), b.content.trim());
    }
}

#[test]
fn empty_page_text_has_no_posts() {
    assert!(parse_posts("").is_empty());
    let app = app_with("x", "June 3rd, 2024");
    assert!(app.load_existing_posts(None).is_empty());
    assert!(app.load_existing_posts(Some(String::new())).is_empty());
}

#[test]
fn page_escapes_title_and_author() {
    let page = render_index("Cats & <Dogs>", "o'neil", &Vec::new());
    assert!(page.contains("<title>Cats &amp; &lt;Dogs&gt;</title>"));
    assert!(page.contains("o&#039;neil"));
    assert!(!page.contains("<article>"));
}

#[test]
fn article_body_strips_header() {
    assert_eq!(article_body("\n<header><time>x</time></header>\n  <p>a</p>\n"), "<p>a</p>");
    assert_eq!(article_body("<p>no header</p>\n"), "<p>no header</p>\n");
    assert_eq!(article_body("<header>a</header>b</header>c"), "b</header>c");
}

#[test]
fn fragments_without_time_are_skipped() {
    let frags = vec![
        Fragment { time: Some("June 3rd, 2024".to_string()), inner: "<header></header><p>a</p>".to_string() },
        Fragment { time: None, inner: "<p>b</p>".to_string() },
        Fragment { time: Some("May 1st, 2024".to_string()), inner: "<p>c</p>".to_string() },
    ];
    let posts = recover_posts(&frags);
    assert_eq!(posts.len(), 2);
    assert_eq!(posts[0].content, "<p>a</p>");
    assert_eq!(posts[0].date_formatted, "June 3rd, 2024");
    assert_eq!(posts[1].content, "<p>c</p>");
    assert_eq!(posts[1].date_formatted, "May 1st, 2024");
}

#[test]
fn page_article_without_time_is_skipped() {
    let page = "<html><body><article><p>no date</p></article>\
                <article><header><time>May 1st, 2024</time></header><p>dated</p></article></body></html>";
    let posts = parse_posts(page);
    assert_eq!(posts.len(), 1);
    assert_eq!(posts[0].date_formatted, "May 1st, 2024");
    assert_eq!(posts[0].content, "<p>dated</p>");
}

#[test]
fn stylesheet_written_only_when_absent() {
    let app = app_with("x", "June 3rd, 2024");
    let first = app.generate_index(&Vec::new(), false);
    assert_eq!(first.stylesheet, Some(default_stylesheet()));
    let second = app.generate_index(&Vec::new(), true);
    assert_eq!(second.stylesheet, None);
    assert_eq!(first.index_html, second.index_html);
}

#[test]
fn publishing_three_posts_lists_newest_first() {
    let mut page: Option<String> = None;
    let mut present = false;
    for (text, date) in [("first", "May 1st, 2024"), ("second", "May 2nd, 2024"), ("third", "May 3rd, 2024")] {
        let app = app_with(text, date);
        let out = app.publish(page.clone(), present);
        if out.stylesheet.is_some() {
            present = true;
        }
        page = Some(out.index_html);
    }
    let posts = parse_posts(page.as_deref().unwrap());
    let contents: Vec<&str> = posts.iter().map(|p| p.content.as_str()).collect();
    assert_eq!(contents, vec!["<p>third</p>", "<p>second</p>", "<p>first</p>"]);
    let dates: Vec<&str> = posts.iter().map(|p| p.date_formatted.as_str()).collect();
    assert_eq!(dates, vec!["May 3rd, 2024", "May 2nd, 2024", "May 1st, 2024"]);
}

#[test]
fn publish_renders_markdown() {
    let app = app_with("# Hello\n\nsome *text*", "June 3rd, 2024");
    let out = app.publish(None, true);
    assert!(out.index_html.contains("<h1>Hello</h1>"));
    assert!(out.index_html.contains("<em>text</em>"));
    assert!(out.index_html.contains("<time>June 3rd, 2024</time>"));
    assert!(!out.index_html.contains("# Hello"));
}

#[test]
fn publish_html_puts_new_post_first() {
    let app = app_with("ignored", "June 3rd, 2024");
    let existing = vec![Post::new("<p>old</p>".to_string(), "May 1st, 2024".to_string())];
    let out = app.publish_html(existing, "<p>new</p>".to_string(), true);
    let new_at = out.index_html.find("<p>new</p>").unwrap();
    let old_at = out.index_html.find("<p>old</p>").unwrap();
    assert!(new_at < old_at);
}

#[test]
fn empty_content_never_publishes() {
    let app = app_with("", "June 3rd, 2024");
    assert!(!app.can_publish());
    assert!(!app.should_publish(true, false));
    assert!(!app.should_publish(false, true));
    assert!(!app.should_publish(true, true));
    let app = app_with("hi", "June 3rd, 2024");
    assert!(app.can_publish());
    assert!(app.should_publish(true, false));
    assert!(app.should_publish(false, true));
    assert!(!app.should_publish(false, false));
}

#[test]
fn focus_is_forced_once() {
    let mut app = App::new(config(), Date { year: 2024, month: 6, day: 3 });
    assert!(!app.focused);
    assert!(app.take_focus());
    assert!(!app.take_focus());
    assert!(!app.take_focus());
}

#[test]
fn setup_answers_are_checked_in_order() {
    assert_eq!(Config::from_answers("  ", "u", "f").unwrap_err(), SetupError::EmptyTitle);
    assert_eq!(Config::from_answers("t", "\n", "f").unwrap_err(), SetupError::EmptyUsername);
    assert_eq!(Config::from_answers("t", "u", " ").unwrap_err(), SetupError::EmptyFolder);
    assert_eq!(Config::from_answers("", "", "").unwrap_err(), SetupError::EmptyTitle);
    let c = Config::from_answers(" Blog \n", " me\n", " /tmp/b \n").unwrap();
    assert_eq!(c.title, "Blog");
    assert_eq!(c.username, "me");
    assert_eq!(c.folder, "/tmp/b");
    assert_eq!(Config::from_answers("\u{a0}\u{3000}", "u", "f").unwrap_err(), SetupError::EmptyTitle);
    assert_eq!(SetupError::EmptyFolder.message(), "Folder cannot be empty.");
}
