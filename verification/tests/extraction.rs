//! Extraction tests against a fixed snapshot-style page for a known
//! novel id, plus payload fixtures for the related-novels and search
//! readers.

use novel_finder::models::{NovelStatus, ParseError};
use novel_finder::scraper::novel_page::{
    extract_chapter_titles, extract_ld_json, extract_stats, extract_status,
    parse_also_liked_from_json, parse_novel_from_html, parse_stat_number,
};
use novel_finder::scraper::reviews::parse_reviews_from_html;
use novel_finder::scraper::search::parse_search_results;

fn b(s: &str) -> Vec<u8> {
    s.as_bytes().to_vec()
}

/// One review block in the shape the page uses.
fn review_block(author: &str, stars: &str, text: &str, date: &str) -> String {
    let mut s = String::new();
    s.push_str("<div class=\"review\">\n");
    s.push_str("<div class=\"review-meta\"><a class=\"small\" href=\"/profile\">");
    s.push_str(author);
    s.push_str("</a> posted <time datetime=\"");
    s.push_str(date);
    s.push_str("\">a while ago</time></div>\n");
    s.push_str("<div class=\"overall-score-container\">");
    s.push_str("<div aria-label=\"Overall Score\"></div>");
    s.push_str("<div aria-label=\"");
    s.push_str(stars);
    s.push_str(" stars\"></div></div>\n");
    s.push_str("<div class=\"review-inner\"><p>");
    s.push_str(text);
    s.push_str("</p><div>more thoughts</div></div>\n");
    s.push_str("</div>\n");
    s
}

/// A snapshot-style novel page for id 90435.
fn fixture_page() -> Vec<u8> {
    let mut chapters = String::new();
    chapters.push_str("[{\"id\":1,\"title\":\"1 - Rabbit\"}");
    for i in 2..=36 {
        chapters.push_str(&format!(",{{\"id\":{},\"title\":\"Chapter {}\"}}", i, i));
    }
    chapters.push_str(",{\"id\":37,\"title\":\"Stub Announcement\"}]");

    let reviewers = [
        ("PhantomBuni", "5", "I loved this book so much, the heroine is great", "2025-01-07T10:09:50.0000000"),
        ("vikray17", "5", "Fun adventures and solid pacing", "2025-02-11T08:00:00.0000000"),
        ("bryanzero", "4.5", "Great fun, minor pacing issues", "2025-02-20T12:30:00.0000000"),
        ("Some_Random_Cultivator", "5", "Surprisingly wholesome progression", "2025-03-01T09:15:00.0000000"),
        ("7whitewolf7", "5", "The stat system is clever", "2025-03-14T22:45:00.0000000"),
        ("Detruejedi", "4", "Good read, a few typos", "2025-04-02T17:05:00.0000000"),
        ("jumpsplat120", "4.5", "Charming cast and setting", "2025-04-18T11:11:11.0000000"),
        ("Purplegriffin", "5", "Binged it in two days", "2025-05-06T06:06:06.0000000"),
        ("Evilish", "5", "Deliciously chaotic energy", "2025-05-21T19:00:00.0000000"),
        ("Kptn", "3", "Decent but repetitive late on", "2025-06-30T23:59:59.0000000"),
    ];
    let mut reviews = String::new();
    for (author, stars, text, date) in reviewers.iter() {
        reviews.push_str(&review_block(author, stars, text, date));
    }

    let mut page = String::new();
    page.push_str("<html><head>\n<script type=\"application/ld+json\">\n");
    page.push_str("{\"@type\":\"Book\",\"name\":\"Bunny Girl Evolution\",");
    page.push_str("\"author\":{\"@type\":\"Person\",\"name\":\"Bedivere the Mad\"},");
    page.push_str("\"description\":\"<p>A story about a <b>bunny</b> girl and her ");
    page.push_str("<span class=\\\"arc\\\">evolution</span> through dungeons.</p>\",");
    page.push_str("\"numberOfPages\":391,");
    page.push_str(
        "\"aggregateRating\":{\"@type\":\"AggregateRating\",\"ratingValue\":4.398,\"ratingCount\":512},",
    );
    page.push_str("\"genre\":[\"LitRPG\",\"Fantasy\",\"Action\",\"Adventure\"]}\n");
    page.push_str("</script>\n</head><body>\n");
    page.push_str("<span class=\"label label-sm\">STUB</span>\n");
    page.push_str("<div class=\"fiction-stats\"><div class=\"stats-content\"><ul>\n");
    page.push_str("<li>Followers :</li><li>6,475</li>\n");
    page.push_str("<li>Favorites :</li><li>1,808</li>\n");
    page.push_str("<li>Ratings :</li><li>512</li>\n");
    page.push_str("</ul></div></div>\n");
    page.push_str("<script>window.chapters = ");
    page.push_str(&chapters);
    page.push_str(";</script>\n");
    page.push_str(&reviews);
    page.push_str("</body></html>\n");
    page.into_bytes()
}

fn similar_fixture() -> Vec<u8> {
    let mut s = String::new();
    s.push_str("[{\"id\":89877,\"title\":\"Cursed Explorer\"},");
    s.push_str("{\"id\":115399,\"title\":\"Death Healer\"},");
    s.push_str("{\"id\":80744,\"title\":\"Dungeon of Knowledge\"},");
    s.push_str("{\"id\":129189,\"title\":\"Chloe the Zombie\"},");
    s.push_str("{\"id\":100001},{\"id\":100002},{\"id\":100003},");
    s.push_str("{\"id\":100004},{\"id\":100005},{\"id\":100006}]");
    s.into_bytes()
}

#[test]
fn test_parse_novel_from_html() {
    let html = fixture_page();
    let novel = parse_novel_from_html(&html, 90435).unwrap();

    assert_eq!(novel.id, 90435);
    assert_eq!(novel.title, b("Bunny Girl Evolution"));
    assert_eq!(novel.author, b("Bedivere the Mad"));
    assert_eq!(novel.url, b("https://www.royalroad.com/fiction/90435"));
    assert_eq!(novel.pages, 391);
    assert_eq!(novel.rating_milli, 4398);
    assert_eq!(novel.status, NovelStatus::Stub);
    assert_eq!(novel.followers, 6475);
    assert_eq!(novel.favorites, 1808);
    assert_eq!(novel.chapter_count, 37);

    assert!(novel.tags.contains(&b("LitRPG")));
    assert!(novel.tags.contains(&b("Fantasy")));
    assert!(novel.tags.contains(&b("Action")));

    assert!(novel.chapter_titles.contains(&b("1 - Rabbit")));
    assert!(novel.chapter_titles.contains(&b("Stub Announcement")));
}

fn contains_sub(hay: &[u8], needle: &[u8]) -> bool {
    hay.windows(needle.len()).any(|w| w == needle)
}

#[test]
fn test_parse_novel_description_is_plain_text() {
    let html = fixture_page();
    let novel = parse_novel_from_html(&html, 90435).unwrap();

    assert!(!novel.description.is_empty());
    assert!(contains_sub(&novel.description, b"bunny"));
    assert!(!contains_sub(&novel.description, b"<p>"));
    assert!(!contains_sub(&novel.description, b"<b>"));
    assert!(!contains_sub(&novel.description, b"<span"));
}

#[test]
fn test_parse_also_liked_from_json() {
    let json = similar_fixture();
    let ids = parse_also_liked_from_json(&json).unwrap();

    assert!(!ids.is_empty());
    assert_eq!(ids.len(), 10);
    assert!(ids.contains(&89877));
    assert!(ids.contains(&115399));
    assert!(ids.contains(&80744));
    assert!(ids.contains(&129189));
}

#[test]
fn test_parse_reviews_from_html() {
    let html = fixture_page();
    let reviews = parse_reviews_from_html(&html, 100).unwrap();

    assert_eq!(reviews.len(), 10);

    let first = &reviews[0];
    assert_eq!(first.author, b("PhantomBuni"));
    assert_eq!(first.rating_milli, 5000);
    assert!(contains_sub(&first.text, b"I loved this book so much"));
    assert!(contains_sub(&first.posted_date, b"2025-01-07"));
}

#[test]
fn test_parse_reviews_max_limit() {
    let html = fixture_page();
    let reviews = parse_reviews_from_html(&html, 3).unwrap();

    assert_eq!(reviews.len(), 3);
}

#[test]
fn test_parse_reviews_rating_extraction() {
    let html = fixture_page();
    let reviews = parse_reviews_from_html(&html, 100).unwrap();

    let five_star: Vec<_> = reviews.iter().filter(|r| r.rating_milli == 5000).collect();
    assert!(!five_star.is_empty());

    let jumpsplat = reviews.iter().find(|r| r.author == b("jumpsplat120")).unwrap();
    assert_eq!(jumpsplat.rating_milli, 4500);

    let kptn = reviews.iter().find(|r| r.author == b("Kptn")).unwrap();
    assert_eq!(kptn.rating_milli, 3000);
}

#[test]
fn test_parse_reviews_empty_html() {
    let html = b("<html><body><div>No reviews here</div></body></html>");
    let reviews = parse_reviews_from_html(&html, 10).unwrap();
    assert!(reviews.is_empty());
}

#[test]
fn test_parse_reviews_text_is_plain() {
    let html = fixture_page();
    let reviews = parse_reviews_from_html(&html, 100).unwrap();

    for review in &reviews {
        assert!(!review.text.is_empty());
        assert!(!contains_sub(&review.text, b"<p>"), "Review text contains <p> tag");
        assert!(!contains_sub(&review.text, b"<div>"), "Review text contains <div> tag");
    }
}

#[test]
fn test_parse_reviews_dates_are_iso() {
    let html = fixture_page();
    let reviews = parse_reviews_from_html(&html, 100).unwrap();

    for review in &reviews {
        assert!(
            review.posted_date.contains(&b'T'),
            "Date should be ISO format: {:?}",
            review.posted_date
        );
    }
}

#[test]
fn test_parse_reviews_all_authors_present() {
    let html = fixture_page();
    let reviews = parse_reviews_from_html(&html, 100).unwrap();

    let expected_authors = vec![
        "PhantomBuni",
        "vikray17",
        "bryanzero",
        "Some_Random_Cultivator",
        "7whitewolf7",
        "Detruejedi",
        "jumpsplat120",
        "Purplegriffin",
        "Evilish",
        "Kptn",
    ];

    for expected in &expected_authors {
        assert!(
            reviews.iter().any(|r| r.author == b(expected)),
            "Missing author: {}",
            expected
        );
    }
}

#[test]
fn test_extract_status_variants() {
    let html = b("<body><span class=\"label\">ONGOING</span></body>");
    assert_eq!(extract_status(&html).unwrap(), NovelStatus::Ongoing);
    let html = b("<body><span class=\"label lg\"> Completed </span></body>");
    assert_eq!(extract_status(&html).unwrap(), NovelStatus::Completed);
    let html = b("<body><span class=\"badge\">ONGOING</span></body>");
    assert_eq!(extract_status(&html), Err(ParseError::MissingStatus));
    let html = b("<body><span class=\"label\">Popular</span><span class=\"label\">HIATUS</span></body>");
    assert_eq!(extract_status(&html).unwrap(), NovelStatus::Hiatus);
}

#[test]
fn test_extract_stats_and_numbers() {
    assert_eq!(parse_stat_number(&b("6,475")).unwrap(), 6475);
    assert_eq!(parse_stat_number(&b("  1,808 users")).unwrap(), 1808);
    assert_eq!(parse_stat_number(&b("none")), Err(ParseError::InvalidNumber));

    let html = b("<ul><li>Favorites :</li><li>7</li></ul>");
    assert_eq!(extract_stats(&html), Err(ParseError::MissingFollowers));
    let html = b("<ul><li>Followers :</li><li>9</li></ul>");
    assert_eq!(extract_stats(&html), Err(ParseError::MissingFavorites));
    let html = b("<ul><li>Followers :</li><li>12</li><li>Favorites :</li><li>5</li></ul>");
    assert_eq!(extract_stats(&html).unwrap(), (12, 5));
}

#[test]
fn test_extract_errors_name_missing_fields() {
    let no_block = b("<html><body>nothing here</body></html>");
    assert_eq!(
        parse_novel_from_html(&no_block, 1),
        Err(ParseError::MissingEmbeddedData)
    );
    assert_eq!(
        extract_ld_json(&no_block),
        Err(ParseError::MissingEmbeddedData)
    );

    let no_title = b(
        "<script type=\"application/ld+json\">{\"author\":{\"name\":\"A\"}}</script>",
    );
    assert_eq!(parse_novel_from_html(&no_title, 1), Err(ParseError::MissingTitle));

    let no_chapters = b("<html><body>text</body></html>");
    assert_eq!(
        extract_chapter_titles(&no_chapters),
        Err(ParseError::MissingChapters)
    );
}

#[test]
fn test_parse_search_results_fixture() {
    let mut json_s = String::new();
    json_s.push_str("[{\"id\":11,\"title\":\"First\"},");
    json_s.push_str("{\"title\":\"no id\"},");
    json_s.push_str("{\"id\":22,\"title\":\"Second\"},");
    json_s.push_str("{\"id\":33}]");
    let json = json_s.into_bytes();
    let results = parse_search_results(&json, 10).unwrap();
    assert_eq!(results.len(), 2);
    assert_eq!(results[0].id, 11);
    assert_eq!(results[0].title, b("First"));
    assert_eq!(results[0].url, b("https://www.royalroad.com/fiction/11"));
    assert_eq!(results[1].id, 22);

    let capped = parse_search_results(&json, 1).unwrap();
    assert_eq!(capped.len(), 1);
    assert_eq!(capped[0].id, 11);

    let bad = b("not json at all");
    assert_eq!(parse_search_results(&bad, 5), Err(ParseError::MalformedPayload));
}
