use trss::channel::{read_channel, ChannelData, ItemData, RssError};
use trss::feed::{
    added_feed, last_updated_or_now, needs_update, read_new_feed, refreshed_ids, Feed, FeedError, FeedUpdate, NewFeed,
};
use trss::feed_item::{i32_to_string, FeedItem, FeedItemCollection};
use trss::settings::Settings;
use trss::theme::{dark_theme, light_theme, registry_from_rows, Theme, ThemeRegistry};
use trss::style::Color;

const RSS: &str = r#"<?xml version="1.0"?>
<rss version="2.0"><channel>
<title>Example</title><link>https://example.org/</link><description>All the news</description>
<lastBuildDate>Mon, 01 Jan 2024 00:00:00 GMT</lastBuildDate>
<image><url>https://example.org/logo.png</url><title>Example</title><link>https://example.org/</link></image>
<item><guid>g1</guid><title>First</title><link>https://example.org/1</link><description>One</description></item>
<item><title>Second</title><link>https://example.org/2</link></item>
</channel></rss>"#;

#[test]
fn channel_is_read_with_its_items() {
    let c = read_channel(RSS.as_bytes()).unwrap();
    assert_eq!(c.title, "Example");
    assert_eq!(c.link, "https://example.org/");
    assert_eq!(c.description, "All the news");
    assert_eq!(c.image_url.as_deref(), Some("https://example.org/logo.png"));
    assert_eq!(c.items.len(), 2);
    assert_eq!(c.items[0].guid.as_deref(), Some("g1"));
    assert_eq!(c.items[1].guid, None);
    assert_eq!(c.items[1].title.as_deref(), Some("Second"));
}

#[test]
fn broken_documents_are_refused() {
    assert_eq!(read_channel(b"<html><body></body></html>").unwrap_err(), RssError::InvalidStartTag);
    assert_eq!(read_channel(b"").unwrap_err(), RssError::Eof);
    assert!(read_channel(b"<rss><channel><title>x</channel></rss>").is_err());
}

#[test]
fn new_feed_takes_the_given_or_the_channel_title() {
    let (f, items) = read_new_feed(String::new(), String::from("https://example.org/rss"), RSS.as_bytes()).unwrap();
    assert_eq!(f.title, "Example");
    assert_eq!(f.subtitle, "All the news");
    assert_eq!(f.url, "https://example.org/rss");
    assert_eq!(f.image, "https://example.org/logo.png");
    assert_eq!(f.last_updated, "Mon, 01 Jan 2024 00:00:00 GMT");
    assert_eq!(items.len(), 2);
    let (g, _) = read_new_feed(String::from("Mine"), String::new(), RSS.as_bytes()).unwrap();
    assert_eq!(g.title, "Mine");
}

#[test]
fn unreadable_feed_is_an_error() {
    match read_new_feed(String::from("x"), String::from("y"), b"<html></html>") {
        Err(FeedError::Unreadable(RssError::InvalidStartTag)) => {}
        other => panic!("unexpected {:?}", other.map(|(f, _)| f.title)),
    }
}

fn channel(items: usize, last: Option<&str>) -> ChannelData {
    let item = ItemData::new(None, None, None, None, None, None);
    ChannelData::new(
        String::from("T"),
        String::from("https://t.example/"),
        String::from("D"),
        last.map(String::from),
        None,
        vec![item; items],
    )
}

#[test]
fn refresh_only_when_the_count_changes() {
    assert!(!needs_update(2, &channel(2, None)));
    assert!(needs_update(1, &channel(2, None)));
    let u = FeedUpdate::from_channel(&channel(0, Some("yesterday")));
    assert_eq!(u.title, "T");
    assert_eq!(u.description, "D");
    assert_eq!(u.url, "https://t.example/");
    assert_eq!(u.last_updated, "yesterday");
}

#[test]
fn missing_build_time_is_now() {
    assert_eq!(last_updated_or_now(&Some(String::from("then"))), "then");
    let now = last_updated_or_now(&None);
    assert_eq!(now.len(), "2024-01-01 00:00:00".len());
    let n = NewFeed::from_channel(String::new(), String::new(), &channel(0, None));
    assert_eq!(n.image, "");
    assert_eq!(n.last_updated.len(), 19);
}

#[test]
fn added_feed_record() {
    let (record, items) = read_new_feed(String::new(), String::from("u"), RSS.as_bytes()).unwrap();
    let f: Feed = added_feed(5, &record, items.len());
    assert_eq!(f.id, 5);
    assert_eq!(f.title, "Example");
    assert_eq!(f.feed_count, 2);
    assert!(f.is_fetchable());
    assert!(!Feed::new(1, String::new(), String::new(), String::new(), 0).is_fetchable());
}

#[test]
fn stored_values_of_an_item() {
    let with_guid = ItemData::new(
        Some(String::from("g")),
        Some(String::from("l")),
        Some(String::from("t")),
        None,
        Some(String::from("c")),
        Some(String::from("d")),
    );
    assert_eq!(FeedItem::get_feed_items_param(&with_guid, String::from("7")), ["g", "l", "t", "", "c", "d", "7"]);
    let without_guid = ItemData::new(None, Some(String::from("l")), None, None, None, None);
    assert_eq!(FeedItem::get_feed_items_param(&without_guid, String::from("1"))[0], "l");
    let bare = ItemData::new(None, None, None, None, None, None);
    assert_eq!(FeedItem::get_feed_items_param(&bare, String::from("1"))[0], "");
}

#[test]
fn integers_as_text() {
    assert_eq!(i32_to_string(0), "0");
    assert_eq!(i32_to_string(-42), "-42");
    assert_eq!(i32_to_string(i32::MIN), "-2147483648");
    assert_eq!(i32_to_string(i32::MAX), "2147483647");
}

#[test]
fn collection_lookup_finds_the_last_with_an_id() {
    let item = |id: &str, title: &str| FeedItem {
        id: String::from(id),
        feed_id: 1,
        link: String::new(),
        title: String::from(title),
        summary: String::new(),
        content: None,
        is_favourite: false,
        in_readlist: false,
    };
    let mut c = FeedItemCollection::from_items(vec![item("x", "1"), item("y", "2"), item("x", "3")]);
    assert_eq!(c.len(), 3);
    assert_eq!(c.index_of(&String::from("x")), Some(2));
    assert_eq!(c.index_of(&String::from("z")), None);
    c.set_favourite(1, true);
    assert!(c.items[1].is_favourite);
    assert_eq!(FeedItemCollection::new().len(), 0);
}

#[test]
fn settings_from_rows() {
    let rows = vec![
        (String::from("theme"), String::from("Light")),
        (String::from("background_sync"), String::from("1")),
        (String::from("other"), String::from("x")),
    ];
    let s = Settings::from_rows(&rows);
    assert_eq!(s.theme, "Light");
    assert!(s.background_sync);
    let s2 = Settings::from_rows(&vec![(String::from("background_sync"), String::from("true"))]);
    assert_eq!(s2.theme, "Dark");
    assert!(!s2.background_sync);
}

#[test]
fn last_theme_row_wins() {
    let rows = vec![
        (String::from("theme"), String::from("Light")),
        (String::from("theme"), String::from("Solar")),
    ];
    assert_eq!(Settings::from_rows(&rows).theme, "Solar");
}

#[test]
fn built_in_themes() {
    let all = Theme::get_all();
    assert_eq!(all.len(), 2);
    assert_eq!(all.get(&String::from("Light")), Some(light_theme()));
    assert_eq!(all.get(&String::from("Dark")), Some(dark_theme()));
    assert_eq!(all.get(&String::from("Blue")), None);
    assert_eq!(dark_theme().background, Color::Rgb(0x0a, 0x0a, 0x0a));
    assert_eq!(light_theme().background, Color::Rgb(0xf6, 0xf6, 0xf8));
}

#[test]
fn registry_keeps_each_name_once() {
    let mut r = ThemeRegistry::empty();
    let t = Theme::from_rgb(1, 2, 3, 4);
    r.insert(String::from("A"), t);
    r.insert(String::from("A"), dark_theme());
    assert_eq!(r.len(), 1);
    assert_eq!(r.get(&String::from("A")), Some(dark_theme()));
    assert_eq!(r.name_list(), vec!["A"]);
    assert_eq!(t.primary, Color::Rgb(0, 0, 1));
}

#[test]
fn stored_themes_with_built_ins_over_them() {
    let rows = vec![
        (String::from("light"), 0x1152d4, 0xf6f6f8, 0x92a4c9, 0x232f48),
        (String::from("Dark"), 1, 2, 3, 4),
        (String::from("light"), 0x010203, 0, 0, 0),
    ];
    let r = registry_from_rows(&rows);
    assert_eq!(r.len(), 3);
    assert_eq!(r.get(&String::from("light")).unwrap().primary, Color::Rgb(1, 2, 3));
    assert_eq!(r.get(&String::from("Dark")), Some(dark_theme()));
    assert_eq!(r.get(&String::from("Light")), Some(light_theme()));
}

#[test]
fn missing_build_time_has_the_shape_of_a_time() {
    let now: Vec<char> = last_updated_or_now(&None).chars().collect();
    let n = now.len();
    assert!(n >= 19);
    assert_eq!(now[n - 15], '-');
    assert_eq!(now[n - 12], '-');
    assert_eq!(now[n - 9], ' ');
    assert_eq!(now[n - 6], ':');
    assert_eq!(now[n - 3], ':');
    for k in [1, 2, 4, 5, 7, 8, 10, 11, 13, 14] {
        assert!(now[n - k].is_ascii_digit());
    }
    assert!(now[..n - 15].iter().all(|c| c.is_ascii_digit() || *c == '+' || *c == '-'));
}

#[test]
fn refresh_reports_the_rewritten_feeds() {
    let feeds = vec![
        Feed::new(1, String::from("a"), String::new(), String::from("https://a"), 2),
        Feed::new(2, String::from("b"), String::new(), String::new(), 2),
        Feed::new(3, String::from("c"), String::new(), String::from("https://c"), 2),
        Feed::new(4, String::from("d"), String::new(), String::from("https://d"), 2),
    ];
    let outcomes = vec![Some((2, 5)), Some((1, 3)), Some((4, 4)), None];
    assert_eq!(refreshed_ids(&feeds, &outcomes), vec![1]);
    let outcomes = vec![Some((0, 1)), None, Some((4, 0)), Some((7, 8))];
    assert_eq!(refreshed_ids(&feeds, &outcomes), vec![1, 3, 4]);
    assert_eq!(refreshed_ids(&Vec::new(), &Vec::new()), Vec::<i32>::new());
}
