use trss::app::Screens;
use trss::theme::dark_theme;
use trss::widgets::{
    favourite_icon, feed_item_lines, input_label, navigation_items, screen_tips, search_label,
    sidebar_row_fits, sidebar_row_of, tip_width, AddFeed, KeyBinding,
};

#[test]
fn navigation_entries_with_counts() {
    let items = navigation_items(3, 12, 0);
    assert_eq!(items[0].text(), "\u{f09e} All Articles");
    assert_eq!(items[0].count_text(), "[3]");
    assert_eq!(items[1].text(), "\u{f005} Favorites");
    assert_eq!(items[1].count_text(), "[12]");
    assert_eq!(items[2].text(), "\u{f187} Reading List");
    assert_eq!(items[2].count_text(), "[0]");
}

#[test]
fn footer_tips_per_screen() {
    let home = screen_tips(Screens::Home).unwrap();
    assert_eq!(home.len(), 2);
    assert_eq!((home[0].key.as_str(), home[0].label.as_str()), ("J/K", "Navigate"));
    assert_eq!((home[1].key.as_str(), home[1].label.as_str()), ("Enter", "Read"));
    let view = screen_tips(Screens::ViewFeed).unwrap();
    assert_eq!((view[0].key.as_str(), view[0].label.as_str()), ("F1", "Add to Fav"));
    assert!(screen_tips(Screens::TestHtml).is_none());
    assert_eq!(tip_width(&home[0]), 3 + 8 + 3);
    let wide = KeyBinding { key: String::from("\u{2192}"), label: String::from("é") };
    assert_eq!(tip_width(&wide), 3 + 2 + 3);
}

#[test]
fn header_search_text() {
    assert_eq!(search_label(""), "  Press '/' to Search  ");
    assert_eq!(search_label("rust"), " rust ");
}

#[test]
fn form_fields_show_hints() {
    assert_eq!(input_label("", "Enter feed url"), (String::from(" Enter feed url"), true));
    assert_eq!(input_label("abc", "Enter feed url"), (String::from(" abc"), false));
    let form = AddFeed::new(String::new(), String::from("https://x"), 1, dark_theme());
    assert_eq!(form.title_input(), (String::from(" Enter feed title"), true, false));
    assert_eq!(form.url_input(), (String::from(" https://x"), false, true));
    assert!(!form.button_focused());
    let form = AddFeed::new(String::from("T"), String::new(), 2, dark_theme());
    assert_eq!(form.title_input().0, " T");
    assert!(form.button_focused());
}

#[test]
fn article_list_lines_and_marks() {
    assert_eq!(feed_item_lines("Title", "Sum"), (String::from("  Title "), String::from("   Sum ")));
    assert_eq!(favourite_icon(true), "\u{ec04}");
    assert_eq!(favourite_icon(false), "\u{eb05}");
}

#[test]
fn sidebar_rows_fit_their_titles() {
    assert_eq!(sidebar_row_of("Rust Blog", 12, 20), " Rust Blog     [12] ");
    assert_eq!(sidebar_row_of("A very long title here", 3, 16), " A very ... [3] ");
    assert_eq!(sidebar_row_of("d\u{e9}j\u{e0} vu", 0, 13), " d\u{e9}j...  [0] ");
    assert_eq!(sidebar_row_of("x", -5, 9), " x  [-5] ");
}

#[test]
fn sidebar_row_fit_check() {
    assert!(sidebar_row_fits("Rust Blog", 12, 20));
    assert!(sidebar_row_fits("A very long title here", 3, 16));
    assert!(sidebar_row_fits("d\u{e9}j\u{e0} vu", 0, 13));
    assert!(!sidebar_row_fits("\u{e9}\u{e9}\u{e9}\u{e9}", 0, 10));
    assert!(!sidebar_row_fits("long title", 0, 7));
    assert!(sidebar_row_fits("", 0, 0));
}
