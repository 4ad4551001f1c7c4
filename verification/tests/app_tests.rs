use trss::app::{
    add_text, collection_position, feed_position, position_of, remove_text, App, AppCommand,
    AppConfig, AppEvent, CommandEffect, EventEffect, Overlay, Route, Screens,
};
use trss::event::{Event, KeyCode, KeyEvent};
use trss::feed::{Feed, FeedSource};
use trss::feed_item::{FeedItem, FeedItemCollection};
use trss::settings::Settings;
use trss::theme::{dark_theme, light_theme, Theme};

fn item(id: &str, feed_id: i32) -> FeedItem {
    FeedItem {
        id: String::from(id),
        feed_id,
        link: format!("https://example.org/{}", id),
        title: format!("Title {}", id),
        summary: format!("Summary {}", id),
        content: Some(format!("<p>Body {}</p>", id)),
        is_favourite: false,
        in_readlist: false,
    }
}

fn feed(id: i32, title: &str) -> Feed {
    Feed::new(id, String::from(title), format!("{} news", title), format!("https://{}.example", id), 0)
}

fn fixture() -> App {
    let feeds = vec![feed(1, "Rust"), feed(2, "Favourites"), feed(3, "News")];
    let collections = vec![
        FeedItemCollection::from_items(vec![item("a", 1), item("b", 1)]),
        FeedItemCollection::new(),
        FeedItemCollection::from_items(vec![item("c", 3)]),
    ];
    let config = AppConfig::new(Settings::defaults(), Theme::get_all());
    App::new(feeds, collections, vec![String::from("c"), String::from("c")], config)
}

fn key(code: KeyCode) -> Event {
    Event::Key(KeyEvent::press(code))
}

#[test]
fn app_starts_on_home_with_counts() {
    let app = fixture();
    assert_eq!(app.current_screen, Screens::Home);
    assert!(!app.should_quit);
    let counts: Vec<i32> = app.state.feeds.iter().map(|f| f.feed_count).collect();
    assert_eq!(counts, vec![2, 0, 1]);
    assert_eq!(app.state.selected_source, FeedSource::Feed(1));
    assert_eq!(app.state.favourites, vec!["c"]);
    assert!(app.state.readlist.is_empty());
    assert_eq!(app.state.overlay, Overlay::Empty);
    assert_eq!(app.config.current_theme, dark_theme());
}

#[test]
fn selecting_a_source_selects_its_feed() {
    let mut app = fixture();
    let e = app.apply_command(AppCommand::SelectSource(FeedSource::Feed(3)));
    assert!(matches!(e, CommandEffect::Nothing));
    assert_eq!(app.state.selected_feed_index, 2);
    app.apply_command(AppCommand::SelectSource(FeedSource::Favourites));
    assert_eq!(app.state.selected_source, FeedSource::Favourites);
    assert_eq!(app.state.selected_feed_index, 2);
    app.apply_command(AppCommand::SelectSource(FeedSource::Feed(99)));
    assert_eq!(app.state.selected_feed_index, 2);
}

#[test]
fn opening_an_article() {
    let mut app = fixture();
    app.apply_command(AppCommand::OpenFeed(1));
    assert_eq!(app.current_screen, Screens::ViewFeed);
    assert_eq!(app.state.selected_feed_item_id.as_deref(), Some("b"));
    app.apply_command(AppCommand::SelectSource(FeedSource::Favourites));
    app.apply_command(AppCommand::OpenFeed(0));
    assert_eq!(app.state.selected_feed_item_id.as_deref(), Some("c"));
    app.apply_command(AppCommand::OpenFeed(5));
    assert_eq!(app.state.selected_feed_item_id, None);
}

#[test]
fn commands_hand_back_their_work() {
    let mut app = fixture();
    assert!(matches!(app.apply_command(AppCommand::StartBackgroundSync), CommandEffect::StartSync));
    match app.apply_command(AppCommand::ToggleFeedItemFavourite(String::from("a"))) {
        CommandEffect::ToggleFavourite(id) => assert_eq!(id, "a"),
        _ => panic!("expected a toggle"),
    }
    assert!(matches!(app.apply_command(AppCommand::DeleteSelectedFeed), CommandEffect::DeleteFeed(1)));
    app.apply_command(AppCommand::OpenAddFeedPopup);
    assert_eq!(app.state.overlay, Overlay::AddFeedPopup);
    app.apply_command(AppCommand::CloseAddFeedPopup);
    assert_eq!(app.state.overlay, Overlay::Empty);
    app.apply_command(AppCommand::Navigate(Screens::TestHtml, None));
    assert_eq!(app.current_screen, Screens::TestHtml);
    app.apply_command(AppCommand::Quit);
    assert!(app.should_quit);
}

#[test]
fn favourite_mark_goes_and_comes_back() {
    let mut app = fixture();
    let before = app.state.favourites.clone();
    app.state.favourite_toggled(&String::from("a"), true);
    assert_eq!(app.state.favourites, vec!["c", "a"]);
    assert!(app.state.feed_items[0].1.items[0].is_favourite);
    app.state.favourite_toggled(&String::from("a"), false);
    assert_eq!(app.state.favourites, before);
    assert!(!app.state.feed_items[0].1.items[0].is_favourite);
}

#[test]
fn favourite_of_another_feed_changes_nothing() {
    let mut app = fixture();
    app.state.favourite_toggled(&String::from("c"), false);
    assert_eq!(app.state.favourites, vec!["c"]);
}

#[test]
fn deleting_the_selected_feed() {
    let mut app = fixture();
    app.apply_command(AppCommand::SelectSource(FeedSource::Feed(3)));
    app.state.feed_deleted();
    let ids: Vec<i32> = app.state.feeds.iter().map(|f| f.id).collect();
    assert_eq!(ids, vec![1, 2]);
    assert_eq!(app.state.selected_feed_index, 0);
    assert!(collection_position(&app.state.feed_items, 3).is_none());
}

#[test]
fn adding_a_feed_puts_it_first() {
    let mut app = fixture();
    app.state.feed_added(feed(7, "New"), FeedItemCollection::from_items(vec![item("z", 7)]));
    assert_eq!(app.state.feeds[0].id, 7);
    assert_eq!(feed_position(&app.state.feeds, 3), Some(3));
    let k = collection_position(&app.state.feed_items, 7).unwrap();
    assert_eq!(app.state.feed_items[k].1.items[0].id, "z");
}

#[test]
fn background_events() {
    let mut app = fixture();
    assert!(matches!(app.apply_event(AppEvent::BackgroundSyncStarted), EventEffect::Nothing));
    assert!(app.state.background_syncing);
    app.apply_event(AppEvent::FeedsUpdated(vec![1]));
    assert!(!app.state.background_syncing);
    match app.apply_event(AppEvent::FeedAdded(feed(9, "X"))) {
        EventEffect::LoadFeedItems(f) => assert_eq!(f.id, 9),
        _ => panic!("expected a load"),
    }
    match app.apply_event(AppEvent::FeedAddFailed(String::from("bad"))) {
        EventEffect::Report(m) => assert_eq!(m, "bad"),
        _ => panic!("expected a report"),
    }
}

#[test]
fn keys_the_application_keeps() {
    let mut app = fixture();
    assert_eq!(app.route_event(&key(KeyCode::Char('x'))), Route::Screen);
    assert_eq!(app.route_event(&key(KeyCode::Char('t'))), Route::Handled);
    assert_eq!(app.state.overlay, Overlay::ThemeSelector);
    assert_eq!(app.route_event(&key(KeyCode::Esc)), Route::ThemeSelector);
    assert!(!app.should_quit);
    app.state.overlay = Overlay::Empty;
    assert_eq!(app.route_event(&key(KeyCode::Esc)), Route::Handled);
    assert!(app.should_quit);
}

#[test]
fn theme_selector_moves_round_the_list() {
    let mut app = fixture();
    let names = app.config.theme_names();
    assert_eq!(names, vec!["Dark", "Light"]);
    app.state.overlay = Overlay::ThemeSelector;
    assert_eq!(app.theme_selector_input(&key(KeyCode::Down), &names), None);
    assert_eq!(app.config.current_theme_name, "Light");
    assert_eq!(app.config.current_theme, light_theme());
    app.theme_selector_input(&key(KeyCode::Char('j')), &names);
    assert_eq!(app.config.current_theme_name, "Dark");
    app.theme_selector_input(&key(KeyCode::Up), &names);
    assert_eq!(app.config.current_theme_name, "Light");
    app.theme_selector_input(&key(KeyCode::Char('k')), &names);
    assert_eq!(app.config.current_theme_name, "Dark");
    assert_eq!(app.config.current_theme, dark_theme());
    let saved = app.theme_selector_input(&key(KeyCode::Enter), &names);
    assert_eq!(saved.as_deref(), Some("Dark"));
    assert_eq!(app.state.overlay, Overlay::Empty);
}

#[test]
fn unknown_theme_falls_back_to_dark() {
    let settings = Settings { theme: String::from("Solar"), background_sync: true };
    let mut config = AppConfig::new(settings, Theme::get_all());
    assert_eq!(config.current_theme, dark_theme());
    assert!(config.background_sync);
    config.current_theme_name = String::from("Light");
    config.update_theme();
    assert_eq!(config.current_theme, light_theme());
    config.set_theme(dark_theme());
    assert_eq!(config.current_theme, dark_theme());
}

#[test]
fn text_lists_keep_each_id_once() {
    let mut v: Vec<String> = Vec::new();
    add_text(&mut v, String::from("a"));
    add_text(&mut v, String::from("b"));
    add_text(&mut v, String::from("a"));
    assert_eq!(v, vec!["a", "b"]);
    assert_eq!(position_of(&v, &String::from("b")), Some(1));
    remove_text(&mut v, &String::from("a"));
    assert_eq!(v, vec!["b"]);
    assert_eq!(position_of(&v, &String::from("a")), None);
}

#[test]
fn selecting_a_source_twice_is_selecting_it_once() {
    let mut once = fixture();
    once.apply_command(AppCommand::SelectSource(FeedSource::Feed(3)));
    let mut twice = fixture();
    twice.apply_command(AppCommand::SelectSource(FeedSource::Feed(3)));
    twice.apply_command(AppCommand::SelectSource(FeedSource::Feed(3)));
    assert_eq!(once.state.selected_feed_index, twice.state.selected_feed_index);
    assert_eq!(once.state.selected_source, twice.state.selected_source);
}

#[test]
fn adding_a_known_feed_replaces_its_articles() {
    let mut app = fixture();
    app.state.feed_added(feed(3, "News again"), FeedItemCollection::from_items(vec![item("n", 3)]));
    assert_eq!(app.state.feed_items.len(), 3);
    let k = collection_position(&app.state.feed_items, 3).unwrap();
    assert_eq!(app.state.feed_items[k].1.items.len(), 1);
    assert_eq!(app.state.feed_items[k].1.items[0].id, "n");
    assert_eq!(app.state.feeds.len(), 4);
}

#[test]
fn toggling_keeps_favourites_distinct() {
    let mut app = fixture();
    app.state.favourite_toggled(&String::from("a"), true);
    app.state.favourite_toggled(&String::from("a"), true);
    assert_eq!(app.state.favourites, vec!["c", "a"]);
}

#[test]
fn theme_selector_takes_the_first_of_repeated_names() {
    let mut app = fixture();
    let names = vec![String::from("Dark"), String::from("Light"), String::from("Dark")];
    app.state.overlay = Overlay::ThemeSelector;
    app.theme_selector_input(&key(KeyCode::Down), &names);
    assert_eq!(app.config.current_theme_name, "Light");
    app.config.current_theme_name = String::from("Dark");
    app.theme_selector_input(&key(KeyCode::Up), &names);
    assert_eq!(app.config.current_theme_name, "Dark");
    assert_eq!(app.config.current_theme, dark_theme());
    app.theme_selector_input(&key(KeyCode::Char('k')), &names);
    assert_eq!(app.config.current_theme_name, "Dark");
    app.theme_selector_input(&key(KeyCode::Char('j')), &names);
    assert_eq!(app.config.current_theme_name, "Light");
    app.theme_selector_input(&key(KeyCode::Char('j')), &names);
    assert_eq!(app.config.current_theme_name, "Dark");
    assert_eq!(app.theme_selector_input(&key(KeyCode::Esc), &names), None);
    assert_eq!(app.state.overlay, Overlay::Empty);
    assert_eq!(app.config.current_theme_name, "Dark");
}

#[test]
fn first_run_without_feeds() {
    let config = AppConfig::new(Settings::defaults(), Theme::get_all());
    let app = App::new(Vec::new(), Vec::new(), Vec::new(), config);
    assert!(app.state.feeds.is_empty());
    assert_eq!(app.state.selected_feed_index, 0);
    assert_eq!(app.state.selected_source, FeedSource::Feed(0));
    assert_eq!(app.current_screen, Screens::Home);
    assert_eq!(trss::home::source_heading(&app.state), (String::new(), String::new()));
}

#[test]
fn drained_commands_and_events_leave_the_last_word() {
    let mut app = fixture();
    app.apply_command(AppCommand::OpenAddFeedPopup);
    app.apply_command(AppCommand::CloseAddFeedPopup);
    app.apply_command(AppCommand::OpenAddFeedPopup);
    assert_eq!(app.state.overlay, Overlay::AddFeedPopup);
    app.apply_event(AppEvent::BackgroundSyncStarted);
    app.apply_event(AppEvent::FeedsUpdated(vec![1]));
    assert!(!app.state.background_syncing);
    app.apply_event(AppEvent::BackgroundSyncStarted);
    assert!(app.state.background_syncing);
    assert_eq!(app.state.overlay, Overlay::AddFeedPopup);
}

#[test]
fn theme_names_all_have_themes() {
    let app = fixture();
    for n in app.config.theme_names() {
        assert!(app.config.themes.get(&n).is_some());
    }
}
