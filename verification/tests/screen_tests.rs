use trss::app::{App, AppCommand, AppConfig, AppState, Screens};
use trss::event::{Event, KeyCode, KeyEvent, KeyEventKind};
use trss::feed::{Feed, FeedSource};
use trss::feed_item::{FeedItem, FeedItemCollection};
use trss::home::{
    filtered_feeds_of, navigation_index, source_heading, source_items_of, FocusedWidget, Home,
    HomeAction,
};
use trss::settings::Settings;
use trss::theme::Theme;
use trss::view_feed::{find_article, TestHtml, ViewFeed};

fn item(id: &str, feed_id: i32, content: Option<&str>) -> FeedItem {
    FeedItem {
        id: String::from(id),
        feed_id,
        link: String::new(),
        title: format!("Title {}", id),
        summary: String::new(),
        content: content.map(String::from),
        is_favourite: false,
        in_readlist: false,
    }
}

fn feed(id: i32, title: &str) -> Feed {
    Feed::new(id, String::from(title), format!("{} news", title), String::new(), 0)
}

fn app() -> App {
    let feeds = vec![feed(1, "Rust Blog"), feed(2, "FAVOURITES"), feed(3, "News"), feed(4, "ReadList")];
    let collections = vec![
        FeedItemCollection::from_items(vec![
            item("a", 1, Some("<p>Alpha</p>")),
            item("b", 1, None),
            item("t", 1, Some("<table></table>")),
        ]),
        FeedItemCollection::new(),
        FeedItemCollection::from_items(vec![item("c", 3, Some("<p>Gamma</p>"))]),
        FeedItemCollection::new(),
    ];
    let config = AppConfig::new(Settings::defaults(), Theme::get_all());
    App::new(feeds, collections, vec![String::from("c"), String::from("a")], config)
}

fn key(code: KeyCode) -> Event {
    Event::Key(KeyEvent::press(code))
}

fn ctrl(code: KeyCode) -> Event {
    Event::Key(KeyEvent { code, kind: KeyEventKind::Press, control: true, shift: false })
}

fn ids(feeds: &[Feed]) -> Vec<i32> {
    feeds.iter().map(|f| f.id).collect()
}

fn commands(actions: Vec<HomeAction>) -> Vec<String> {
    actions
        .into_iter()
        .map(|a| match a {
            HomeAction::Command(c) => format!("{:?}", c),
            HomeAction::AddFeed { title, url } => format!("add {} {}", title, url),
        })
        .collect()
}

#[test]
fn home_lists_ordinary_feeds() {
    let a = app();
    let h = Home::new(&a.state.feeds);
    assert_eq!(ids(&h.state.filtered_feeds), vec![1, 3]);
    assert!(h.show_sidebar);
    assert_eq!(h.state.focused_widget, FocusedWidget::FeedList);
    assert_eq!(h.state.selected_feed_item_index, None);
}

#[test]
fn sidebar_lists_by_source_and_search() {
    let a = app();
    let feeds = &a.state.feeds;
    assert_eq!(ids(&filtered_feeds_of(feeds, FeedSource::Favourites, &String::new())), vec![2]);
    assert_eq!(ids(&filtered_feeds_of(feeds, FeedSource::Readlist, &String::new())), vec![4]);
    assert_eq!(ids(&filtered_feeds_of(feeds, FeedSource::Feed(1), &String::from("NEW"))), vec![3]);
    assert_eq!(ids(&filtered_feeds_of(feeds, FeedSource::Feed(1), &String::from("zz"))), Vec::<i32>::new());
}

#[test]
fn search_field_takes_typing() {
    let a = app();
    let mut h = Home::new(&a.state.feeds);
    assert!(h.handle_input(&key(KeyCode::Char('/')), &a.state).is_empty());
    assert_eq!(h.state.focused_widget, FocusedWidget::Search);
    h.handle_input(&key(KeyCode::Char('r')), &a.state);
    h.handle_input(&key(KeyCode::Char('u')), &a.state);
    assert_eq!(h.state.search_query, "ru");
    h.handle_input(&Event::Tick, &a.state);
    assert_eq!(ids(&h.state.filtered_feeds), vec![1]);
    h.handle_input(&key(KeyCode::Char('x')), &a.state);
    h.handle_input(&key(KeyCode::Backspace), &a.state);
    assert_eq!(h.state.search_query, "ru");
    h.handle_input(&ctrl(KeyCode::Backspace), &a.state);
    assert_eq!(h.state.search_query, "");
    h.handle_input(&key(KeyCode::Char('/')), &a.state);
    assert_eq!(h.state.focused_widget, FocusedWidget::FeedList);
}

#[test]
fn moving_in_the_sidebar_selects_feeds() {
    let a = app();
    let mut h = Home::new(&a.state.feeds);
    assert_eq!(commands(h.handle_input(&key(KeyCode::Down), &a.state)), vec!["SelectSource(Feed(3))"]);
    assert_eq!(commands(h.handle_input(&key(KeyCode::Char('k')), &a.state)), vec!["SelectSource(Feed(3))"]);
    assert_eq!(commands(h.handle_input(&key(KeyCode::Char('d')), &a.state)), vec!["DeleteSelectedFeed"]);
    assert_eq!(commands(h.handle_input(&key(KeyCode::Char('r')), &a.state)), vec!["StartBackgroundSync"]);
}

#[test]
fn moving_in_the_article_list() {
    let a = app();
    let mut h = Home::new(&a.state.feeds);
    h.handle_input(&key(KeyCode::Enter), &a.state);
    assert_eq!(h.state.focused_widget, FocusedWidget::FeedItems);
    assert!(h.handle_input(&key(KeyCode::Enter), &a.state).is_empty());
    h.handle_input(&key(KeyCode::Down), &a.state);
    assert_eq!(h.state.selected_feed_item_index, Some(0));
    h.handle_input(&key(KeyCode::Char('j')), &a.state);
    assert_eq!(h.state.selected_feed_item_index, Some(1));
    h.handle_input(&key(KeyCode::Up), &a.state);
    h.handle_input(&key(KeyCode::Up), &a.state);
    assert_eq!(h.state.selected_feed_item_index, Some(2));
    assert_eq!(commands(h.handle_input(&key(KeyCode::Enter), &a.state)), vec!["OpenFeed(2)"]);
    h.handle_input(&key(KeyCode::Char('h')), &a.state);
    assert_eq!(h.state.focused_widget, FocusedWidget::FeedList);
}

#[test]
fn categories_go_round() {
    let a = app();
    let mut h = Home::new(&a.state.feeds);
    h.handle_input(&key(KeyCode::Char('n')), &a.state);
    assert_eq!(h.state.focused_widget, FocusedWidget::Categories);
    assert_eq!(commands(h.handle_input(&key(KeyCode::Down), &a.state)), vec!["SelectSource(Favourites)"]);
    assert_eq!(commands(h.handle_input(&key(KeyCode::Up), &a.state)), vec!["SelectSource(Readlist)"]);
    h.handle_input(&key(KeyCode::Char('n')), &a.state);
    assert_eq!(h.state.focused_widget, FocusedWidget::FeedList);
}

#[test]
fn sidebar_toggles_with_control_b() {
    let a = app();
    let mut h = Home::new(&a.state.feeds);
    h.handle_input(&key(KeyCode::Char('b')), &a.state);
    assert!(h.show_sidebar);
    h.handle_input(&ctrl(KeyCode::Char('b')), &a.state);
    assert!(!h.show_sidebar);
    assert_eq!(h.state.focused_widget, FocusedWidget::FeedItems);
    h.handle_input(&ctrl(KeyCode::Char('b')), &a.state);
    assert!(h.show_sidebar);
    assert_eq!(h.state.focused_widget, FocusedWidget::FeedList);
    h.handle_input(&ctrl(KeyCode::Right), &a.state);
    assert_eq!(h.state.focused_widget, FocusedWidget::FeedItems);
}

#[test]
fn add_feed_form() {
    let a = app();
    let mut h = Home::new(&a.state.feeds);
    assert_eq!(commands(h.handle_input(&key(KeyCode::Char('a')), &a.state)), vec!["OpenAddFeedPopup"]);
    assert_eq!(h.state.focused_widget, FocusedWidget::AddFeed);
    for c in "Blogx".chars() {
        h.handle_input(&key(KeyCode::Char(c)), &a.state);
    }
    h.handle_input(&key(KeyCode::Backspace), &a.state);
    h.handle_input(&key(KeyCode::Tab), &a.state);
    for c in "u.rs".chars() {
        h.handle_input(&key(KeyCode::Char(c)), &a.state);
    }
    assert_eq!(h.state.new_feed_title, "Blog");
    assert_eq!(h.state.new_feed_url, "u.rs");
    assert!(h.handle_input(&key(KeyCode::Enter), &a.state).is_empty());
    h.handle_input(&key(KeyCode::BackTab), &a.state);
    h.handle_input(&key(KeyCode::BackTab), &a.state);
    assert_eq!(h.state.add_feed_index, 2);
    h.handle_input(&key(KeyCode::Char('z')), &a.state);
    assert_eq!(
        commands(h.handle_input(&key(KeyCode::Enter), &a.state)),
        vec!["add Blog u.rs", "CloseAddFeedPopup", "SelectSource(Feed(0))"]
    );
    assert_eq!(h.state.focused_widget, FocusedWidget::FeedList);
    assert_eq!(h.state.new_feed_title, "");
    assert_eq!(h.state.add_feed_index, 0);
}

#[test]
fn add_feed_form_tab_goes_round_and_esc_closes() {
    let a = app();
    let mut h = Home::new(&a.state.feeds);
    h.handle_input(&key(KeyCode::Char('a')), &a.state);
    h.handle_input(&key(KeyCode::Tab), &a.state);
    h.handle_input(&key(KeyCode::Tab), &a.state);
    h.handle_input(&key(KeyCode::Tab), &a.state);
    assert_eq!(h.state.add_feed_index, 0);
    h.handle_input(&key(KeyCode::Char('q')), &a.state);
    assert_eq!(commands(h.handle_input(&key(KeyCode::Esc), &a.state)), vec!["CloseAddFeedPopup"]);
    assert_eq!(h.state.new_feed_title, "");
    assert_eq!(h.state.focused_widget, FocusedWidget::FeedList);
}

#[test]
fn keys_that_cannot_be_handled_are_refused() {
    let mut a = app();
    a.state.selected_feed_index = 1;
    a.state.feed_items.remove(1);
    let mut h = Home::new(&a.state.feeds);
    h.state.focused_widget = FocusedWidget::FeedItems;
    assert!(!h.accepts(&key(KeyCode::Up), &a.state));
    assert!(h.try_handle_input(&key(KeyCode::Up), &a.state).is_none());
    assert_eq!(h.state.selected_feed_item_index, None);
    assert!(h.try_handle_input(&key(KeyCode::Char('r')), &a.state).is_some());
    a.state.selected_feed_index = 9;
    h.state.focused_widget = FocusedWidget::FeedList;
    assert!(!h.accepts(&key(KeyCode::Up), &a.state));
    assert!(h.accepts(&key(KeyCode::Down), &a.state));
}

#[test]
fn article_list_of_each_source() {
    let mut a = app();
    let titles = |s: &AppState| source_items_of(s).into_iter().map(|i| i.id).collect::<Vec<_>>();
    assert_eq!(titles(&a.state), vec!["a", "b", "t"]);
    assert_eq!(source_heading(&a.state), (String::from("Rust Blog"), String::from("Rust Blog news")));
    a.apply_command(AppCommand::SelectSource(FeedSource::Favourites));
    assert_eq!(titles(&a.state), vec!["a", "c"]);
    assert_eq!(source_heading(&a.state).0, "Favourites");
    assert_eq!(navigation_index(a.state.selected_source), 1);
    a.apply_command(AppCommand::SelectSource(FeedSource::Readlist));
    assert!(titles(&a.state).is_empty());
    assert_eq!(source_heading(&a.state).1, "All your articles from readlist");
}

#[test]
fn article_screen_follows_the_selection() {
    let mut a = app();
    let mut v = ViewFeed::new();
    assert!(v.handle_input(&Event::Tick, &a.state).is_none());
    assert!(v.last_feed_id.is_none());
    assert!(!v.accepts(&key(KeyCode::Char('f')), &a.state));
    a.apply_command(AppCommand::OpenFeed(0));
    assert!(v.handle_input(&key(KeyCode::Char('j')), &a.state).is_none());
    assert_eq!(v.last_feed_id.as_deref(), Some("a"));
    assert_eq!(v.content_list.paragraphs.len(), 1);
    assert_eq!(v.content_list.scroll(), 1);
    v.handle_input(&key(KeyCode::Char('k')), &a.state);
    v.handle_input(&key(KeyCode::Char('k')), &a.state);
    assert_eq!(v.content_list.scroll(), 0);
    match v.handle_input(&key(KeyCode::F(1)), &a.state) {
        Some(AppCommand::ToggleFeedItemFavourite(id)) => assert_eq!(id, "a"),
        other => panic!("unexpected {:?}", other),
    }
    assert!(matches!(
        v.handle_input(&key(KeyCode::Char('s')), &a.state),
        Some(AppCommand::Navigate(Screens::Home, None))
    ));
    v.reset();
    assert!(v.last_feed_id.is_none());
    assert!(v.content_list.paragraphs.is_empty());
}

#[test]
fn article_without_content_shows_nothing() {
    let mut a = app();
    a.apply_command(AppCommand::OpenFeed(1));
    let mut v = ViewFeed::new();
    v.sync_with_state(&a.state);
    assert_eq!(v.last_feed_id.as_deref(), Some("b"));
    assert!(v.content_list.paragraphs.is_empty());
}

#[test]
fn article_that_cannot_be_rendered_is_refused() {
    let mut a = app();
    a.apply_command(AppCommand::OpenFeed(2));
    let mut v = ViewFeed::new();
    assert!(!v.accepts(&Event::Tick, &a.state));
    assert!(v.try_handle_input(&Event::Tick, &a.state).is_none());
    assert!(v.last_feed_id.is_none());
}

#[test]
fn article_is_found_in_the_first_feed_holding_it() {
    let a = app();
    assert_eq!(find_article(&a.state.feed_items, &String::from("c")).unwrap().feed_id, 3);
    assert!(find_article(&a.state.feed_items, &String::from("zz")).is_none());
}

#[test]
fn html_screen_keys() {
    let mut t = TestHtml::new().unwrap();
    assert!(t.handle_input(&key(KeyCode::Down)).is_none());
    assert_eq!(t.list.scroll(), 1);
    t.reset();
    assert_eq!(t.list.scroll(), 0);
    assert!(matches!(t.handle_input(&key(KeyCode::Esc)), Some(AppCommand::Quit)));
    assert!(matches!(
        t.handle_input(&key(KeyCode::Char('h'))),
        Some(AppCommand::Navigate(Screens::Home, None))
    ));
}

#[test]
fn article_already_shown_is_not_loaded_again() {
    let mut a = app();
    a.apply_command(AppCommand::OpenFeed(0));
    let mut v = ViewFeed::new();
    v.handle_input(&key(KeyCode::Down), &a.state);
    v.handle_input(&key(KeyCode::Down), &a.state);
    v.sync_with_state(&a.state);
    assert_eq!(v.content_list.scroll(), 2);
    a.apply_command(AppCommand::SelectSource(FeedSource::Feed(3)));
    a.apply_command(AppCommand::OpenFeed(0));
    v.sync_with_state(&a.state);
    assert_eq!(v.last_feed_id.as_deref(), Some("c"));
    assert_eq!(v.content_list.scroll(), 0);
}

#[test]
fn sidebar_lists_part_the_feeds() {
    let a = app();
    let feeds = &a.state.feeds;
    let none = String::new();
    let ordinary = ids(&filtered_feeds_of(feeds, FeedSource::Feed(3), &none));
    let favourites = ids(&filtered_feeds_of(feeds, FeedSource::Favourites, &none));
    let readlist = ids(&filtered_feeds_of(feeds, FeedSource::Readlist, &none));
    assert_eq!(ordinary, vec![1, 3]);
    assert_eq!(favourites, vec![2]);
    assert_eq!(readlist, vec![4]);
    let mut all: Vec<i32> = ordinary.iter().chain(favourites.iter()).chain(readlist.iter()).copied().collect();
    all.sort();
    assert_eq!(all, ids(feeds));
    let searched = String::from("s");
    assert_eq!(ids(&filtered_feeds_of(feeds, FeedSource::Feed(1), &searched)), vec![1, 3]);
    assert_eq!(ids(&filtered_feeds_of(feeds, FeedSource::Favourites, &searched)), vec![2]);
    assert_eq!(ids(&filtered_feeds_of(feeds, FeedSource::Readlist, &searched)), vec![4]);
}

#[test]
fn opening_from_favourites_takes_the_listed_article() {
    let mut a = app();
    a.apply_command(AppCommand::SelectSource(FeedSource::Favourites));
    let listed: Vec<String> = source_items_of(&a.state).iter().map(|i| i.id.clone()).collect();
    assert_eq!(listed, vec!["a", "c"]);
    a.apply_command(AppCommand::OpenFeed(0));
    assert_eq!(a.state.selected_feed_item_id.as_deref(), Some("a"));
    a.apply_command(AppCommand::OpenFeed(1));
    assert_eq!(a.state.selected_feed_item_id.as_deref(), Some("c"));
    a.apply_command(AppCommand::OpenFeed(2));
    assert_eq!(a.state.selected_feed_item_id, None);
}
