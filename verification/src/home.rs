//! The home screen: the sidebar of feeds, the article list, the search field
//! and the form that adds a feed, and how keys move between them.

use vstd::prelude::*;
use crate::app::{AppCommand, AppState, CollectionsModel, StateModel, collection_pos, collection_position, collections_view, contains_text};
use crate::feed_item::{FeedItem, FeedItemModel, items_view};
use crate::text::views;
use crate::event::{Event, KeyCode, KeyEvent, KeyEventKind};
use crate::feed::{Feed, FeedModel, FeedSource, feeds_view};
use crate::text::{contains, contains_str, lowercase, pop_char, push_char, same_text, to_lowercase};

verus! {

/// The part of the home screen that takes the keys.
#[derive(Clone, Copy, Debug, PartialEq, Eq, Structural)]
pub enum FocusedWidget {
    Search,
    Categories,
    FeedList,
    FeedItems,
    AddFeed,
}

/// What the home screen shows and edits: the selected article, the focused
/// part, the feeds listed in the sidebar, the search text, the fields of the
/// add-feed form and which of its three places (title, address, button) is
/// active.
#[derive(Clone, Debug)]
pub struct HomeState {
    pub selected_feed_item_index: Option<usize>,
    pub focused_widget: FocusedWidget,
    pub filtered_feeds: Vec<Feed>,
    pub search_query: String,
    pub new_feed_title: String,
    pub new_feed_url: String,
    pub add_feed_index: usize,
}

/// The home screen: whether the sidebar shows, and its state.
#[derive(Debug)]
pub struct Home {
    pub show_sidebar: bool,
    pub state: HomeState,
}

/// The home screen's state as a mathematical value.
pub struct HomeStateModel {
    pub selected_feed_item_index: Option<usize>,
    pub focused_widget: FocusedWidget,
    pub filtered_feeds: Seq<FeedModel>,
    pub search_query: Seq<char>,
    pub new_feed_title: Seq<char>,
    pub new_feed_url: Seq<char>,
    pub add_feed_index: usize,
}

/// The home screen as a mathematical value.
pub struct HomeModel {
    pub show_sidebar: bool,
    pub state: HomeStateModel,
}

impl View for HomeState {
    type V = HomeStateModel;

    open spec fn view(&self) -> HomeStateModel {
        HomeStateModel {
            selected_feed_item_index: self.selected_feed_item_index,
            focused_widget: self.focused_widget,
            filtered_feeds: feeds_view(self.filtered_feeds@),
            search_query: self.search_query@,
            new_feed_title: self.new_feed_title@,
            new_feed_url: self.new_feed_url@,
            add_feed_index: self.add_feed_index,
        }
    }
}

impl View for Home {
    type V = HomeModel;

    open spec fn view(&self) -> HomeModel {
        HomeModel { show_sidebar: self.show_sidebar, state: self.state@ }
    }
}

/// Whether the lower-case title of `f` is `name`.
pub open spec fn named(f: FeedModel, name: Seq<char>) -> bool {
    lowercase(f.title) == name
}

/// Whether `f` is an ordinary feed, not the one that stands for the
/// favourites or for the reading list.
pub open spec fn is_regular(f: FeedModel) -> bool {
    !named(f, "favourites"@) && !named(f, "readlist"@)
}

/// Whether the sidebar lists `f` while `src` is selected.
pub open spec fn shown_for(src: FeedSource, f: FeedModel) -> bool {
    match src {
        FeedSource::Feed(_) => is_regular(f),
        FeedSource::Favourites => named(f, "favourites"@),
        FeedSource::Readlist => named(f, "readlist"@),
    }
}

/// The feeds of `s` that the sidebar lists while `src` is selected, in order.
pub open spec fn keep_shown(s: Seq<FeedModel>, src: FeedSource) -> Seq<FeedModel>
    decreases s.len(),
{
    if s.len() == 0 {
        s
    } else if shown_for(src, s.last()) {
        keep_shown(s.drop_last(), src).push(s.last())
    } else {
        keep_shown(s.drop_last(), src)
    }
}

/// The feeds of `s` whose lower-case title holds `q`, in order.
pub open spec fn keep_matching(s: Seq<FeedModel>, q: Seq<char>) -> Seq<FeedModel>
    decreases s.len(),
{
    if s.len() == 0 {
        s
    } else if contains(lowercase(s.last().title), q) {
        keep_matching(s.drop_last(), q).push(s.last())
    } else {
        keep_matching(s.drop_last(), q)
    }
}

/// The feeds that the sidebar lists: those of `src`, and, where there is a
/// search text, of those the ones whose title holds it, ignoring case.
pub open spec fn filtered(feeds: Seq<FeedModel>, src: FeedSource, query: Seq<char>) -> Seq<FeedModel> {
    let base = keep_shown(feeds, src);
    if query.len() == 0 {
        base
    } else {
        keep_matching(base, lowercase(query))
    }
}

/// Whether the sidebar lists the feed `f` while `src` is selected.
fn is_shown(f: &Feed, src: FeedSource) -> (b: bool)
    ensures
        b == shown_for(src, f@),
{
    let t = to_lowercase(f.title.as_str());
    let favourites = same_text(t.as_str(), "favourites");
    let readlist = same_text(t.as_str(), "readlist");
    match src {
        FeedSource::Feed(_) => !favourites && !readlist,
        FeedSource::Favourites => favourites,
        FeedSource::Readlist => readlist,
    }
}

/// The feeds of `feeds` that the sidebar lists while `src` is selected.
pub fn shown_feeds(feeds: &Vec<Feed>, src: FeedSource) -> (r: Vec<Feed>)
    ensures
        feeds_view(r@) == keep_shown(feeds_view(feeds@), src),
{
    let ghost all = feeds_view(feeds@);
    let mut out: Vec<Feed> = Vec::new();
    let mut i: usize = 0;
    while i < feeds.len()
        invariant
            i <= feeds.len(),
            all == feeds_view(feeds@),
            feeds_view(out@) == keep_shown(all.take(i as int), src),
        decreases feeds.len() - i,
    {
        let ghost before = out@;
        proof {
            assert(all.take(i + 1).drop_last() =~= all.take(i as int));
            assert(all.take(i + 1).last() == feeds@[i as int]@);
        }
        if is_shown(&feeds[i], src) {
            out.push(feeds[i].duplicate());
            assert(feeds_view(out@) =~= feeds_view(before).push(feeds@[i as int]@));
        }
        i = i + 1;
    }
    assert(all.take(feeds.len() as int) =~= all);
    out
}

/// The feeds of `feeds` whose lower-case title holds `query_lower`.
pub fn matching_feeds(feeds: &Vec<Feed>, query_lower: &String) -> (r: Vec<Feed>)
    ensures
        feeds_view(r@) == keep_matching(feeds_view(feeds@), query_lower@),
{
    let ghost all = feeds_view(feeds@);
    let mut out: Vec<Feed> = Vec::new();
    let mut i: usize = 0;
    while i < feeds.len()
        invariant
            i <= feeds.len(),
            all == feeds_view(feeds@),
            feeds_view(out@) == keep_matching(all.take(i as int), query_lower@),
        decreases feeds.len() - i,
    {
        let ghost before = out@;
        proof {
            assert(all.take(i + 1).drop_last() =~= all.take(i as int));
            assert(all.take(i + 1).last() == feeds@[i as int]@);
        }
        let t = to_lowercase(feeds[i].title.as_str());
        if contains_str(t.as_str(), query_lower.as_str()) {
            out.push(feeds[i].duplicate());
            assert(feeds_view(out@) =~= feeds_view(before).push(feeds@[i as int]@));
        }
        i = i + 1;
    }
    assert(all.take(feeds.len() as int) =~= all);
    out
}

/// The feeds of `feeds` that the sidebar lists while `src` is selected and
/// `query` is typed in the search field.
pub fn filtered_feeds_of(feeds: &Vec<Feed>, src: FeedSource, query: &String) -> (r: Vec<Feed>)
    ensures
        feeds_view(r@) == filtered(feeds_view(feeds@), src, query@),
{
    let base = shown_feeds(feeds, src);
    if query.as_str().is_empty() {
        base
    } else {
        let query_lower = to_lowercase(query.as_str());
        matching_feeds(&base, &query_lower)
    }
}

impl Home {
    /// The home screen at start: the sidebar shows the ordinary feeds of
    /// `feeds`, the feed list has the keys, nothing is typed and no article
    /// is selected.
    pub fn new(feeds: &Vec<Feed>) -> (h: Home)
        ensures
            h@ == (HomeModel {
                show_sidebar: true,
                state: HomeStateModel {
                    selected_feed_item_index: None,
                    focused_widget: FocusedWidget::FeedList,
                    filtered_feeds: keep_shown(feeds_view(feeds@), FeedSource::Feed(0)),
                    search_query: Seq::empty(),
                    new_feed_title: Seq::empty(),
                    new_feed_url: Seq::empty(),
                    add_feed_index: 0,
                },
            }),
    {
        let state = HomeState {
            selected_feed_item_index: None,
            focused_widget: FocusedWidget::FeedList,
            filtered_feeds: shown_feeds(feeds, FeedSource::Feed(0)),
            search_query: String::new(),
            new_feed_title: String::new(),
            new_feed_url: String::new(),
            add_feed_index: 0,
        };
        Home { show_sidebar: true, state }
    }

    /// Lists in the sidebar the feeds of `feeds` that belong to
    /// `current_source` and, where a search text is typed, hold it in their
    /// title, ignoring case.
    pub fn filter_feeds(&mut self, feeds: &Vec<Feed>, current_source: &FeedSource)
        ensures
            final(self)@ == (HomeModel {
                state: HomeStateModel {
                    filtered_feeds: filtered(
                        feeds_view(feeds@),
                        *current_source,
                        old(self)@.state.search_query,
                    ),
                    ..old(self)@.state
                },
                ..old(self)@
            }),
    {
        self.state.filtered_feeds = filtered_feeds_of(feeds, *current_source, &self.state.search_query);
    }
}


/// What the home screen asks of the application after a key: a command, or
/// adding the feed with this title and address (which needs storage and the
/// network).
#[derive(Debug)]
pub enum HomeAction {
    Command(AppCommand),
    AddFeed { title: String, url: String },
}

/// A request of the home screen as a mathematical value.
pub enum ActionModel {
    Command(AppCommand),
    AddFeed { title: Seq<char>, url: Seq<char> },
}

impl View for HomeAction {
    type V = ActionModel;

    open spec fn view(&self) -> ActionModel {
        match *self {
            HomeAction::Command(c) => ActionModel::Command(c),
            HomeAction::AddFeed { title, url } => ActionModel::AddFeed { title: title@, url: url@ },
        }
    }
}

/// The views of a sequence of requests.
pub open spec fn actions_view(v: Seq<HomeAction>) -> Seq<ActionModel> {
    v.map_values(|a: HomeAction| a@)
}

/// No request.
pub open spec fn no_actions() -> Seq<ActionModel> {
    Seq::empty()
}

/// The one request of the command `c`.
pub open spec fn command(c: AppCommand) -> Seq<ActionModel> {
    seq![ActionModel::Command(c)]
}

/// `h` with the part `w` focused.
pub open spec fn focus(h: HomeModel, w: FocusedWidget) -> HomeModel {
    HomeModel { state: HomeStateModel { focused_widget: w, ..h.state }, ..h }
}

/// `h` with the search text `q`.
pub open spec fn with_query(h: HomeModel, q: Seq<char>) -> HomeModel {
    HomeModel { state: HomeStateModel { search_query: q, ..h.state }, ..h }
}

/// `h` with the article at `sel` selected.
pub open spec fn with_selection(h: HomeModel, sel: Option<usize>) -> HomeModel {
    HomeModel { state: HomeStateModel { selected_feed_item_index: sel, ..h.state }, ..h }
}

/// `h` with the place `i` of the add-feed form active.
pub open spec fn with_form_index(h: HomeModel, i: usize) -> HomeModel {
    HomeModel { state: HomeStateModel { add_feed_index: i, ..h.state }, ..h }
}

/// `h` with the title field `t` and the address field `u`.
pub open spec fn with_fields(h: HomeModel, t: Seq<char>, u: Seq<char>) -> HomeModel {
    HomeModel { state: HomeStateModel { new_feed_title: t, new_feed_url: u, ..h.state }, ..h }
}

/// `s` without its last character, if it has one.
pub open spec fn popped(s: Seq<char>) -> Seq<char> {
    if s.len() > 0 {
        s.drop_last()
    } else {
        s
    }
}

/// `h` with the add-feed form emptied and closed, the feed list focused.
pub open spec fn form_cleared(h: HomeModel) -> HomeModel {
    HomeModel {
        state: HomeStateModel {
            add_feed_index: 0,
            new_feed_title: Seq::empty(),
            new_feed_url: Seq::empty(),
            focused_widget: FocusedWidget::FeedList,
            ..h.state
        },
        ..h
    }
}

/// The feed list when the article list has the keys, and the other way round.
pub open spec fn toggled_list(w: FocusedWidget) -> FocusedWidget {
    if w == FocusedWidget::FeedList {
        FocusedWidget::FeedItems
    } else {
        FocusedWidget::FeedList
    }
}

/// `i + 1`, going round to 0 after the largest `usize`.
pub open spec fn wrapping_next(i: usize) -> int {
    if i == usize::MAX {
        0
    } else {
        i + 1
    }
}

/// Whether the selected feed exists and its articles are loaded.
pub open spec fn items_ready(st: StateModel) -> bool {
    st.selected_feed_index < st.feeds.len() && collection_pos(
        st.feed_items,
        st.feeds[st.selected_feed_index as int].id,
    ) is Some
}

/// The number of articles of the selected feed.
pub open spec fn selected_count(st: StateModel) -> int {
    st.feed_items[collection_pos(st.feed_items, st.feeds[st.selected_feed_index as int].id)->0].1.len() as int
}

/// The source after the current one: a feed, the favourites, the reading
/// list, then the first feed again.
pub open spec fn next_source(st: StateModel) -> FeedSource {
    match st.selected_source {
        FeedSource::Feed(_) => FeedSource::Favourites,
        FeedSource::Favourites => FeedSource::Readlist,
        FeedSource::Readlist => FeedSource::Feed(st.feeds[0].id),
    }
}

/// The source before the current one.
pub open spec fn prev_source(st: StateModel) -> FeedSource {
    match st.selected_source {
        FeedSource::Feed(_) => FeedSource::Readlist,
        FeedSource::Favourites => FeedSource::Feed(st.feeds[0].id),
        FeedSource::Readlist => FeedSource::Favourites,
    }
}

/// The home screen after the key `k` in the search field.
pub open spec fn search_key(h: HomeModel, k: KeyEvent) -> HomeModel {
    let q = h.state.search_query;
    match k.code {
        KeyCode::Char('/') => focus(h, FocusedWidget::FeedList),
        KeyCode::Backspace => with_query(
            h,
            if k.control {
                Seq::empty()
            } else {
                popped(q)
            },
        ),
        KeyCode::Char(c) => with_query(h, q.push(c)),
        _ => h,
    }
}

/// The home screen, and its requests, after the key `k` in the add-feed form.
pub open spec fn form_key(h: HomeModel, k: KeyEvent) -> (HomeModel, Seq<ActionModel>) {
    let s = h.state;
    let i = s.add_feed_index;
    match k.code {
        KeyCode::Esc => (form_cleared(h), command(AppCommand::CloseAddFeedPopup)),
        KeyCode::Enter => if i == 2 {
            (
                form_cleared(h),
                seq![
                    ActionModel::AddFeed { title: s.new_feed_title, url: s.new_feed_url },
                    ActionModel::Command(AppCommand::CloseAddFeedPopup),
                    ActionModel::Command(AppCommand::SelectSource(FeedSource::Feed(0))),
                ],
            )
        } else {
            (h, no_actions())
        },
        KeyCode::Tab => (
            with_form_index(
                h,
                if i + 1 > 2 {
                    0
                } else {
                    (i + 1) as usize
                },
            ),
            no_actions(),
        ),
        KeyCode::BackTab => (
            with_form_index(
                h,
                if i == 0 {
                    2
                } else {
                    (i - 1) as usize
                },
            ),
            no_actions(),
        ),
        KeyCode::Char(c) => (
            if i == 0 {
                with_fields(h, s.new_feed_title.push(c), s.new_feed_url)
            } else if i == 1 {
                with_fields(h, s.new_feed_title, s.new_feed_url.push(c))
            } else {
                h
            },
            no_actions(),
        ),
        KeyCode::Backspace => (
            if i == 0 {
                with_fields(h, popped(s.new_feed_title), s.new_feed_url)
            } else if i == 1 {
                with_fields(h, s.new_feed_title, popped(s.new_feed_url))
            } else {
                h
            },
            no_actions(),
        ),
        _ => (h, no_actions()),
    }
}

/// The home screen, and its requests, after moving down in the focused list.
pub open spec fn down_key(h: HomeModel, st: StateModel) -> (HomeModel, Seq<ActionModel>) {
    let s = h.state;
    match s.focused_widget {
        FocusedWidget::FeedList => if s.filtered_feeds.len() == 0 {
            (h, no_actions())
        } else {
            let i = wrapping_next(st.selected_feed_index) % (s.filtered_feeds.len() as int);
            (h, command(AppCommand::SelectSource(FeedSource::Feed(s.filtered_feeds[i].id))))
        },
        FocusedWidget::FeedItems => {
            let sel: usize = match s.selected_feed_item_index {
                Some(index) => if selected_count(st) == 0 {
                    0
                } else {
                    (wrapping_next(index) % selected_count(st)) as usize
                },
                None => 0,
            };
            (with_selection(h, Some(sel)), no_actions())
        },
        FocusedWidget::Categories => (h, command(AppCommand::SelectSource(next_source(st)))),
        _ => (h, no_actions()),
    }
}

/// The home screen, and its requests, after moving up in the focused list.
pub open spec fn up_key(h: HomeModel, st: StateModel) -> (HomeModel, Seq<ActionModel>) {
    let s = h.state;
    match s.focused_widget {
        FocusedWidget::Categories => (h, command(AppCommand::SelectSource(prev_source(st)))),
        FocusedWidget::FeedList => if s.filtered_feeds.len() == 0 {
            (h, no_actions())
        } else {
            let i = if st.selected_feed_index == 0 {
                s.filtered_feeds.len() - 1
            } else {
                st.selected_feed_index - 1
            };
            (h, command(AppCommand::SelectSource(FeedSource::Feed(s.filtered_feeds[i].id))))
        },
        FocusedWidget::FeedItems => {
            let n = selected_count(st);
            let sel: usize = if n == 0 {
                0
            } else {
                match s.selected_feed_item_index {
                    Some(index) => if index == 0 {
                        (n - 1) as usize
                    } else {
                        (index - 1) as usize
                    },
                    None => (n - 1) as usize,
                }
            };
            (with_selection(h, Some(sel)), no_actions())
        },
        _ => (h, no_actions()),
    }
}

/// The home screen, and its requests, after the key `k` while the sidebar,
/// the categories or the article list has the keys.
pub open spec fn nav_key(h: HomeModel, k: KeyEvent, st: StateModel) -> (HomeModel, Seq<ActionModel>) {
    let s = h.state;
    let w = s.focused_widget;
    match k.code {
        KeyCode::Enter => if w == FocusedWidget::FeedList {
            (focus(h, FocusedWidget::FeedItems), no_actions())
        } else if w == FocusedWidget::FeedItems && s.selected_feed_item_index is Some {
            (h, command(AppCommand::OpenFeed(s.selected_feed_item_index->0)))
        } else {
            (h, no_actions())
        },
        KeyCode::Char('d') => (
            h,
            if w == FocusedWidget::FeedList {
                command(AppCommand::DeleteSelectedFeed)
            } else {
                no_actions()
            },
        ),
        KeyCode::Char('r') => (h, command(AppCommand::StartBackgroundSync)),
        KeyCode::Char('a') => (focus(h, FocusedWidget::AddFeed), command(AppCommand::OpenAddFeedPopup)),
        KeyCode::Char('b') => if k.control {
            let shown = !h.show_sidebar;
            (
                HomeModel {
                    show_sidebar: shown,
                    state: HomeStateModel {
                        focused_widget: if shown {
                            FocusedWidget::FeedList
                        } else {
                            FocusedWidget::FeedItems
                        },
                        ..s
                    },
                },
                no_actions(),
            )
        } else {
            (h, no_actions())
        },
        KeyCode::Left | KeyCode::Right => (
            if k.control {
                focus(h, toggled_list(w))
            } else {
                h
            },
            no_actions(),
        ),
        KeyCode::Char('h') | KeyCode::Char('l') => (focus(h, toggled_list(w)), no_actions()),
        KeyCode::Char('n') => (
            focus(
                h,
                if w == FocusedWidget::Categories {
                    match st.selected_source {
                        FeedSource::Feed(_) => FocusedWidget::FeedList,
                        _ => FocusedWidget::FeedItems,
                    }
                } else {
                    FocusedWidget::Categories
                },
            ),
            no_actions(),
        ),
        KeyCode::Down | KeyCode::Char('j') => down_key(h, st),
        KeyCode::Up | KeyCode::Char('k') => up_key(h, st),
        KeyCode::Char('/') => (
            focus(
                h,
                if w == FocusedWidget::Search {
                    FocusedWidget::FeedList
                } else {
                    FocusedWidget::Search
                },
            ),
            no_actions(),
        ),
        _ => (h, no_actions()),
    }
}

/// `h` with the sidebar listing what it lists for the state `st`.
pub open spec fn refiltered(h: HomeModel, st: StateModel) -> HomeModel {
    HomeModel {
        state: HomeStateModel {
            filtered_feeds: filtered(st.feeds, st.selected_source, h.state.search_query),
            ..h.state
        },
        ..h
    }
}

/// Whether the key `k` can be handled: moving in the article list needs the
/// selected feed's articles, going round the categories to the first feed
/// needs a feed, and moving up in the sidebar from a selected position needs
/// the listed feed before it.
pub open spec fn key_ok(h: HomeModel, k: KeyEvent, st: StateModel) -> bool {
    let s = h.state;
    let w = s.focused_widget;
    let down = k.code == KeyCode::Down || k.code == KeyCode::Char('j');
    let up = k.code == KeyCode::Up || k.code == KeyCode::Char('k');
    (k.kind == KeyEventKind::Press && w != FocusedWidget::Search && w != FocusedWidget::AddFeed) ==> {
        &&& (down && w == FocusedWidget::FeedItems && s.selected_feed_item_index is Some) ==> items_ready(st)
        &&& (up && w == FocusedWidget::FeedItems) ==> items_ready(st)
        &&& (down && w == FocusedWidget::Categories && st.selected_source == FeedSource::Readlist) ==> st.feeds.len() > 0
        &&& (up && w == FocusedWidget::Categories && st.selected_source == FeedSource::Favourites) ==> st.feeds.len() > 0
        &&& (up && w == FocusedWidget::FeedList && s.filtered_feeds.len() > 0 && st.selected_feed_index > 0)
            ==> st.selected_feed_index - 1 < s.filtered_feeds.len()
    }
}

/// Whether the home screen can handle `ev` in the state `st`.
pub open spec fn input_ok(h: HomeModel, ev: Event, st: StateModel) -> bool {
    ev matches Event::Key(k) ==> key_ok(refiltered(h, st), k, st)
}

/// The home screen, and its requests in order, after the event `ev` in the
/// state `st`: the sidebar is listed anew first, then a key press goes to
/// the search field, the add-feed form or the lists, whichever has the keys.
pub open spec fn home_step(h: HomeModel, ev: Event, st: StateModel) -> (HomeModel, Seq<ActionModel>) {
    let h0 = refiltered(h, st);
    match ev {
        Event::Key(k) => if k.kind == KeyEventKind::Press {
            if h0.state.focused_widget == FocusedWidget::Search {
                (search_key(h0, k), no_actions())
            } else if h0.state.focused_widget == FocusedWidget::AddFeed {
                form_key(h0, k)
            } else {
                nav_key(h0, k, st)
            }
        } else {
            (h0, no_actions())
        },
        _ => (h0, no_actions()),
    }
}


/// The one request of the command `c`.
fn one_command(c: AppCommand) -> (r: Vec<HomeAction>)
    ensures
        actions_view(r@) == command(c),
{
    let mut r: Vec<HomeAction> = Vec::new();
    r.push(HomeAction::Command(c));
    r
}

/// The number of articles of the selected feed.
fn selected_item_count(st: &AppState) -> (n: usize)
    requires
        items_ready(st@),
    ensures
        n == selected_count(st@),
{
    let id = st.feeds[st.selected_feed_index].id;
    match collection_position(&st.feed_items, id) {
        Some(k) => st.feed_items[k].1.len(),
        None => 0,
    }
}

impl Home {
    /// Handles the key `k` in the search field.
    fn search_input(&mut self, k: KeyEvent)
        ensures
            final(self)@ == search_key(old(self)@, k),
    {
        match k.code {
            KeyCode::Char('/') => {
                self.state.focused_widget = FocusedWidget::FeedList;
            },
            KeyCode::Backspace => {
                if k.control {
                    self.state.search_query = String::new();
                } else {
                    pop_char(&mut self.state.search_query);
                }
            },
            KeyCode::Char(c) => {
                push_char(&mut self.state.search_query, c);
            },
            _ => {},
        }
    }

    /// Empties and closes the add-feed form and gives the keys to the feed list.
    fn clear_form(&mut self)
        ensures
            final(self)@ == form_cleared(old(self)@),
    {
        self.state.add_feed_index = 0;
        self.state.new_feed_title = String::new();
        self.state.new_feed_url = String::new();
        self.state.focused_widget = FocusedWidget::FeedList;
    }

    /// Handles the key `k` in the add-feed form.
    fn form_input(&mut self, k: KeyEvent) -> (r: Vec<HomeAction>)
        requires
            old(self)@.state.add_feed_index <= 2,
        ensures
            final(self)@ == form_key(old(self)@, k).0,
            actions_view(r@) == form_key(old(self)@, k).1,
    {
        let i = self.state.add_feed_index;
        match k.code {
            KeyCode::Esc => {
                self.clear_form();
                one_command(AppCommand::CloseAddFeedPopup)
            },
            KeyCode::Enter => {
                if i == 2 {
                    let title = self.state.new_feed_title.clone();
                    let url = self.state.new_feed_url.clone();
                    self.clear_form();
                    let mut r: Vec<HomeAction> = Vec::new();
                    r.push(HomeAction::AddFeed { title, url });
                    r.push(HomeAction::Command(AppCommand::CloseAddFeedPopup));
                    r.push(HomeAction::Command(AppCommand::SelectSource(FeedSource::Feed(0))));
                    r
                } else {
                    Vec::new()
                }
            },
            KeyCode::Tab => {
                self.state.add_feed_index = i + 1;
                if self.state.add_feed_index > 2 {
                    self.state.add_feed_index = 0;
                }
                Vec::new()
            },
            KeyCode::BackTab => {
                if i == 0 {
                    self.state.add_feed_index = 2;
                } else {
                    self.state.add_feed_index = i - 1;
                }
                Vec::new()
            },
            KeyCode::Char(c) => {
                if i == 0 {
                    push_char(&mut self.state.new_feed_title, c);
                } else if i == 1 {
                    push_char(&mut self.state.new_feed_url, c);
                }
                Vec::new()
            },
            KeyCode::Backspace => {
                if i == 0 {
                    pop_char(&mut self.state.new_feed_title);
                } else if i == 1 {
                    pop_char(&mut self.state.new_feed_url);
                }
                Vec::new()
            },
            _ => Vec::new(),
        }
    }

    /// Moves down in the focused list.
    fn move_down(&mut self, st: &AppState) -> (r: Vec<HomeAction>)
        requires
            (old(self)@.state.focused_widget == FocusedWidget::FeedItems
                && old(self)@.state.selected_feed_item_index is Some) ==> items_ready(st@),
            (old(self)@.state.focused_widget == FocusedWidget::Categories && st@.selected_source
                == FeedSource::Readlist) ==> st@.feeds.len() > 0,
        ensures
            final(self)@ == down_key(old(self)@, st@).0,
            actions_view(r@) == down_key(old(self)@, st@).1,
    {
        match self.state.focused_widget {
            FocusedWidget::FeedList => {
                let n = self.state.filtered_feeds.len();
                if n == 0 {
                    return Vec::new();
                }
                let next: usize = if st.selected_feed_index == usize::MAX {
                    0
                } else {
                    st.selected_feed_index + 1
                };
                let id = self.state.filtered_feeds[next % n].id;
                one_command(AppCommand::SelectSource(FeedSource::Feed(id)))
            },
            FocusedWidget::FeedItems => {
                let sel: usize = match self.state.selected_feed_item_index {
                    Some(index) => {
                        let n = selected_item_count(st);
                        if n == 0 {
                            0
                        } else {
                            let next: usize = if index == usize::MAX {
                                0
                            } else {
                                index + 1
                            };
                            next % n
                        }
                    },
                    None => 0,
                };
                self.state.selected_feed_item_index = Some(sel);
                Vec::new()
            },
            FocusedWidget::Categories => {
                let src = match st.selected_source {
                    FeedSource::Feed(_) => FeedSource::Favourites,
                    FeedSource::Favourites => FeedSource::Readlist,
                    FeedSource::Readlist => FeedSource::Feed(st.feeds[0].id),
                };
                one_command(AppCommand::SelectSource(src))
            },
            _ => Vec::new(),
        }
    }

    /// Moves up in the focused list.
    fn move_up(&mut self, st: &AppState) -> (r: Vec<HomeAction>)
        requires
            old(self)@.state.focused_widget == FocusedWidget::FeedItems ==> items_ready(st@),
            (old(self)@.state.focused_widget == FocusedWidget::Categories && st@.selected_source
                == FeedSource::Favourites) ==> st@.feeds.len() > 0,
            (old(self)@.state.focused_widget == FocusedWidget::FeedList
                && old(self)@.state.filtered_feeds.len() > 0 && st@.selected_feed_index > 0)
                ==> st@.selected_feed_index - 1 < old(self)@.state.filtered_feeds.len(),
        ensures
            final(self)@ == up_key(old(self)@, st@).0,
            actions_view(r@) == up_key(old(self)@, st@).1,
    {
        match self.state.focused_widget {
            FocusedWidget::Categories => {
                let src = match st.selected_source {
                    FeedSource::Feed(_) => FeedSource::Readlist,
                    FeedSource::Favourites => FeedSource::Feed(st.feeds[0].id),
                    FeedSource::Readlist => FeedSource::Favourites,
                };
                one_command(AppCommand::SelectSource(src))
            },
            FocusedWidget::FeedList => {
                let n = self.state.filtered_feeds.len();
                if n == 0 {
                    return Vec::new();
                }
                let i = if st.selected_feed_index == 0 {
                    n - 1
                } else {
                    st.selected_feed_index - 1
                };
                let id = self.state.filtered_feeds[i].id;
                one_command(AppCommand::SelectSource(FeedSource::Feed(id)))
            },
            FocusedWidget::FeedItems => {
                let n = selected_item_count(st);
                if n == 0 {
                    self.state.selected_feed_item_index = Some(0);
                    return Vec::new();
                }
                let sel: usize = match self.state.selected_feed_item_index {
                    Some(index) => if index == 0 {
                        n - 1
                    } else {
                        index - 1
                    },
                    None => n - 1,
                };
                self.state.selected_feed_item_index = Some(sel);
                Vec::new()
            },
            _ => Vec::new(),
        }
    }

    /// Handles the key `k` while the sidebar, the categories or the article
    /// list has the keys.
    fn nav_input(&mut self, k: KeyEvent, st: &AppState) -> (r: Vec<HomeAction>)
        requires
            key_ok(old(self)@, k, st@),
            k.kind == KeyEventKind::Press,
            old(self)@.state.focused_widget != FocusedWidget::Search,
            old(self)@.state.focused_widget != FocusedWidget::AddFeed,
        ensures
            final(self)@ == nav_key(old(self)@, k, st@).0,
            actions_view(r@) == nav_key(old(self)@, k, st@).1,
    {
        let w = self.state.focused_widget;
        match k.code {
            KeyCode::Enter => {
                if w == FocusedWidget::FeedList {
                    self.state.focused_widget = FocusedWidget::FeedItems;
                    Vec::new()
                } else if w == FocusedWidget::FeedItems {
                    match self.state.selected_feed_item_index {
                        Some(i) => one_command(AppCommand::OpenFeed(i)),
                        None => Vec::new(),
                    }
                } else {
                    Vec::new()
                }
            },
            KeyCode::Char('d') => {
                if w == FocusedWidget::FeedList {
                    one_command(AppCommand::DeleteSelectedFeed)
                } else {
                    Vec::new()
                }
            },
            KeyCode::Char('r') => one_command(AppCommand::StartBackgroundSync),
            KeyCode::Char('a') => {
                self.state.focused_widget = FocusedWidget::AddFeed;
                one_command(AppCommand::OpenAddFeedPopup)
            },
            KeyCode::Char('b') => {
                if k.control {
                    self.show_sidebar = !self.show_sidebar;
                    if self.show_sidebar {
                        self.state.focused_widget = FocusedWidget::FeedList;
                    } else {
                        self.state.focused_widget = FocusedWidget::FeedItems;
                    }
                }
                Vec::new()
            },
            KeyCode::Left | KeyCode::Right => {
                if k.control {
                    self.toggle_list();
                }
                Vec::new()
            },
            KeyCode::Char('h') | KeyCode::Char('l') => {
                self.toggle_list();
                Vec::new()
            },
            KeyCode::Char('n') => {
                self.state.focused_widget = if w == FocusedWidget::Categories {
                    match st.selected_source {
                        FeedSource::Feed(_) => FocusedWidget::FeedList,
                        _ => FocusedWidget::FeedItems,
                    }
                } else {
                    FocusedWidget::Categories
                };
                Vec::new()
            },
            KeyCode::Down | KeyCode::Char('j') => self.move_down(st),
            KeyCode::Up | KeyCode::Char('k') => self.move_up(st),
            KeyCode::Char('/') => {
                self.state.focused_widget = if w == FocusedWidget::Search {
                    FocusedWidget::FeedList
                } else {
                    FocusedWidget::Search
                };
                Vec::new()
            },
            _ => Vec::new(),
        }
    }

    /// Gives the keys to the article list when the feed list has them, and
    /// to the feed list otherwise.
    fn toggle_list(&mut self)
        ensures
            final(self)@ == focus(old(self)@, toggled_list(old(self)@.state.focused_widget)),
    {
        if self.state.focused_widget == FocusedWidget::FeedList {
            self.state.focused_widget = FocusedWidget::FeedItems;
        } else {
            self.state.focused_widget = FocusedWidget::FeedList;
        }
    }

    /// Handles the input event `event` while the application is in the state
    /// `state`, and returns what it asks of the application, in order (see
    /// [`home_step`]).
    pub fn handle_input(&mut self, event: &Event, state: &AppState) -> (r: Vec<HomeAction>)
        requires
            old(self)@.state.add_feed_index <= 2,
            input_ok(old(self)@, *event, state@),
        ensures
            final(self)@ == home_step(old(self)@, *event, state@).0,
            actions_view(r@) == home_step(old(self)@, *event, state@).1,
            final(self)@.state.add_feed_index <= 2,
    {
        self.filter_feeds(&state.feeds, &state.selected_source);
        match event {
            Event::Key(key) => {
                if key.kind == KeyEventKind::Press {
                    if self.state.focused_widget == FocusedWidget::Search {
                        self.search_input(*key);
                        return Vec::new();
                    } else if self.state.focused_widget == FocusedWidget::AddFeed {
                        return self.form_input(*key);
                    }
                    self.nav_input(*key, state)
                } else {
                    Vec::new()
                }
            },
            _ => Vec::new(),
        }
    }

    /// Whether [`Home::handle_input`] can handle `event` in `state`.
    pub fn accepts(&self, event: &Event, st: &AppState) -> (b: bool)
        ensures
            b == input_ok(self@, *event, st@),
    {
        match event {
            Event::Key(k) => {
                let w = self.state.focused_widget;
                if k.kind != KeyEventKind::Press || w == FocusedWidget::Search || w
                    == FocusedWidget::AddFeed {
                    return true;
                }
                let down = k.code == KeyCode::Down || k.code == KeyCode::Char('j');
                let up = k.code == KeyCode::Up || k.code == KeyCode::Char('k');
                let ready = st.selected_feed_index < st.feeds.len() && collection_position(
                    &st.feed_items,
                    st.feeds[st.selected_feed_index].id,
                ).is_some();
                if w == FocusedWidget::FeedItems && !ready && (up || (down
                    && self.state.selected_feed_item_index.is_some())) {
                    return false;
                }
                if w == FocusedWidget::Categories && st.feeds.len() == 0 && ((down
                    && st.selected_source == FeedSource::Readlist) || (up && st.selected_source
                    == FeedSource::Favourites)) {
                    return false;
                }
                if up && w == FocusedWidget::FeedList && st.selected_feed_index > 0 {
                    let n = filtered_feeds_of(&st.feeds, st.selected_source, &self.state.search_query).len();
                    if n > 0 && st.selected_feed_index - 1 >= n {
                        return false;
                    }
                }
                true
            },
            _ => true,
        }
    }

    /// Handles `event` as [`Home::handle_input`] does where it can, and
    /// otherwise leaves the screen as it was and returns `None`.
    pub fn try_handle_input(&mut self, event: &Event, state: &AppState) -> (r: Option<Vec<HomeAction>>)
        requires
            old(self)@.state.add_feed_index <= 2,
        ensures
            match r {
                Some(v) => input_ok(old(self)@, *event, state@) && final(self)@ == home_step(
                    old(self)@,
                    *event,
                    state@,
                ).0 && actions_view(v@) == home_step(old(self)@, *event, state@).1,
                None => !input_ok(old(self)@, *event, state@) && final(self)@ == old(self)@,
            },
            final(self)@.state.add_feed_index <= 2,
    {
        if self.accepts(event, state) {
            Some(self.handle_input(event, state))
        } else {
            None
        }
    }
}

/// Every feed kept for `src` is one of `s` and listed for `src`, and every
/// feed of `s` listed for `src` is kept.
pub proof fn lemma_keep_shown(s: Seq<FeedModel>, src: FeedSource)
    ensures
        forall|i: int|
            0 <= i < keep_shown(s, src).len() ==> shown_for(src, #[trigger] keep_shown(s, src)[i])
                && s.contains(keep_shown(s, src)[i]),
        forall|j: int|
            0 <= j < s.len() && shown_for(src, #[trigger] s[j]) ==> keep_shown(s, src).contains(s[j]),
    decreases s.len(),
{
    if s.len() > 0 {
        let t = s.drop_last();
        lemma_keep_shown(t, src);
        let k = keep_shown(s, src);
        let kt = keep_shown(t, src);
        assert forall|i: int| 0 <= i < k.len() implies shown_for(src, #[trigger] k[i]) && s.contains(k[i]) by {
            if i < kt.len() {
                assert(k[i] == kt[i]);
                let w = choose|w: int| 0 <= w < t.len() && t[w] == kt[i];
                assert(s[w] == t[w]);
            } else {
                assert(k[i] == s.last());
                assert(s[s.len() - 1] == s.last());
            }
        }
        assert forall|j: int| 0 <= j < s.len() && shown_for(src, #[trigger] s[j]) implies k.contains(s[j]) by {
            if j < s.len() - 1 {
                assert(t[j] == s[j]);
                let w = choose|w: int| 0 <= w < kt.len() && kt[w] == t[j];
                assert(k[w] == kt[w]);
            } else {
                assert(k[k.len() - 1] == s.last());
            }
        }
    }
}

/// Every feed kept for the search text `q` is one of `s` and holds `q` in its
/// lower-case title, and every such feed of `s` is kept.
pub proof fn lemma_keep_matching(s: Seq<FeedModel>, q: Seq<char>)
    ensures
        forall|i: int|
            #![trigger keep_matching(s, q)[i]]
            0 <= i < keep_matching(s, q).len() ==> contains(lowercase(keep_matching(s, q)[i].title), q)
                && s.contains(keep_matching(s, q)[i]),
        forall|j: int|
            0 <= j < s.len() && contains(lowercase(#[trigger] s[j].title), q) ==> keep_matching(
                s,
                q,
            ).contains(s[j]),
    decreases s.len(),
{
    if s.len() > 0 {
        let t = s.drop_last();
        lemma_keep_matching(t, q);
        let k = keep_matching(s, q);
        let kt = keep_matching(t, q);
        assert forall|i: int| 0 <= i < k.len() implies contains(lowercase(#[trigger] k[i].title), q)
            && s.contains(k[i]) by {
            if i < kt.len() {
                assert(k[i] == kt[i]);
                assert(t.contains(kt[i]));
                let w = choose|w: int| 0 <= w < t.len() && t[w] == kt[i];
                assert(s[w] == t[w]);
            } else {
                assert(k[i] == s.last());
                assert(s[s.len() - 1] == s.last());
            }
        }
        assert forall|j: int| 0 <= j < s.len() && contains(lowercase(#[trigger] s[j].title), q) implies k.contains(
            s[j],
        ) by {
            if j < s.len() - 1 {
                assert(t[j] == s[j]);
                let w = choose|w: int| 0 <= w < kt.len() && kt[w] == t[j];
                assert(k[w] == kt[w]);
            } else {
                assert(k[k.len() - 1] == s.last());
            }
        }
    }
}

/// The sidebar lists exactly the feeds of the selected source that hold the
/// search text, ignoring case: each listed feed is one of `feeds`, belongs to
/// `src` and matches `query`, and each such feed is listed.
pub proof fn lemma_filtered_exact(feeds: Seq<FeedModel>, src: FeedSource, query: Seq<char>)
    ensures
        forall|i: int|
            0 <= i < filtered(feeds, src, query).len() ==> {
                let f = #[trigger] filtered(feeds, src, query)[i];
                &&& feeds.contains(f)
                &&& shown_for(src, f)
                &&& query.len() > 0 ==> contains(lowercase(f.title), lowercase(query))
            },
        forall|j: int|
            0 <= j < feeds.len() && shown_for(src, #[trigger] feeds[j]) && (query.len() > 0
                ==> contains(lowercase(feeds[j].title), lowercase(query))) ==> filtered(
                feeds,
                src,
                query,
            ).contains(feeds[j]),
{
    let base = keep_shown(feeds, src);
    lemma_keep_shown(feeds, src);
    if query.len() > 0 {
        let q = lowercase(query);
        lemma_keep_matching(base, q);
        let r = keep_matching(base, q);
        assert forall|i: int| 0 <= i < r.len() implies {
            let f = #[trigger] r[i];
            &&& feeds.contains(f)
            &&& shown_for(src, f)
            &&& query.len() > 0 ==> contains(lowercase(f.title), q)
        } by {
            assert(base.contains(r[i]));
            let w = choose|w: int| 0 <= w < base.len() && base[w] == r[i];
            assert(shown_for(src, base[w]) && feeds.contains(base[w]));
        }
        assert forall|j: int|
            0 <= j < feeds.len() && shown_for(src, #[trigger] feeds[j]) && contains(
                lowercase(feeds[j].title),
                q,
            ) implies r.contains(feeds[j]) by {
            let w = choose|w: int| 0 <= w < base.len() && base[w] == feeds[j];
            assert(contains(lowercase(base[w].title), q));
        }
    }
}

/// In the search field, typing a character other than `/` and erasing it
/// again gives back the search text and leaves the screen as it was but for
/// the sidebar, which lists what it listed for the typed text (it is listed
/// before each key is applied); neither key asks anything of the application.
pub proof fn lemma_search_type_then_erase(h: HomeModel, st: StateModel, c: char)
    requires
        h.state.focused_widget == FocusedWidget::Search,
        c != '/',
    ensures
        ({
            let typed = home_step(h, Event::Key(KeyEvent { code: KeyCode::Char(c), kind: KeyEventKind::Press, control: false, shift: false }), st);
            let erased = home_step(typed.0, Event::Key(KeyEvent { code: KeyCode::Backspace, kind: KeyEventKind::Press, control: false, shift: false }), st);
            &&& typed.0.state.search_query == h.state.search_query.push(c)
            &&& erased.0 == (HomeModel {
                state: HomeStateModel {
                    filtered_feeds: filtered(st.feeds, st.selected_source, h.state.search_query.push(c)),
                    ..h.state
                },
                ..h
            })
            &&& typed.1.len() == 0 && erased.1.len() == 0
        }),
{
    let q = h.state.search_query;
    assert(q.push(c).drop_last() =~= q);
}

/// In the add-feed form, Tab and then BackTab come back to the same place,
/// and so do three Tabs: the form goes round its three places.
pub proof fn lemma_form_tab_round(h: HomeModel, st: StateModel)
    requires
        h.state.focused_widget == FocusedWidget::AddFeed,
        h.state.add_feed_index <= 2,
    ensures
        ({
            let tab = Event::Key(KeyEvent { code: KeyCode::Tab, kind: KeyEventKind::Press, control: false, shift: false });
            let back = Event::Key(KeyEvent { code: KeyCode::BackTab, kind: KeyEventKind::Press, control: false, shift: false });
            let once = home_step(h, tab, st).0;
            &&& home_step(once, back, st).0 == refiltered(h, st)
            &&& home_step(home_step(once, tab, st).0, tab, st).0 == refiltered(h, st)
        }),
{
}

/// Control-B twice shows the sidebar as it was, with the feed list focused
/// where it shows.
pub proof fn lemma_sidebar_toggle_twice(h: HomeModel, st: StateModel)
    requires
        h.state.focused_widget != FocusedWidget::Search,
        h.state.focused_widget != FocusedWidget::AddFeed,
    ensures
        ({
            let ctrl_b = Event::Key(KeyEvent { code: KeyCode::Char('b'), kind: KeyEventKind::Press, control: true, shift: false });
            let twice = home_step(home_step(h, ctrl_b, st).0, ctrl_b, st).0;
            &&& twice.show_sidebar == h.show_sidebar
            &&& twice.state.focused_widget == if h.show_sidebar {
                FocusedWidget::FeedList
            } else {
                FocusedWidget::FeedItems
            }
        }),
{
}

/// Moving down in the sidebar asks for a feed that the sidebar lists.
pub proof fn lemma_down_selects_listed(h: HomeModel, st: StateModel, k: KeyEvent)
    requires
        h.state.focused_widget == FocusedWidget::FeedList,
        k.kind == KeyEventKind::Press,
        k.code == KeyCode::Down || k.code == KeyCode::Char('j'),
    ensures
        ({
            let r = home_step(h, Event::Key(k), st);
            let listed = filtered(st.feeds, st.selected_source, h.state.search_query);
            r.1.len() <= 1 && (r.1.len() == 1 ==> exists|i: int|
                0 <= i < listed.len() && r.1[0] == ActionModel::Command(
                    AppCommand::SelectSource(FeedSource::Feed(#[trigger] listed[i].id)),
                ))
        }),
{
    let listed = filtered(st.feeds, st.selected_source, h.state.search_query);
    if listed.len() > 0 {
        let i = wrapping_next(st.selected_feed_index) % (listed.len() as int);
        assert(0 <= i < listed.len());
        assert(listed[i].id == listed[i].id);
    }
}

/// The articles of `items` whose id is among `ids`, in order.
pub open spec fn keep_marked(items: Seq<FeedItemModel>, ids: Seq<Seq<char>>) -> Seq<FeedItemModel>
    decreases items.len(),
{
    if items.len() == 0 {
        items
    } else if ids.contains(items.last().id) {
        keep_marked(items.drop_last(), ids).push(items.last())
    } else {
        keep_marked(items.drop_last(), ids)
    }
}

/// The articles of all feeds of `m`, feed after feed, whose id is among `ids`.
pub open spec fn marked_items(m: CollectionsModel, ids: Seq<Seq<char>>) -> Seq<FeedItemModel>
    decreases m.len(),
{
    if m.len() == 0 {
        Seq::empty()
    } else {
        marked_items(m.drop_last(), ids) + keep_marked(m.last().1, ids)
    }
}

/// The articles that the article list shows in the state `st`: those of the
/// selected feed (none where they are not loaded), or, feed after feed, those
/// among the favourites or on the reading list.
pub open spec fn source_items(st: StateModel) -> Seq<FeedItemModel> {
    match st.selected_source {
        FeedSource::Feed(id) => match collection_pos(st.feed_items, id) {
            Some(k) => st.feed_items[k].1,
            None => Seq::empty(),
        },
        FeedSource::Favourites => marked_items(st.feed_items, st.favourites),
        FeedSource::Readlist => marked_items(st.feed_items, st.readlist),
    }
}

/// The articles of all feeds of `m`, feed after feed, whose id is among `ids`.
fn collect_marked(m: &Vec<(i32, crate::feed_item::FeedItemCollection)>, ids: &Vec<String>) -> (r: Vec<FeedItem>)
    ensures
        items_view(r@) == marked_items(collections_view(m@), views(ids@)),
{
    let ghost mv = collections_view(m@);
    let ghost iv = views(ids@);
    let mut out: Vec<FeedItem> = Vec::new();
    let mut k: usize = 0;
    while k < m.len()
        invariant
            k <= m.len(),
            mv == collections_view(m@),
            iv == views(ids@),
            items_view(out@) == marked_items(mv.take(k as int), iv),
        decreases m.len() - k,
    {
        let items = &m[k].1.items;
        let ghost before = items_view(out@);
        let ghost its = mv[k as int].1;
        assert(its == items_view(items@));
        let mut j: usize = 0;
        assert(keep_marked(its.take(0), iv) =~= Seq::<FeedItemModel>::empty());
        assert(before + Seq::<FeedItemModel>::empty() =~= before);
        while j < items.len()
            invariant
                j <= items.len(),
                its == items_view(items@),
                iv == views(ids@),
                items_view(out@) == before + keep_marked(its.take(j as int), iv),
            decreases items.len() - j,
        {
            let ghost prev = items_view(out@);
            proof {
                assert(its.take(j + 1).drop_last() =~= its.take(j as int));
                assert(its.take(j + 1).last() == items@[j as int]@);
            }
            if contains_text(ids, &items[j].id) {
                out.push(items[j].duplicate());
                assert(items_view(out@) =~= prev.push(items@[j as int]@));
                assert(before + keep_marked(its.take(j + 1), iv) =~= (before + keep_marked(its.take(j as int), iv)).push(items@[j as int]@));
            }
            j = j + 1;
        }
        proof {
            assert(its.take(items.len() as int) =~= its);
            assert(mv.take(k + 1).drop_last() =~= mv.take(k as int));
            assert(mv.take(k + 1).last() == mv[k as int]);
        }
        k = k + 1;
    }
    assert(mv.take(m.len() as int) =~= mv);
    out
}

/// The articles that the article list shows in the state `state`.
pub fn source_items_of(state: &AppState) -> (r: Vec<FeedItem>)
    ensures
        items_view(r@) == source_items(state@),
{
    match state.selected_source {
        FeedSource::Feed(id) => match collection_position(&state.feed_items, id) {
            Some(k) => {
                let c = state.feed_items[k].1.duplicate();
                c.items
            },
            None => {
                let r: Vec<FeedItem> = Vec::new();
                assert(items_view(r@) =~= Seq::<FeedItemModel>::empty());
                r
            },
        },
        FeedSource::Favourites => collect_marked(&state.feed_items, &state.favourites),
        FeedSource::Readlist => collect_marked(&state.feed_items, &state.readlist),
    }
}

/// The heading of the article list in the state `st`: the selected feed's
/// title (nothing before the first feed is added), or the name of the
/// favourites or of the reading list.
pub open spec fn source_title(st: StateModel) -> Seq<char> {
    match st.selected_source {
        FeedSource::Feed(_) => if st.selected_feed_index < st.feeds.len() {
            st.feeds[st.selected_feed_index as int].title
        } else {
            Seq::empty()
        },
        FeedSource::Favourites => "Favourites"@,
        FeedSource::Readlist => "Readlist"@,
    }
}

/// The line under the heading of the article list in the state `st`.
pub open spec fn source_subtitle(st: StateModel) -> Seq<char> {
    match st.selected_source {
        FeedSource::Feed(_) => if st.selected_feed_index < st.feeds.len() {
            st.feeds[st.selected_feed_index as int].subtitle
        } else {
            Seq::empty()
        },
        FeedSource::Favourites => "All your favourite feeds"@,
        FeedSource::Readlist => "All your articles from readlist"@,
    }
}

/// The heading and the line under it of the article list in `state`.
pub fn source_heading(state: &AppState) -> (r: (String, String))
    ensures
        r.0@ == source_title(state@),
        r.1@ == source_subtitle(state@),
{
    match state.selected_source {
        FeedSource::Feed(_) => {
            if state.selected_feed_index < state.feeds.len() {
                let f = &state.feeds[state.selected_feed_index];
                (f.title.clone(), f.subtitle.clone())
            } else {
                (String::new(), String::new())
            }
        },
        FeedSource::Favourites => (String::from_str("Favourites"), String::from_str("All your favourite feeds")),
        FeedSource::Readlist => (String::from_str("Readlist"), String::from_str("All your articles from readlist")),
    }
}

/// The entry of the sidebar's navigation that stands for `src`: all
/// articles, the favourites, the reading list.
pub fn navigation_index(src: FeedSource) -> (i: usize)
    ensures
        i == match src {
            FeedSource::Feed(_) => 0usize,
            FeedSource::Favourites => 1usize,
            FeedSource::Readlist => 2usize,
        },
{
    match src {
        FeedSource::Feed(_) => 0,
        FeedSource::Favourites => 1,
        FeedSource::Readlist => 2,
    }
}

/// Typing in the add-feed form writes into the field that is active and no
/// other: a character goes at the end of the title in place 0 and of the
/// address in place 1, Backspace takes the last character off that field
/// alone, and typing a character then Backspace gives both fields back as
/// they were.
pub proof fn lemma_form_typing(h: HomeModel, st: StateModel, k: KeyEvent, c: char)
    requires
        h.state.focused_widget == FocusedWidget::AddFeed,
        h.state.add_feed_index <= 1,
        k.kind == KeyEventKind::Press,
    ensures
        ({
            let t = h.state.new_feed_title;
            let u = h.state.new_feed_url;
            let typed = home_step(h, Event::Key(KeyEvent { code: KeyCode::Char(c), ..k }), st).0.state;
            let erased = home_step(h, Event::Key(KeyEvent { code: KeyCode::Backspace, ..k }), st).0.state;
            let back = home_step(
                home_step(h, Event::Key(KeyEvent { code: KeyCode::Char(c), ..k }), st).0,
                Event::Key(KeyEvent { code: KeyCode::Backspace, ..k }),
                st,
            ).0.state;
            &&& h.state.add_feed_index == 0 ==> typed.new_feed_title == t.push(c) && typed.new_feed_url == u
            &&& h.state.add_feed_index == 1 ==> typed.new_feed_url == u.push(c) && typed.new_feed_title == t
            &&& h.state.add_feed_index == 0 ==> erased.new_feed_url == u && erased.new_feed_title.len()
                == if t.len() > 0 { t.len() - 1 } else { 0 } && erased.new_feed_title.is_prefix_of(t)
            &&& h.state.add_feed_index == 1 ==> erased.new_feed_title == t && erased.new_feed_url.len()
                == if u.len() > 0 { u.len() - 1 } else { 0 } && erased.new_feed_url.is_prefix_of(u)
            &&& back.new_feed_title == t && back.new_feed_url == u
            &&& back.add_feed_index == h.state.add_feed_index
        }),
{
    let t = h.state.new_feed_title;
    let u = h.state.new_feed_url;
    assert(t.push(c).drop_last() =~= t);
    assert(u.push(c).drop_last() =~= u);
    if t.len() > 0 {
        assert(t.drop_last().is_prefix_of(t));
    }
    if u.len() > 0 {
        assert(u.drop_last().is_prefix_of(u));
    }
    assert(t.is_prefix_of(t));
    assert(u.is_prefix_of(u));
}

/// Going round the categories: Down from a feed asks for the favourites,
/// from the favourites for the reading list and from the reading list for
/// the first feed; Up undoes Down and Down undoes Up, so that where the app
/// selects what was asked, Down then Up (or Up then Down) asks for the source
/// one started from, a feed coming back as the first feed.
pub proof fn lemma_categories_round(h: HomeModel, st: StateModel, down: KeyEvent, up: KeyEvent)
    requires
        h.state.focused_widget == FocusedWidget::Categories,
        st.feeds.len() > 0,
        down.kind == KeyEventKind::Press,
        down.code == KeyCode::Down || down.code == KeyCode::Char('j'),
        up.kind == KeyEventKind::Press,
        up.code == KeyCode::Up || up.code == KeyCode::Char('k'),
    ensures
        ({
            let start = match st.selected_source {
                FeedSource::Feed(_) => FeedSource::Feed(st.feeds[0].id),
                other => other,
            };
            let (hd, ad) = home_step(h, Event::Key(down), st);
            let (hu, au) = home_step(h, Event::Key(up), st);
            &&& ad.len() == 1 && au.len() == 1
            &&& st.selected_source is Feed ==> ad[0] == ActionModel::Command(AppCommand::SelectSource(FeedSource::Favourites))
            &&& st.selected_source is Favourites ==> ad[0] == ActionModel::Command(AppCommand::SelectSource(FeedSource::Readlist))
            &&& st.selected_source is Readlist ==> ad[0] == ActionModel::Command(
                AppCommand::SelectSource(FeedSource::Feed(st.feeds[0].id)),
            )
            &&& forall|s1: FeedSource| ad[0] == ActionModel::Command(AppCommand::SelectSource(s1))
                ==> #[trigger] home_step(hd, Event::Key(up), StateModel { selected_source: s1, ..st }).1
                == seq![ActionModel::Command(AppCommand::SelectSource(start))]
            &&& forall|s1: FeedSource| au[0] == ActionModel::Command(AppCommand::SelectSource(s1))
                ==> #[trigger] home_step(hu, Event::Key(down), StateModel { selected_source: s1, ..st }).1
                == seq![ActionModel::Command(AppCommand::SelectSource(start))]
        }),
{
}

/// The add-feed form's place stays one of its three, whatever the event and
/// the state: Tab goes round from the button to the title, BackTab from the
/// title to the button, closing the form goes back to the title, and nothing
/// else moves it.
pub proof fn lemma_form_index_stays(h: HomeModel, ev: Event, st: StateModel)
    requires
        h.state.add_feed_index <= 2,
    ensures
        home_step(h, ev, st).0.state.add_feed_index <= 2,
{
}

/// Whether the sidebar lists `f` while `src` is selected and `q` is typed.
pub open spec fn listed(src: FeedSource, q: Seq<char>, f: FeedModel) -> bool {
    shown_for(src, f) && (q.len() == 0 || contains(lowercase(f.title), lowercase(q)))
}

/// The positions in `s` of the feeds the sidebar lists while `src` is
/// selected and `q` is typed, in order.
pub open spec fn listed_positions(s: Seq<FeedModel>, src: FeedSource, q: Seq<char>) -> Seq<int>
    decreases s.len(),
{
    if s.len() == 0 {
        Seq::empty()
    } else if listed(src, q, s.last()) {
        listed_positions(s.drop_last(), src, q).push(s.len() - 1)
    } else {
        listed_positions(s.drop_last(), src, q)
    }
}

/// Whether the sidebar's list for `src` and `q` is the feeds of `s` at the
/// positions `ps`, which rise and lie in `s`, and which are exactly the
/// positions of the feeds it lists.
pub open spec fn lists_at(s: Seq<FeedModel>, src: FeedSource, q: Seq<char>, ps: Seq<int>) -> bool {
    &&& forall|i: int, j: int| 0 <= i < j < ps.len() ==> #[trigger] ps[i] < #[trigger] ps[j]
    &&& forall|i: int| 0 <= i < ps.len() ==> 0 <= #[trigger] ps[i] < s.len()
    &&& forall|p: int| 0 <= p < s.len() ==> (ps.contains(p) <==> listed(src, q, #[trigger] s[p]))
    &&& filtered(s, src, q).len() == ps.len()
    &&& forall|i: int| 0 <= i < ps.len() ==> #[trigger] filtered(s, src, q)[i] == s[ps[i]]
}

/// The sidebar's list grows by the last feed exactly where it lists it.
proof fn lemma_filtered_step(s: Seq<FeedModel>, src: FeedSource, q: Seq<char>)
    requires
        s.len() > 0,
    ensures
        filtered(s, src, q) == if listed(src, q, s.last()) {
            filtered(s.drop_last(), src, q).push(s.last())
        } else {
            filtered(s.drop_last(), src, q)
        },
{
    let t = s.drop_last();
    if q.len() > 0 && shown_for(src, s.last()) {
        let k = keep_shown(t, src).push(s.last());
        assert(k.drop_last() =~= keep_shown(t, src));
        assert(k.last() == s.last());
    }
}

/// The positions of the listed feeds rise, lie in `s`, are those of exactly
/// the feeds listed, and give the sidebar's list in order.
pub proof fn lemma_listed_positions(s: Seq<FeedModel>, src: FeedSource, q: Seq<char>)
    ensures
        lists_at(s, src, q, listed_positions(s, src, q)),
    decreases s.len(),
{
    if s.len() > 0 {
        let t = s.drop_last();
        lemma_listed_positions(t, src, q);
        lemma_filtered_step(s, src, q);
        let ps = listed_positions(s, src, q);
        let pt = listed_positions(t, src, q);
        let n = s.len() - 1;
        assert forall|i: int| 0 <= i < ps.len() implies 0 <= #[trigger] ps[i] < s.len() by {
            if i < pt.len() {
                assert(ps[i] == pt[i]);
            }
        }
        assert forall|i: int, j: int| 0 <= i < j < ps.len() implies #[trigger] ps[i] < #[trigger] ps[j] by {
            if j < pt.len() {
                assert(ps[i] == pt[i] && ps[j] == pt[j]);
            } else {
                assert(ps[i] == pt[i]);
            }
        }
        assert forall|p: int| 0 <= p < s.len() implies (ps.contains(p) <==> listed(src, q, #[trigger] s[p])) by {
            if p < n {
                assert(s[p] == t[p]);
                if ps.contains(p) {
                    let w = choose|w: int| 0 <= w < ps.len() && ps[w] == p;
                    if w < pt.len() {
                        assert(pt[w] == p);
                    }
                }
                if pt.contains(p) {
                    let w = choose|w: int| 0 <= w < pt.len() && pt[w] == p;
                    assert(ps[w] == p);
                }
            } else {
                assert(s[p] == s.last());
                if listed(src, q, s.last()) {
                    assert(ps[ps.len() - 1] == n);
                } else if ps.contains(p) {
                    let w = choose|w: int| 0 <= w < ps.len() && ps[w] == p;
                    assert(pt[w] == p);
                }
            }
        }
        assert forall|i: int| 0 <= i < ps.len() implies #[trigger] filtered(s, src, q)[i] == s[ps[i]] by {
            if i < pt.len() {
                assert(ps[i] == pt[i]);
                assert(filtered(s, src, q)[i] == filtered(t, src, q)[i]);
                assert(t[pt[i]] == s[pt[i]]);
            }
        }
    }
}

/// Whether position `p` of the feeds is in at most one of the sidebar's lists
/// for a feed, the favourites and the reading list, and, with no search text,
/// in exactly one.
pub open spec fn sorted_once(feeds: Seq<FeedModel>, x: i32, q: Seq<char>, p: int) -> bool {
    let a = listed_positions(feeds, FeedSource::Feed(x), q).contains(p);
    let b = listed_positions(feeds, FeedSource::Favourites, q).contains(p);
    let c = listed_positions(feeds, FeedSource::Readlist, q).contains(p);
    &&& !(a && b) && !(a && c) && !(b && c)
    &&& q.len() == 0 ==> (a || b || c)
}

/// Of the feeds, the sidebar lists for a feed, for the favourites and for
/// the reading list three rising selections, each of the feeds it lists, in
/// order; no feed is in two of them; and with no search text every feed is
/// in one.
pub proof fn lemma_sidebar_partition(feeds: Seq<FeedModel>, x: i32, q: Seq<char>)
    ensures
        lists_at(feeds, FeedSource::Feed(x), q, listed_positions(feeds, FeedSource::Feed(x), q)),
        lists_at(feeds, FeedSource::Favourites, q, listed_positions(feeds, FeedSource::Favourites, q)),
        lists_at(feeds, FeedSource::Readlist, q, listed_positions(feeds, FeedSource::Readlist, q)),
        forall|p: int| 0 <= p < feeds.len() ==> #[trigger] sorted_once(feeds, x, q, p),
{
    reveal_strlit("favourites");
    reveal_strlit("readlist");
    assert("favourites"@ != "readlist"@) by {
        assert("favourites"@.len() != "readlist"@.len());
    }
    lemma_listed_positions(feeds, FeedSource::Feed(x), q);
    lemma_listed_positions(feeds, FeedSource::Favourites, q);
    lemma_listed_positions(feeds, FeedSource::Readlist, q);
    assert forall|p: int| 0 <= p < feeds.len() implies #[trigger] sorted_once(feeds, x, q, p) by {
        let f = feeds[p];
        assert(listed_positions(feeds, FeedSource::Feed(x), q).contains(p) == listed(FeedSource::Feed(x), q, f));
        assert(listed_positions(feeds, FeedSource::Favourites, q).contains(p) == listed(FeedSource::Favourites, q, f));
        assert(listed_positions(feeds, FeedSource::Readlist, q).contains(p) == listed(FeedSource::Readlist, q, f));
    }
}

} // verus!
