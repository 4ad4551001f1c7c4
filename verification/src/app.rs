//! The application's state and the rules by which commands, background
//! events and keys change it. The caller performs the input and output that
//! a rule asks for and reports back.

use vstd::prelude::*;
use crate::event::{Event, KeyCode, KeyEvent, KeyEventKind};
use crate::feed::{Feed, FeedModel, FeedSource, feeds_view};
use crate::feed_item::{FeedItemCollection, FeedItemModel, items_view, last_index_of};
use crate::settings::Settings;
use crate::text::views;
use crate::theme::{Theme, ThemeRegistry, dark, dark_theme};

verus! {

/// A notice from background work.
#[derive(Debug)]
pub enum AppEvent {
    FeedAdded(Feed),
    FeedAddFailed(String),
    BackgroundSyncStarted,
    BackgroundSyncFinished,
    FeedsUpdated(Vec<i32>),
}

/// What is shown above the current screen.
#[derive(Clone, Copy, Debug, PartialEq, Eq, Structural)]
pub enum Overlay {
    Empty,
    ThemeSelector,
    AddFeedPopup,
}

/// The screens of the application.
#[derive(Clone, Copy, Debug, PartialEq, Eq, Hash, Structural)]
pub enum Screens {
    Home,
    ViewFeed,
    TestHtml,
}

/// A request from a screen to the application.
#[derive(Debug)]
pub enum AppCommand {
    Quit,
    Navigate(Screens, Option<AppState>),
    OpenFeed(usize),
    OpenAddFeedPopup,
    CloseAddFeedPopup,
    StartBackgroundSync,
    ToggleFeedItemFavourite(String),
    SelectSource(FeedSource),
    DeleteSelectedFeed,
}

/// A request to the application as a mathematical value.
pub enum CommandModel {
    Quit,
    Navigate(Screens, Option<StateModel>),
    OpenFeed(usize),
    OpenAddFeedPopup,
    CloseAddFeedPopup,
    StartBackgroundSync,
    ToggleFeedItemFavourite(Seq<char>),
    SelectSource(FeedSource),
    DeleteSelectedFeed,
}

impl View for AppCommand {
    type V = CommandModel;

    open spec fn view(&self) -> CommandModel {
        match *self {
            AppCommand::Quit => CommandModel::Quit,
            AppCommand::Navigate(s, st) => CommandModel::Navigate(
                s,
                match st {
                    Some(a) => Some(a@),
                    None => None,
                },
            ),
            AppCommand::OpenFeed(i) => CommandModel::OpenFeed(i),
            AppCommand::OpenAddFeedPopup => CommandModel::OpenAddFeedPopup,
            AppCommand::CloseAddFeedPopup => CommandModel::CloseAddFeedPopup,
            AppCommand::StartBackgroundSync => CommandModel::StartBackgroundSync,
            AppCommand::ToggleFeedItemFavourite(id) => CommandModel::ToggleFeedItemFavourite(id@),
            AppCommand::SelectSource(src) => CommandModel::SelectSource(src),
            AppCommand::DeleteSelectedFeed => CommandModel::DeleteSelectedFeed,
        }
    }
}

/// The view of an optional request.
pub open spec fn opt_command(c: Option<AppCommand>) -> Option<CommandModel> {
    match c {
        Some(x) => Some(x@),
        None => None,
    }
}

/// The shared state of the screens: the feeds, the articles of each feed,
/// the favourite and reading-list article ids, and what is selected.
#[derive(Clone, Debug)]
pub struct AppState {
    pub feeds: Vec<Feed>,
    pub feed_items: Vec<(i32, FeedItemCollection)>,
    pub favourites: Vec<String>,
    pub readlist: Vec<String>,
    pub selected_source: FeedSource,
    pub selected_feed_index: usize,
    pub selected_feed_item_id: Option<String>,
    pub background_syncing: bool,
    pub overlay: Overlay,
}

/// The articles of each feed, keyed by feed id, as mathematical values.
pub type CollectionsModel = Seq<(i32, Seq<FeedItemModel>)>;

/// The state as a mathematical value.
pub struct StateModel {
    pub feeds: Seq<FeedModel>,
    pub feed_items: CollectionsModel,
    pub favourites: Seq<Seq<char>>,
    pub readlist: Seq<Seq<char>>,
    pub selected_source: FeedSource,
    pub selected_feed_index: usize,
    pub selected_feed_item_id: Option<Seq<char>>,
    pub background_syncing: bool,
    pub overlay: Overlay,
}

pub open spec fn collections_view(v: Seq<(i32, FeedItemCollection)>) -> CollectionsModel {
    v.map_values(|e: (i32, FeedItemCollection)| (e.0, e.1.model()))
}

pub open spec fn opt_text(s: Option<String>) -> Option<Seq<char>> {
    match s {
        Some(t) => Some(t@),
        None => None,
    }
}

impl View for AppState {
    type V = StateModel;

    open spec fn view(&self) -> StateModel {
        StateModel {
            feeds: feeds_view(self.feeds@),
            feed_items: collections_view(self.feed_items@),
            favourites: views(self.favourites@),
            readlist: views(self.readlist@),
            selected_source: self.selected_source,
            selected_feed_index: self.selected_feed_index,
            selected_feed_item_id: opt_text(self.selected_feed_item_id),
            background_syncing: self.background_syncing,
            overlay: self.overlay,
        }
    }
}

/// The first position of `s` whose element satisfies `p`.
pub open spec fn first_pos<T>(s: Seq<T>, p: spec_fn(T) -> bool) -> Option<int> {
    if exists|i: int| 0 <= i < s.len() && p(s[i]) {
        Some(
            choose|i: int|
                0 <= i < s.len() && p(s[i]) && forall|j: int| 0 <= j < i ==> !p(#[trigger] s[j]),
        )
    } else {
        None
    }
}

/// A position found by a scan from the front is the first position.
pub proof fn lemma_first_pos_found<T>(s: Seq<T>, p: spec_fn(T) -> bool, i: int)
    requires
        0 <= i < s.len(),
        p(s[i]),
        forall|j: int| 0 <= j < i ==> !p(#[trigger] s[j]),
    ensures
        first_pos(s, p) == Some(i),
{
    let c = choose|c: int|
        0 <= c < s.len() && p(s[c]) && forall|j: int| 0 <= j < c ==> !p(#[trigger] s[j]);
    assert(0 <= c < s.len() && p(s[c]) && forall|j: int| 0 <= j < c ==> !p(#[trigger] s[j]));
    if c < i {
        assert(!p(s[c]));
    } else if c > i {
        assert(!p(s[i]));
    }
}

/// Where no element satisfies `p` there is no first position.
pub proof fn lemma_first_pos_none<T>(s: Seq<T>, p: spec_fn(T) -> bool)
    requires
        forall|j: int| 0 <= j < s.len() ==> !p(#[trigger] s[j]),
    ensures
        first_pos(s, p) is None,
{
}

/// The position of the first articles kept under the feed id `id`.
pub open spec fn collection_pos(m: CollectionsModel, id: i32) -> Option<int>
    decreases m.len(),
{
    if m.len() == 0 {
        None
    } else if m[0].0 == id {
        Some(0)
    } else {
        match collection_pos(m.subrange(1, m.len() as int), id) {
            Some(i) => Some(i + 1),
            None => None,
        }
    }
}

/// Where the articles of a feed id are found, they stand there under that id.
pub proof fn lemma_collection_pos_found(m: CollectionsModel, id: i32)
    ensures
        collection_pos(m, id) matches Some(k) ==> 0 <= k < m.len() && m[k].0 == id,
    decreases m.len(),
{
    if m.len() > 0 && m[0].0 != id {
        let t = m.subrange(1, m.len() as int);
        lemma_collection_pos_found(t, id);
        if let Some(k) = collection_pos(t, id) {
            assert(m[k + 1] == t[k]);
        }
    }
}

/// The position of the feed with id `id`.
pub open spec fn feed_pos(feeds: Seq<FeedModel>, id: i32) -> Option<int> {
    first_pos(feeds, |f: FeedModel| f.id == id)
}

/// `s` with `x` added unless it holds it already.
pub open spec fn add_unique(s: Seq<Seq<char>>, x: Seq<char>) -> Seq<Seq<char>> {
    if s.contains(x) {
        s
    } else {
        s.push(x)
    }
}

/// `s` without any `x`, the rest in order.
pub open spec fn remove_all(s: Seq<Seq<char>>, x: Seq<char>) -> Seq<Seq<char>>
    decreases s.len(),
{
    if s.len() == 0 {
        s
    } else if s.last() == x {
        remove_all(s.drop_last(), x)
    } else {
        remove_all(s.drop_last(), x).push(s.last())
    }
}

/// `m` with the articles `items` under the feed id `id`, in place of any there.
pub open spec fn put_collection(m: CollectionsModel, id: i32, items: Seq<FeedItemModel>) -> CollectionsModel {
    match collection_pos(m, id) {
        Some(k) => m.update(k, (id, items)),
        None => m.push((id, items)),
    }
}

/// `m` without the articles of the feed id `id`.
pub open spec fn drop_collection(m: CollectionsModel, id: i32) -> CollectionsModel
    decreases m.len(),
{
    if m.len() == 0 {
        m
    } else if m.last().0 == id {
        drop_collection(m.drop_last(), id)
    } else {
        drop_collection(m.drop_last(), id).push(m.last())
    }
}

/// The state after selecting the source `src`: a feed source also selects
/// the first feed with its id, where there is one.
pub open spec fn select_source(st: StateModel, src: FeedSource) -> StateModel {
    let st1 = StateModel { selected_source: src, ..st };
    match src {
        FeedSource::Feed(id) => match feed_pos(st.feeds, id) {
            Some(p) => StateModel { selected_feed_index: p as usize, ..st1 },
            None => st1,
        },
        _ => st1,
    }
}

/// Whether the article at `index` of the current source can be opened: for
/// a feed, its articles are loaded and hold that position.
pub open spec fn can_open(st: StateModel, index: usize) -> bool {
    match st.selected_source {
        FeedSource::Feed(id) => match collection_pos(st.feed_items, id) {
            Some(k) => index < st.feed_items[k].1.len(),
            None => false,
        },
        _ => true,
    }
}

/// The state after opening the article at `index` of the list the current
/// source shows.
pub open spec fn open_feed(st: StateModel, index: usize) -> StateModel {
    let id = match st.selected_source {
        FeedSource::Favourites | FeedSource::Readlist => {
            let listed = crate::home::source_items(st);
            if index < listed.len() {
                Some(listed[index as int].id)
            } else {
                None
            }
        },
        FeedSource::Feed(fid) => Some(
            st.feed_items[collection_pos(st.feed_items, fid)->0].1[index as int].id,
        ),
    };
    StateModel { selected_feed_item_id: id, ..st }
}

/// The state after the article `id` became a favourite (`fav`) or stopped
/// being one: where the selected feed's articles hold it, its mark changes
/// and the favourites gain or lose its id; otherwise nothing changes.
pub open spec fn favourite_toggled(st: StateModel, id: Seq<char>, fav: bool) -> StateModel {
    if st.selected_feed_index < st.feeds.len() {
        let fid = st.feeds[st.selected_feed_index as int].id;
        match collection_pos(st.feed_items, fid) {
            Some(k) => match last_index_of(st.feed_items[k].1, id) {
                Some(i) => {
                    let items = st.feed_items[k].1;
                    let items2 = items.update(i, FeedItemModel { is_favourite: fav, ..items[i] });
                    StateModel {
                        feed_items: st.feed_items.update(k, (fid, items2)),
                        favourites: if fav {
                            add_unique(st.favourites, id)
                        } else {
                            remove_all(st.favourites, id)
                        },
                        ..st
                    }
                },
                None => st,
            },
            None => st,
        }
    } else {
        st
    }
}

/// The state after the selected feed was deleted: it and its articles are
/// gone, and the first feed is selected.
pub open spec fn feed_deleted(st: StateModel) -> StateModel {
    let fid = st.feeds[st.selected_feed_index as int].id;
    StateModel {
        feed_items: drop_collection(st.feed_items, fid),
        feeds: st.feeds.remove(st.selected_feed_index as int),
        selected_feed_index: 0,
        ..st
    }
}

/// The state after the feed `f` was added with the articles `items`: it comes
/// first, and its articles are kept under its id.
pub open spec fn feed_added(st: StateModel, f: FeedModel, items: Seq<FeedItemModel>) -> StateModel {
    StateModel {
        feed_items: put_collection(st.feed_items, f.id, items),
        feeds: st.feeds.insert(0, f),
        ..st
    }
}


/// The position of the first feed with id `id`.
pub fn feed_position(feeds: &Vec<Feed>, id: i32) -> (r: Option<usize>)
    ensures
        match r {
            Some(p) => feed_pos(feeds_view(feeds@), id) == Some(p as int),
            None => feed_pos(feeds_view(feeds@), id) is None,
        },
{
    let ghost fv = feeds_view(feeds@);
    let ghost p = |f: FeedModel| f.id == id;
    let mut i: usize = 0;
    while i < feeds.len()
        invariant
            i <= feeds.len(),
            fv == feeds_view(feeds@),
            p == (|f: FeedModel| f.id == id),
            forall|j: int| 0 <= j < i ==> !p(#[trigger] fv[j]),
        decreases feeds.len() - i,
    {
        if feeds[i].id == id {
            proof {
                lemma_first_pos_found(fv, p, i as int);
            }
            return Some(i);
        }
        assert(!p(fv[i as int]));
        i = i + 1;
    }
    proof {
        lemma_first_pos_none(fv, p);
    }
    None
}

/// The position of the articles of the feed with id `id`.
pub fn collection_position(m: &Vec<(i32, FeedItemCollection)>, id: i32) -> (r: Option<usize>)
    ensures
        match r {
            Some(k) => collection_pos(collections_view(m@), id) == Some(k as int) && k < m@.len()
                && m@[k as int].0 == id,
            None => collection_pos(collections_view(m@), id) is None,
        },
{
    let ghost mv = collections_view(m@);
    let mut i: usize = 0;
    assert(mv.subrange(0, mv.len() as int) =~= mv);
    while i < m.len()
        invariant
            i <= m.len(),
            mv == collections_view(m@),
            collection_pos(mv, id) == match collection_pos(mv.subrange(i as int, mv.len() as int), id) {
                Some(j) => Some(j + i),
                None => None,
            },
        decreases m.len() - i,
    {
        let ghost rest = mv.subrange(i as int, mv.len() as int);
        assert(rest[0].0 == m@[i as int].0);
        if m[i].0 == id {
            return Some(i);
        }
        assert(rest.subrange(1, rest.len() as int) =~= mv.subrange(i + 1, mv.len() as int));
        i = i + 1;
    }
    None
}

/// Whether `s` holds `x`.
pub fn contains_text(s: &Vec<String>, x: &String) -> (b: bool)
    ensures
        b == views(s@).contains(x@),
{
    let mut i: usize = 0;
    while i < s.len()
        invariant
            i <= s.len(),
            forall|j: int| 0 <= j < i ==> #[trigger] views(s@)[j] != x@,
        decreases s.len() - i,
    {
        if s[i] == *x {
            assert(views(s@)[i as int] == x@);
            return true;
        }
        i = i + 1;
    }
    false
}

/// Adds `x` to `s` unless it is there.
pub fn add_text(s: &mut Vec<String>, x: String)
    ensures
        views(final(s)@) == add_unique(views(old(s)@), x@),
{
    if !contains_text(s, &x) {
        let ghost before = views(s@);
        s.push(x);
        assert(views(s@) =~= before.push(x@));
    }
}

/// Removes every `x` from `s`.
pub fn remove_text(s: &mut Vec<String>, x: &String)
    ensures
        views(final(s)@) == remove_all(views(old(s)@), x@),
{
    let ghost sv = views(s@);
    let mut out: Vec<String> = Vec::new();
    let mut i: usize = 0;
    assert(sv.take(0) =~= Seq::<Seq<char>>::empty());
    while i < s.len()
        invariant
            i <= s.len(),
            sv == views(s@),
            views(out@) == remove_all(sv.take(i as int), x@),
        decreases s.len() - i,
    {
        assert(sv.take(i + 1).drop_last() =~= sv.take(i as int));
        assert(sv.take(i + 1).last() == s@[i as int]@);
        if s[i] != *x {
            let ghost before = views(out@);
            out.push(s[i].clone());
            assert(views(out@) =~= before.push(s@[i as int]@));
        }
        i = i + 1;
    }
    assert(sv.take(s.len() as int) =~= sv);
    *s = out;
}

impl AppState {
    /// Selects the source `src`.
    pub fn select_source(&mut self, src: FeedSource)
        ensures
            final(self)@ == select_source(old(self)@, src),
    {
        self.selected_source = src;
        if let FeedSource::Feed(id) = src {
            if let Some(index) = feed_position(&self.feeds, id) {
                self.selected_feed_index = index;
            }
        }
    }

    /// Opens the article at `index` of the current source.
    pub fn open_feed(&mut self, index: usize)
        requires
            can_open(old(self)@, index),
        ensures
            final(self)@ == open_feed(old(self)@, index),
    {
        match self.selected_source {
            FeedSource::Favourites | FeedSource::Readlist => {
                let listed = crate::home::source_items_of(self);
                self.selected_feed_item_id = if index < listed.len() {
                    assert(items_view(listed@)[index as int] == listed@[index as int]@);
                    Some(listed[index].id.clone())
                } else {
                    None
                };
            },
            FeedSource::Feed(id) => {
                let k = collection_position(&self.feed_items, id).unwrap();
                assert(collections_view(self.feed_items@)[k as int].1 == self.feed_items@[k as int].1.model());
                self.selected_feed_item_id = Some(self.feed_items[k].1.items[index].id.clone());
            },
        }
    }

    /// Records that the article `id` is now a favourite (`fav`) or not.
    #[verifier::rlimit(50)]
    pub fn favourite_toggled(&mut self, id: &String, fav: bool)
        ensures
            final(self)@ == favourite_toggled(old(self)@, id@, fav),
    {
        if self.selected_feed_index < self.feeds.len() {
            let fid = self.feeds[self.selected_feed_index].id;
            if let Some(k) = collection_position(&self.feed_items, fid) {
                let ghost ov = collections_view(self.feed_items@);
                assert(ov[k as int] == (self.feed_items@[k as int].0, self.feed_items@[k as int].1.model()));
                if let Some(i) = self.feed_items[k].1.index_of(id) {
                    let mut entry = self.feed_items.remove(k);
                    entry.1.set_favourite(i, fav);
                    self.feed_items.insert(k, entry);
                    assert(collections_view(self.feed_items@) =~= ov.update(
                        k as int,
                        (fid, entry.1.model()),
                    ));
                    if fav {
                        add_text(&mut self.favourites, id.clone());
                    } else {
                        remove_text(&mut self.favourites, id);
                    }
                }
            }
        }
    }

    /// Records that the selected feed was deleted.
    pub fn feed_deleted(&mut self)
        requires
            old(self).selected_feed_index < old(self).feeds@.len(),
        ensures
            final(self)@ == feed_deleted(old(self)@),
    {
        let fid = self.feeds[self.selected_feed_index].id;
        let ghost mv = collections_view(self.feed_items@);
        let mut out: Vec<(i32, FeedItemCollection)> = Vec::new();
        let ghost n = mv.len();
        let mut i: usize = 0;
        assert(mv.take(0) =~= Seq::<(i32, Seq<FeedItemModel>)>::empty());
        while i < self.feed_items.len()
            invariant
                i <= self.feed_items.len(),
                n == mv.len(),
                mv == collections_view(self.feed_items@),
                collections_view(out@) == drop_collection(mv.take(i as int), fid),
            decreases self.feed_items.len() - i,
        {
            assert(mv.take(i + 1).drop_last() =~= mv.take(i as int));
            assert(mv.take(i + 1).last() == mv[i as int]);
            assert(mv[i as int] == (self.feed_items@[i as int].0, self.feed_items@[i as int].1.model()));
            if self.feed_items[i].0 != fid {
                let ghost before = collections_view(out@);
                let e = (self.feed_items[i].0, self.feed_items[i].1.duplicate());
                out.push(e);
                assert(collections_view(out@) =~= before.push(mv[i as int]));
            }
            i = i + 1;
        }
        assert(mv.take(n as int) =~= mv);
        self.feed_items = out;
        self.feeds.remove(self.selected_feed_index);
        self.selected_feed_index = 0;
        assert(feeds_view(self.feeds@) =~= feeds_view(old(self).feeds@).remove(
            old(self).selected_feed_index as int,
        ));
    }

    /// Records that the feed `feed` was added with the articles `items`.
    #[verifier::rlimit(30)]
    pub fn feed_added(&mut self, feed: Feed, items: FeedItemCollection)
        ensures
            final(self)@ == feed_added(old(self)@, feed@, items.model()),
    {
        let ghost mv = collections_view(self.feed_items@);
        let id = feed.id;
        match collection_position(&self.feed_items, id) {
            Some(k) => {
                self.feed_items.set(k, (id, items));
                assert(collections_view(self.feed_items@) =~= mv.update(k as int, (id, items.model())));
            },
            None => {
                self.feed_items.push((id, items));
                assert(collections_view(self.feed_items@) =~= mv.push((id, items.model())));
            },
        }
        let ghost fv = feeds_view(self.feeds@);
        self.feeds.insert(0, feed);
        assert(feeds_view(self.feeds@) =~= fv.insert(0, feed@));
    }
}


/// The first position of the name `x` in `s`.
pub fn position_of(s: &Vec<String>, x: &String) -> (r: Option<usize>)
    ensures
        match r {
            Some(p) => first_pos(views(s@), |n: Seq<char>| n == x@) == Some(p as int) && p
                < s@.len() && views(s@)[p as int] == x@,
            None => first_pos(views(s@), |n: Seq<char>| n == x@) is None && !views(s@).contains(
                x@,
            ),
        },
{
    let ghost sv = views(s@);
    let ghost p = |n: Seq<char>| n == x@;
    let mut i: usize = 0;
    while i < s.len()
        invariant
            i <= s.len(),
            sv == views(s@),
            p == (|n: Seq<char>| n == x@),
            forall|j: int| 0 <= j < i ==> !p(#[trigger] sv[j]),
        decreases s.len() - i,
    {
        assert(sv[i as int] == s@[i as int]@);
        if s[i] == *x {
            proof {
                lemma_first_pos_found(sv, p, i as int);
            }
            return Some(i);
        }
        i = i + 1;
    }
    proof {
        lemma_first_pos_none(sv, p);
    }
    None
}

/// Selecting a source twice is selecting it once.
pub proof fn lemma_select_source_twice(st: StateModel, src: FeedSource)
    ensures
        select_source(select_source(st, src), src) == select_source(st, src),
{
}

/// Removing every `x` from a sequence that holds none leaves it as it is.
proof fn lemma_remove_absent(s: Seq<Seq<char>>, x: Seq<char>)
    requires
        !s.contains(x),
    ensures
        remove_all(s, x) == s,
    decreases s.len(),
{
    if s.len() > 0 {
        assert(!s.drop_last().contains(x)) by {
            if s.drop_last().contains(x) {
                let w = choose|w: int| 0 <= w < s.drop_last().len() && s.drop_last()[w] == x;
                assert(s[w] == x);
            }
        }
        lemma_remove_absent(s.drop_last(), x);
        assert(s.last() != x) by {
            assert(s[s.len() - 1] == s.last());
        }
        assert(s.drop_last().push(s.last()) =~= s);
    }
}

/// The last position of an id depends on the ids alone.
proof fn lemma_last_index_same_ids(a: Seq<FeedItemModel>, b: Seq<FeedItemModel>, id: Seq<char>)
    requires
        a.len() == b.len(),
        forall|j: int| 0 <= j < a.len() ==> #[trigger] a[j].id == b[j].id,
    ensures
        last_index_of(a, id) == last_index_of(b, id),
    decreases a.len(),
{
    if a.len() > 0 {
        assert(a.last().id == b.last().id) by {
            assert(a[a.len() - 1].id == b[b.len() - 1].id);
        }
        assert forall|j: int| 0 <= j < a.drop_last().len() implies #[trigger] a.drop_last()[j].id
            == b.drop_last()[j].id by {
            assert(a[j].id == b[j].id);
        }
        lemma_last_index_same_ids(a.drop_last(), b.drop_last(), id);
    }
}

/// Where an id is found, it is found at a position of the sequence holding it.
proof fn lemma_last_index_found(a: Seq<FeedItemModel>, id: Seq<char>)
    ensures
        last_index_of(a, id) matches Some(i) ==> 0 <= i < a.len() && a[i].id == id,
    decreases a.len(),
{
    if a.len() > 0 {
        lemma_last_index_found(a.drop_last(), id);
    }
}

/// Replacing the articles kept under a feed id keeps where that id is found.
proof fn lemma_collection_pos_update(m: CollectionsModel, id: i32, k: int, v: (i32, Seq<FeedItemModel>))
    requires
        0 <= k < m.len(),
        v.0 == m[k].0,
    ensures
        collection_pos(m.update(k, v), id) == collection_pos(m, id),
    decreases m.len(),
{
    let t = m.update(k, v);
    if k == 0 {
        assert(t.subrange(1, t.len() as int) =~= m.subrange(1, m.len() as int));
    } else {
        assert(t[0] == m[0]);
        let ms = m.subrange(1, m.len() as int);
        assert(t.subrange(1, t.len() as int) =~= ms.update(k - 1, v));
        lemma_collection_pos_update(ms, id, k - 1, v);
    }
}

/// Toggling where the selected feed's articles hold the article at `i`
/// changes that article's mark and the favourites list only.
proof fn lemma_toggled_at(st: StateModel, id: Seq<char>, fav: bool, fid: i32, k: int, i: int)
    requires
        st.selected_feed_index < st.feeds.len(),
        fid == st.feeds[st.selected_feed_index as int].id,
        collection_pos(st.feed_items, fid) == Some(k),
        last_index_of(st.feed_items[k].1, id) == Some(i),
    ensures
        favourite_toggled(st, id, fav) == (StateModel {
            feed_items: st.feed_items.update(
                k,
                (fid, st.feed_items[k].1.update(i, FeedItemModel { is_favourite: fav, ..st.feed_items[k].1[i] })),
            ),
            favourites: if fav {
                add_unique(st.favourites, id)
            } else {
                remove_all(st.favourites, id)
            },
            ..st
        }),
{
}

/// The round trip of a favourite mark where the selected feed's articles
/// hold the article at `i`.
proof fn lemma_round_trip_found(st: StateModel, id: Seq<char>, fid: i32, k: int, i: int)
    requires
        st.selected_feed_index < st.feeds.len(),
        fid == st.feeds[st.selected_feed_index as int].id,
        collection_pos(st.feed_items, fid) == Some(k),
        0 <= k < st.feed_items.len(),
        st.feed_items[k].0 == fid,
        last_index_of(st.feed_items[k].1, id) == Some(i),
        0 <= i < st.feed_items[k].1.len(),
        !st.feed_items[k].1[i].is_favourite,
        !st.favourites.contains(id),
    ensures
        favourite_toggled(favourite_toggled(st, id, true), id, false) == st,
{
    let items = st.feed_items[k].1;
    let items2 = items.update(i, FeedItemModel { is_favourite: true, ..items[i] });
    let st1 = favourite_toggled(st, id, true);
    assert(st1 == (StateModel {
        feed_items: st.feed_items.update(k, (fid, items2)),
        favourites: st.favourites.push(id),
        ..st
    })) by {
        lemma_toggled_at(st, id, true, fid, k, i);
    }
    lemma_collection_pos_update(st.feed_items, fid, k, (fid, items2));
    assert(last_index_of(st1.feed_items[k].1, id) == Some(i)) by {
        lemma_last_index_same_ids(items, items2, id);
    }
    let st2 = favourite_toggled(st1, id, false);
    assert(st2 == (StateModel {
        feed_items: st1.feed_items.update(k, (fid, items2.update(i, FeedItemModel { is_favourite: false, ..items2[i] }))),
        favourites: remove_all(st1.favourites, id),
        ..st1
    })) by {
        lemma_toggled_at(st1, id, false, fid, k, i);
    }
    assert(st2.feed_items =~= st.feed_items) by {
        assert(items2.update(i, FeedItemModel { is_favourite: false, ..items2[i] }) =~= items);
    }
    assert(st2.favourites == st.favourites) by {
        assert(st.favourites.push(id).drop_last() =~= st.favourites);
        lemma_remove_absent(st.favourites, id);
    }
}

/// Marking an article a favourite and then no longer one gives back the
/// state, where its id was not among the favourites and, where the selected
/// feed holds it, it was not marked.
pub proof fn lemma_favourite_round_trip(st: StateModel, id: Seq<char>)
    requires
        !st.favourites.contains(id),
        st.selected_feed_index < st.feeds.len() ==> (collection_pos(
            st.feed_items,
            st.feeds[st.selected_feed_index as int].id,
        ) matches Some(k) ==> (last_index_of(st.feed_items[k].1, id) matches Some(i)
            ==> !st.feed_items[k].1[i].is_favourite)),
    ensures
        favourite_toggled(favourite_toggled(st, id, true), id, false) == st,
{
    if st.selected_feed_index < st.feeds.len() {
        let fid = st.feeds[st.selected_feed_index as int].id;
        lemma_collection_pos_found(st.feed_items, fid);
        match collection_pos(st.feed_items, fid) {
            Some(k) => {
                lemma_last_index_found(st.feed_items[k].1, id);
                match last_index_of(st.feed_items[k].1, id) {
                    Some(i) => {
                        lemma_round_trip_found(st, id, fid, k, i);
                    },
                    None => {},
                }
            },
            None => {},
        }
    }
}

/// Removing every `x` keeps only elements of `s`, and keeps them distinct
/// where they were.
proof fn lemma_remove_all_sub(s: Seq<Seq<char>>, x: Seq<char>)
    ensures
        forall|i: int| 0 <= i < remove_all(s, x).len() ==> s.contains(#[trigger] remove_all(s, x)[i]),
        s.no_duplicates() ==> remove_all(s, x).no_duplicates(),
        !remove_all(s, x).contains(x),
    decreases s.len(),
{
    if s.len() > 0 {
        let t = s.drop_last();
        lemma_remove_all_sub(t, x);
        let r = remove_all(s, x);
        let rt = remove_all(t, x);
        assert forall|i: int| 0 <= i < r.len() implies s.contains(#[trigger] r[i]) by {
            if i < rt.len() {
                assert(r[i] == rt[i]);
                assert(t.contains(rt[i]));
                let w = choose|w: int| 0 <= w < t.len() && t[w] == rt[i];
                assert(s[w] == t[w]);
            } else {
                assert(s[s.len() - 1] == s.last());
            }
        }
        if s.no_duplicates() {
            assert(t.no_duplicates()) by {
                assert forall|a: int, b: int| 0 <= a < t.len() && 0 <= b < t.len() && a != b implies t[a] != t[b] by {
                    assert(t[a] == s[a] && t[b] == s[b]);
                }
            }
            if s.last() != x {
                assert(!rt.contains(s.last())) by {
                    if rt.contains(s.last()) {
                        let w = choose|w: int| 0 <= w < rt.len() && rt[w] == s.last();
                        assert(t.contains(rt[w]));
                        let v = choose|v: int| 0 <= v < t.len() && t[v] == rt[w];
                        assert(s[v] == s[s.len() - 1]);
                    }
                }
                assert forall|a: int, b: int| 0 <= a < r.len() && 0 <= b < r.len() && a != b implies r[a] != r[b] by {
                    if a < rt.len() && b < rt.len() {
                        assert(r[a] == rt[a] && r[b] == rt[b]);
                    } else if a < rt.len() {
                        assert(r[a] == rt[a]);
                    } else if b < rt.len() {
                        assert(r[b] == rt[b]);
                    }
                }
            }
        }
        assert(!r.contains(x)) by {
            if r.contains(x) {
                let w = choose|w: int| 0 <= w < r.len() && r[w] == x;
                if w < rt.len() {
                    assert(r[w] == rt[w]);
                }
            }
        }
    }
}

/// Toggling a favourite keeps every favourite id once: marking adds the id
/// only where it is missing, and unmarking removes every copy.
pub proof fn lemma_favourites_stay_distinct(st: StateModel, id: Seq<char>, fav: bool)
    requires
        st.favourites.no_duplicates(),
    ensures
        favourite_toggled(st, id, fav).favourites.no_duplicates(),
{
    lemma_remove_all_sub(st.favourites, id);
    if !st.favourites.contains(id) {
        let p = st.favourites.push(id);
        assert forall|a: int, b: int| 0 <= a < p.len() && 0 <= b < p.len() && a != b implies p[a] != p[b] by {
            if a < st.favourites.len() && b < st.favourites.len() {
            } else if a < st.favourites.len() {
                assert(p[a] == st.favourites[a]);
            } else {
                assert(p[b] == st.favourites[b]);
            }
        }
    }
}

/// Whether no feed id keys two article lists of `m`.
pub open spec fn keys_distinct(m: CollectionsModel) -> bool {
    forall|i: int, j: int| 0 <= i < j < m.len() ==> #[trigger] m[i].0 != #[trigger] m[j].0
}

/// Where no articles are kept under `id`, no entry has that key.
proof fn lemma_collection_pos_none(m: CollectionsModel, id: i32)
    ensures
        collection_pos(m, id) is None ==> forall|i: int| 0 <= i < m.len() ==> #[trigger] m[i].0 != id,
    decreases m.len(),
{
    if m.len() > 0 && m[0].0 != id {
        let t = m.subrange(1, m.len() as int);
        lemma_collection_pos_none(t, id);
        if collection_pos(m, id) is None {
            assert forall|i: int| 0 <= i < m.len() implies #[trigger] m[i].0 != id by {
                if i > 0 {
                    assert(m[i] == t[i - 1]);
                }
            }
        }
    }
}

/// Dropping the entries of a key keeps only entries of `m`, in order.
proof fn lemma_drop_collection_sub(m: CollectionsModel, id: i32)
    ensures
        forall|i: int|
            0 <= i < drop_collection(m, id).len() ==> exists|j: int|
                0 <= j < m.len() && #[trigger] drop_collection(m, id)[i] == m[j],
        keys_distinct(m) ==> keys_distinct(drop_collection(m, id)),
    decreases m.len(),
{
    if m.len() > 0 {
        let t = m.drop_last();
        lemma_drop_collection_sub(t, id);
        let d = drop_collection(m, id);
        let dt = drop_collection(t, id);
        assert forall|i: int| 0 <= i < d.len() implies exists|j: int| 0 <= j < m.len() && #[trigger] d[i] == m[j] by {
            if i < dt.len() {
                assert(d[i] == dt[i]);
                let j = choose|j: int| 0 <= j < t.len() && dt[i] == t[j];
                assert(m[j] == t[j]);
            } else {
                assert(d[i] == m[m.len() - 1]);
            }
        }
        if keys_distinct(m) {
            assert(keys_distinct(t)) by {
                assert forall|a: int, b: int| 0 <= a < b < t.len() implies #[trigger] t[a].0 != #[trigger] t[b].0 by {
                    assert(t[a] == m[a] && t[b] == m[b]);
                }
            }
            if m.last().0 != id {
                assert forall|a: int, b: int| 0 <= a < b < d.len() implies #[trigger] d[a].0 != #[trigger] d[b].0 by {
                    if b < dt.len() {
                        assert(d[a] == dt[a] && d[b] == dt[b]);
                    } else {
                        assert(d[a] == dt[a]);
                        let j = choose|j: int| 0 <= j < t.len() && dt[a] == t[j];
                        assert(m[j] == t[j]);
                        assert(d[b] == m[m.len() - 1]);
                    }
                }
            }
        }
    }
}

/// No feed id keys two article lists after any change of the state: adding a
/// feed replaces the list kept under its id or adds one, deleting a feed
/// drops its list, and a favourite mark changes an article in place.
pub proof fn lemma_keys_stay_distinct(st: StateModel, f: FeedModel, items: Seq<FeedItemModel>, id: Seq<char>, fav: bool)
    requires
        keys_distinct(st.feed_items),
    ensures
        keys_distinct(feed_added(st, f, items).feed_items),
        st.selected_feed_index < st.feeds.len() ==> keys_distinct(feed_deleted(st).feed_items),
        keys_distinct(favourite_toggled(st, id, fav).feed_items),
{
    let m = st.feed_items;
    lemma_collection_pos_found(m, f.id);
    lemma_collection_pos_none(m, f.id);
    let a = feed_added(st, f, items).feed_items;
    assert forall|i: int, j: int| 0 <= i < j < a.len() implies #[trigger] a[i].0 != #[trigger] a[j].0 by {
        match collection_pos(m, f.id) {
            Some(k) => {
                if i == k {
                    assert(m[j].0 != m[k].0);
                } else if j == k {
                    assert(m[i].0 != m[k].0);
                } else {
                    assert(a[i] == m[i] && a[j] == m[j]);
                }
            },
            None => {
                if j == m.len() {
                    assert(a[i] == m[i]);
                } else {
                    assert(a[i] == m[i] && a[j] == m[j]);
                }
            },
        }
    }
    if st.selected_feed_index < st.feeds.len() {
        lemma_drop_collection_sub(m, st.feeds[st.selected_feed_index as int].id);
    }
    if st.selected_feed_index < st.feeds.len() {
        let fid = st.feeds[st.selected_feed_index as int].id;
        lemma_collection_pos_found(m, fid);
        if let Some(k) = collection_pos(m, fid) {
            if let Some(n) = last_index_of(m[k].1, id) {
                let t = favourite_toggled(st, id, fav).feed_items;
                assert forall|i: int, j: int| 0 <= i < j < t.len() implies #[trigger] t[i].0 != #[trigger] t[j].0 by {
                    assert(t[i].0 == m[i].0 && t[j].0 == m[j].0);
                }
            }
        }
    }
}

/// The state after the command `c`, before the caller does the work it
/// hands back: opening an article, opening or closing the add-feed form and
/// selecting a source change it; other commands leave it.
pub open spec fn command_state(st: StateModel, c: CommandModel) -> StateModel {
    match c {
        CommandModel::OpenFeed(i) => open_feed(st, i),
        CommandModel::OpenAddFeedPopup => StateModel { overlay: Overlay::AddFeedPopup, ..st },
        CommandModel::CloseAddFeedPopup => StateModel { overlay: Overlay::Empty, ..st },
        CommandModel::SelectSource(src) => select_source(st, src),
        _ => st,
    }
}

/// The state after the background event `e`: a refresh that starts sets the
/// refresh mark, one that finishes or reports updates clears it.
pub open spec fn event_state(st: StateModel, e: AppEvent) -> StateModel {
    match e {
        AppEvent::BackgroundSyncStarted => StateModel { background_syncing: true, ..st },
        AppEvent::BackgroundSyncFinished => StateModel { background_syncing: false, ..st },
        AppEvent::FeedsUpdated(_) => StateModel { background_syncing: false, ..st },
        _ => st,
    }
}

/// The state after the commands `cs`, in order.
pub open spec fn commands_state(st: StateModel, cs: Seq<CommandModel>) -> StateModel
    decreases cs.len(),
{
    if cs.len() == 0 {
        st
    } else {
        command_state(commands_state(st, cs.drop_last()), cs.last())
    }
}

/// The state after the background events `es`, in order.
pub open spec fn events_state(st: StateModel, es: Seq<AppEvent>) -> StateModel
    decreases es.len(),
{
    if es.len() == 0 {
        st
    } else {
        event_state(events_state(st, es.drop_last()), es.last())
    }
}

/// What is shown above the screen after the commands `cs`, from `o`: what the
/// last opening or closing of the add-feed form left, or `o` where none came.
pub open spec fn overlay_after(o: Overlay, cs: Seq<CommandModel>) -> Overlay
    decreases cs.len(),
{
    if cs.len() == 0 {
        o
    } else {
        match cs.last() {
            CommandModel::OpenAddFeedPopup => Overlay::AddFeedPopup,
            CommandModel::CloseAddFeedPopup => Overlay::Empty,
            _ => overlay_after(o, cs.drop_last()),
        }
    }
}

/// The refresh mark after the events `es`, from `b`: set by the last start,
/// cleared by the last finish or report, or `b` where none came.
pub open spec fn syncing_after(b: bool, es: Seq<AppEvent>) -> bool
    decreases es.len(),
{
    if es.len() == 0 {
        b
    } else {
        match es.last() {
            AppEvent::BackgroundSyncStarted => true,
            AppEvent::BackgroundSyncFinished => false,
            AppEvent::FeedsUpdated(_) => false,
            _ => syncing_after(b, es.drop_last()),
        }
    }
}

proof fn lemma_commands_flags(st: StateModel, cs: Seq<CommandModel>)
    ensures
        commands_state(st, cs).overlay == overlay_after(st.overlay, cs),
        commands_state(st, cs).background_syncing == st.background_syncing,
    decreases cs.len(),
{
    if cs.len() > 0 {
        lemma_commands_flags(st, cs.drop_last());
    }
}

proof fn lemma_events_flags(st: StateModel, es: Seq<AppEvent>)
    ensures
        events_state(st, es).overlay == st.overlay,
        events_state(st, es).background_syncing == syncing_after(st.background_syncing, es),
    decreases es.len(),
{
    if es.len() > 0 {
        lemma_events_flags(st, es.drop_last());
    }
}

/// Draining the pending commands and then the pending background events, in
/// order: the add-feed form is open exactly where the last command that
/// opened or closed it opened it (as it was where none came), and the refresh
/// mark is set exactly where the last start, finish or update report was a
/// start (as it was where none came).
pub proof fn lemma_drain(st: StateModel, cs: Seq<CommandModel>, es: Seq<AppEvent>)
    ensures
        events_state(commands_state(st, cs), es).overlay == overlay_after(st.overlay, cs),
        events_state(commands_state(st, cs), es).background_syncing == syncing_after(
            st.background_syncing,
            es,
        ),
{
    lemma_commands_flags(st, cs);
    lemma_events_flags(commands_state(st, cs), es);
}

/// The work the caller does after a command or an event (a favourite mark,
/// a deletion, the articles of an added feed) changes neither what is shown
/// above the screen nor the refresh mark.
pub proof fn lemma_effects_keep_flags(
    st: StateModel,
    id: Seq<char>,
    fav: bool,
    f: FeedModel,
    items: Seq<FeedItemModel>,
)
    ensures
        favourite_toggled(st, id, fav).overlay == st.overlay,
        favourite_toggled(st, id, fav).background_syncing == st.background_syncing,
        feed_deleted(st).overlay == st.overlay,
        feed_deleted(st).background_syncing == st.background_syncing,
        feed_added(st, f, items).overlay == st.overlay,
        feed_added(st, f, items).background_syncing == st.background_syncing,
{
}

/// Moving down and then up in the theme selector comes back to the theme in
/// use, where the theme names are distinct and hold it.
pub proof fn lemma_theme_down_then_up(names: Seq<Seq<char>>, current: Seq<char>)
    requires
        names.no_duplicates(),
        names.contains(current),
    ensures
        ({
            let down = Event::Key(KeyEvent { code: KeyCode::Down, kind: KeyEventKind::Press, control: false, shift: false });
            let up = Event::Key(KeyEvent { code: KeyCode::Up, kind: KeyEventKind::Press, control: false, shift: false });
            theme_after(up, names, theme_after(down, names, current)) == current
        }),
{
    let w = choose|w: int| 0 <= w < names.len() && names[w] == current;
    assert forall|j: int| 0 <= j < w implies !(|x: Seq<char>| x == current)(#[trigger] names[j]) by {
        assert(names[j] != names[w]);
    }
    lemma_first_pos_found(names, |x: Seq<char>| x == current, w);
    let n = names.len() as int;
    let q = next_theme_pos(w, n);
    if w + 1 < n {
        assert(q == w + 1) by (nonlinear_arith)
            requires
                q == (w + 1) % n,
                0 <= w + 1 < n,
        ;
    } else {
        assert(q == 0) by (nonlinear_arith)
            requires
                q == (w + 1) % n,
                w + 1 == n,
                n > 0,
        ;
    }
    let next = names[q];
    assert forall|j: int| 0 <= j < q implies !(|x: Seq<char>| x == next)(#[trigger] names[j]) by {
        assert(names[j] != names[q]);
    }
    lemma_first_pos_found(names, |x: Seq<char>| x == next, q);
    assert(prev_theme_pos(q, n) == w);
}

/// The look of the application: the theme in use, its name, all themes by
/// name, and whether feeds are refreshed in the background at start.
#[derive(Clone, Debug)]
pub struct AppConfig {
    pub background_sync: bool,
    pub current_theme: Theme,
    pub current_theme_name: String,
    pub themes: ThemeRegistry,
}

/// The theme named `name` among `themes`, or the dark theme.
pub open spec fn theme_or_dark(themes: Map<Seq<char>, Theme>, name: Seq<char>) -> Theme {
    if themes.contains_key(name) {
        themes[name]
    } else {
        dark()
    }
}

impl AppConfig {
    /// The themes by name.
    pub closed spec fn themes_map(&self) -> Map<Seq<char>, Theme> {
        self.themes.view_map()
    }

    /// The registry of themes is well formed.
    pub closed spec fn wf(&self) -> bool {
        self.themes.wf()
    }

    /// The configuration from the stored settings and the known themes: the
    /// theme named in the settings, or the dark theme where it is unknown.
    pub fn new(settings: Settings, themes: ThemeRegistry) -> (c: AppConfig)
        requires
            themes.wf(),
        ensures
            c.wf(),
            c.themes_map() == themes.view_map(),
            c.background_sync == settings.background_sync,
            c.current_theme_name@ == settings.theme@,
            c.current_theme == theme_or_dark(themes.view_map(), settings.theme@),
    {
        let theme = match themes.get(&settings.theme) {
            Some(t) => t,
            None => dark_theme(),
        };
        AppConfig {
            background_sync: settings.background_sync,
            current_theme: theme,
            current_theme_name: settings.theme,
            themes,
        }
    }

    /// Uses `theme`.
    pub fn set_theme(&mut self, theme: Theme)
        ensures
            final(self).current_theme == theme,
            final(self).current_theme_name == old(self).current_theme_name,
            final(self).background_sync == old(self).background_sync,
            final(self).themes_map() == old(self).themes_map(),
            final(self).wf() == old(self).wf(),
    {
        self.current_theme = theme;
    }

    /// Uses the theme named by `current_theme_name`, or the dark theme where
    /// no theme has that name.
    pub fn update_theme(&mut self)
        requires
            old(self).wf(),
        ensures
            final(self).wf(),
            final(self).current_theme == theme_or_dark(
                old(self).themes_map(),
                old(self).current_theme_name@,
            ),
            final(self).current_theme_name == old(self).current_theme_name,
            final(self).background_sync == old(self).background_sync,
            final(self).themes_map() == old(self).themes_map(),
    {
        let theme = match self.themes.get(&self.current_theme_name) {
            Some(t) => t,
            None => dark_theme(),
        };
        self.set_theme(theme);
    }

    /// The names of all themes, in order, as the theme selector lists them.
    pub fn theme_names(&self) -> (r: Vec<String>)
        requires
            self.wf(),
        ensures
            crate::order::sorted(views(r@)),
            views(r@).to_multiset() == self.themes.names().to_multiset(),
            forall|i: int| 0 <= i < r.len() ==> self.themes.view_map().contains_key(#[trigger] r@[i]@),
    {
        let r = crate::order::sort_strings(&self.themes.name_list());
        proof {
            broadcast use vstd::seq_lib::group_to_multiset_ensures;
            self.themes.lemma_names_are_keys();
            assert forall|i: int| 0 <= i < r.len() implies self.themes.view_map().contains_key(#[trigger] r@[i]@) by {
                assert(views(r@)[i] == r@[i]@);
                assert(views(r@).contains(r@[i]@));
                assert(views(r@).to_multiset().count(r@[i]@) > 0);
            }
        }
        r
    }
}

/// What the caller does after a command: nothing, a background refresh of
/// all feeds, toggling an article's favourite mark in storage, or deleting a
/// feed from storage.
#[derive(Debug)]
pub enum CommandEffect {
    Nothing,
    StartSync,
    ToggleFavourite(String),
    DeleteFeed(i32),
}

/// What the caller does after a background event: nothing, loading the
/// articles of a feed just added, or reporting a failure.
#[derive(Debug)]
pub enum EventEffect {
    Nothing,
    LoadFeedItems(Feed),
    Report(String),
}

/// Where an input event goes: it was handled by the application itself, or
/// it goes to the current screen, or to the theme selector.
#[derive(Clone, Copy, Debug, PartialEq, Eq, Structural)]
pub enum Route {
    Handled,
    Screen,
    ThemeSelector,
}

/// The application: the current screen, whether it is to end, the shared
/// state and the configuration.
#[derive(Debug)]
pub struct App {
    pub current_screen: Screens,
    pub should_quit: bool,
    pub state: AppState,
    pub config: AppConfig,
}

/// Whether a command can be carried out: opening an article of a feed needs
/// that article to be loaded.
pub open spec fn command_ok(st: StateModel, cmd: &AppCommand) -> bool {
    match cmd {
        AppCommand::OpenFeed(i) => can_open(st, *i),
        _ => true,
    }
}

/// Whether the key `code` was pressed in `ev`.
pub open spec fn pressed(ev: Event, code: KeyCode) -> bool {
    ev matches Event::Key(k) && k.kind == KeyEventKind::Press && k.code == code
}

/// The theme that follows the one at `pos` among `n` names, going round.
pub open spec fn next_theme_pos(pos: int, n: int) -> int {
    (pos + 1) % n
}

/// The theme before the one at `pos` among `n` names, going round.
pub open spec fn prev_theme_pos(pos: int, n: int) -> int {
    if pos == 0 {
        n - 1
    } else {
        pos - 1
    }
}

/// Whether the theme selector can handle `ev` with the list `names` while
/// `current` is in use: moving down needs `current` among the names, and
/// moving up needs some name.
pub open spec fn theme_input_ok(ev: Event, names: Seq<Seq<char>>, current: Seq<char>) -> bool {
    &&& (pressed(ev, KeyCode::Down) || pressed(ev, KeyCode::Char('j'))) ==> names.contains(current)
    &&& (pressed(ev, KeyCode::Up) || pressed(ev, KeyCode::Char('k'))) ==> names.len() > 0
}

/// The name in use after the theme selector handled `ev`, with the list
/// `names` and `current` in use.
pub open spec fn theme_after(ev: Event, names: Seq<Seq<char>>, current: Seq<char>) -> Seq<char> {
    let p = theme_pos(names, current);
    if pressed(ev, KeyCode::Down) || pressed(ev, KeyCode::Char('j')) {
        names[next_theme_pos(p, names.len() as int)]
    } else if pressed(ev, KeyCode::Up) || pressed(ev, KeyCode::Char('k')) {
        names[prev_theme_pos(p, names.len() as int)]
    } else {
        current
    }
}

/// The first position of `current` among `names`, or 0 where it is not there.
pub open spec fn theme_pos(names: Seq<Seq<char>>, current: Seq<char>) -> int {
    match first_pos(names, |n: Seq<char>| n == current) {
        Some(p) => p,
        None => 0,
    }
}

impl App {
    /// The application at start: the home screen, with the feeds `feeds`
    /// (each with its count of articles from `collections`, taken in the same
    /// order), the favourite article ids `favourites` (each once), the first
    /// feed selected, and the configuration `config`. With no feed yet (a
    /// first run, before one is added) the feed source with id 0 is selected,
    /// which names no stored feed.
    pub fn new(
        feeds: Vec<Feed>,
        collections: Vec<FeedItemCollection>,
        favourites: Vec<String>,
        config: AppConfig,
    ) -> (app: App)
        requires
            collections@.len() == feeds@.len(),
        ensures
            app.current_screen == Screens::Home,
            !app.should_quit,
            app.config.wf() == config.wf(),
            app.config.current_theme == config.current_theme,
            app.config.current_theme_name == config.current_theme_name,
            app.config.background_sync == config.background_sync,
            app.state@.feeds.len() == feeds@.len(),
            forall|i: int|
                0 <= i < feeds@.len() ==> #[trigger] app.state@.feeds[i] == (FeedModel {
                    feed_count: collections@[i].model().len() as i32,
                    ..feeds@[i]@
                }),
            app.state@.feed_items.len() == feeds@.len(),
            forall|i: int|
                0 <= i < feeds@.len() ==> #[trigger] app.state@.feed_items[i] == (
                    feeds@[i].id,
                    collections@[i].model(),
                ),
            app.state@.favourites.to_set() == views(favourites@).to_set(),
            app.state@.favourites.no_duplicates(),
            app.state@.readlist.len() == 0,
            app.state@.selected_source == FeedSource::Feed(
                if feeds@.len() > 0 {
                    feeds@[0].id
                } else {
                    0
                },
            ),
            app.state@.selected_feed_index == 0,
            app.state@.selected_feed_item_id is None,
            !app.state@.background_syncing,
            app.state@.overlay == Overlay::Empty,
    {
        let first_id = if feeds.len() > 0 {
            feeds[0].id
        } else {
            0
        };
        let mut state_feeds: Vec<Feed> = Vec::new();
        let mut items: Vec<(i32, FeedItemCollection)> = Vec::new();
        let mut rest = collections;
        let mut i: usize = 0;
        while i < feeds.len()
            invariant
                i <= feeds.len(),
                rest@.len() == collections@.len(),
                collections@.len() == feeds@.len(),
                state_feeds@.len() == i,
                items@.len() == i,
                forall|k: int| i <= k < rest@.len() ==> #[trigger] rest@[k].model() == collections@[k].model(),
                forall|k: int|
                    0 <= k < i ==> #[trigger] state_feeds@[k]@ == (FeedModel {
                        feed_count: collections@[k].model().len() as i32,
                        ..feeds@[k]@
                    }),
                forall|k: int|
                    0 <= k < i ==> #[trigger] items@[k].0 == feeds@[k].id && items@[k].1.model()
                        == collections@[k].model(),
            decreases feeds.len() - i,
        {
            let c = rest[i].duplicate();
            let mut f = feeds[i].duplicate();
            f.feed_count = c.len() as i32;
            state_feeds.push(f);
            items.push((feeds[i].id, c));
            i = i + 1;
        }
        let mut favs: Vec<String> = Vec::new();
        let mut j: usize = 0;
        while j < favourites.len()
            invariant
                j <= favourites.len(),
                views(favs@).to_set() == views(favourites@).take(j as int).to_set(),
                views(favs@).no_duplicates(),
            decreases favourites.len() - j,
        {
            let ghost before = views(favs@);
            add_text(&mut favs, favourites[j].clone());
            proof {
                let x = favourites@[j as int]@;
                assert(views(favourites@).take(j + 1) =~= views(favourites@).take(j as int).push(x));
                if !before.contains(x) {
                    assert(views(favs@) == before.push(x));
                    assert forall|a: int, b: int| 0 <= a < b < views(favs@).len() implies views(favs@)[a]
                        != views(favs@)[b] by {
                        if b == before.len() {
                            assert(views(favs@)[a] == before[a]);
                        }
                    }
                    assert(views(favs@).to_set() =~= before.to_set().insert(x)) by {
                        broadcast use vstd::seq_lib::group_seq_properties;
                    }
                    assert(views(favourites@).take(j + 1).to_set() =~= views(favourites@).take(j as int).to_set().insert(x)) by {
                        broadcast use vstd::seq_lib::group_seq_properties;
                    }
                } else {
                    assert(views(favourites@).take(j + 1).to_set() =~= views(favourites@).take(j as int).to_set().insert(x)) by {
                        broadcast use vstd::seq_lib::group_seq_properties;
                    }
                    assert(before.to_set().contains(x)) by {
                        broadcast use vstd::seq_lib::group_seq_properties;
                    }
                    assert(before.to_set().insert(x) =~= before.to_set());
                }
            }
            j = j + 1;
        }
        assert(views(favourites@).take(favourites.len() as int) =~= views(favourites@));
        let state = AppState {
            feeds: state_feeds,
            feed_items: items,
            favourites: favs,
            readlist: Vec::new(),
            selected_source: FeedSource::Feed(first_id),
            selected_feed_index: 0,
            selected_feed_item_id: None,
            background_syncing: false,
            overlay: Overlay::Empty,
        };
        assert(state@.readlist =~= Seq::<Seq<char>>::empty());
        App { current_screen: Screens::Home, should_quit: false, state, config }
    }

    /// Carries out the command `cmd` and says what the caller still has to
    /// do: a refresh starts in the background, a favourite toggles in storage
    /// (then reported with [`AppState::favourite_toggled`]), and the selected
    /// feed, if there is one, is deleted in storage (then reported with
    /// [`AppState::feed_deleted`]).
    pub fn apply_command(&mut self, cmd: AppCommand) -> (e: CommandEffect)
        requires
            command_ok(old(self).state@, &cmd),
        ensures
            final(self).state@ == command_state(old(self).state@, cmd@),
            final(self).config.current_theme == old(self).config.current_theme,
            final(self).config.current_theme_name == old(self).config.current_theme_name,
            final(self).config.wf() == old(self).config.wf(),
            final(self).config.themes_map() == old(self).config.themes_map(),
            match cmd {
                AppCommand::Quit => final(self).should_quit && final(self).state@ == old(self).state@
                    && final(self).current_screen == old(self).current_screen && e is Nothing,
                AppCommand::Navigate(screen, _) => final(self).current_screen == screen
                    && final(self).state@ == old(self).state@ && final(self).should_quit
                    == old(self).should_quit && e is Nothing,
                AppCommand::OpenFeed(i) => final(self).current_screen == Screens::ViewFeed
                    && final(self).state@ == open_feed(old(self).state@, i) && final(self).should_quit
                    == old(self).should_quit && e is Nothing,
                AppCommand::OpenAddFeedPopup => final(self).state@ == (StateModel {
                    overlay: Overlay::AddFeedPopup,
                    ..old(self).state@
                }) && final(self).current_screen == old(self).current_screen && final(self).should_quit
                    == old(self).should_quit && e is Nothing,
                AppCommand::CloseAddFeedPopup => final(self).state@ == (StateModel {
                    overlay: Overlay::Empty,
                    ..old(self).state@
                }) && final(self).current_screen == old(self).current_screen && final(self).should_quit
                    == old(self).should_quit && e is Nothing,
                AppCommand::StartBackgroundSync => final(self).state@ == old(self).state@
                    && final(self).current_screen == old(self).current_screen && final(self).should_quit
                    == old(self).should_quit && e is StartSync,
                AppCommand::ToggleFeedItemFavourite(id) => final(self).state@ == old(self).state@
                    && final(self).current_screen == old(self).current_screen && final(self).should_quit
                    == old(self).should_quit && (e matches CommandEffect::ToggleFavourite(x) && x@ == id@),
                AppCommand::SelectSource(src) => final(self).state@ == select_source(old(self).state@, src)
                    && final(self).current_screen == old(self).current_screen && final(self).should_quit
                    == old(self).should_quit && e is Nothing,
                AppCommand::DeleteSelectedFeed => final(self).state@ == old(self).state@
                    && final(self).current_screen == old(self).current_screen && final(self).should_quit
                    == old(self).should_quit && if old(self).state@.selected_feed_index < old(
                    self,
                ).state@.feeds.len() {
                    e == CommandEffect::DeleteFeed(
                        old(self).state@.feeds[old(self).state@.selected_feed_index as int].id,
                    )
                } else {
                    e is Nothing
                },
            },
    {
        match cmd {
            AppCommand::Quit => {
                self.should_quit = true;
                CommandEffect::Nothing
            },
            AppCommand::Navigate(screen, _) => {
                self.current_screen = screen;
                CommandEffect::Nothing
            },
            AppCommand::OpenFeed(index) => {
                self.state.open_feed(index);
                self.current_screen = Screens::ViewFeed;
                CommandEffect::Nothing
            },
            AppCommand::OpenAddFeedPopup => {
                self.state.overlay = Overlay::AddFeedPopup;
                CommandEffect::Nothing
            },
            AppCommand::CloseAddFeedPopup => {
                self.state.overlay = Overlay::Empty;
                CommandEffect::Nothing
            },
            AppCommand::StartBackgroundSync => CommandEffect::StartSync,
            AppCommand::ToggleFeedItemFavourite(id) => CommandEffect::ToggleFavourite(id),
            AppCommand::SelectSource(src) => {
                self.state.select_source(src);
                CommandEffect::Nothing
            },
            AppCommand::DeleteSelectedFeed => {
                if self.state.selected_feed_index < self.state.feeds.len() {
                    assert(self.state@.feeds[self.state.selected_feed_index as int] == self.state.feeds@[self.state.selected_feed_index as int]@);
                    CommandEffect::DeleteFeed(self.state.feeds[self.state.selected_feed_index].id)
                } else {
                    CommandEffect::Nothing
                }
            },
        }
    }

    /// Takes in the background event `ev` and says what the caller still has
    /// to do: load the articles of a feed just added (then reported with
    /// [`AppState::feed_added`]) or report a failure to add one.
    pub fn apply_event(&mut self, ev: AppEvent) -> (e: EventEffect)
        ensures
            final(self).state@ == event_state(old(self).state@, ev),
            final(self).current_screen == old(self).current_screen,
            final(self).should_quit == old(self).should_quit,
            final(self).config.current_theme == old(self).config.current_theme,
            final(self).config.current_theme_name == old(self).config.current_theme_name,
            final(self).config.wf() == old(self).config.wf(),
            final(self).config.themes_map() == old(self).config.themes_map(),
            match ev {
                AppEvent::FeedAdded(f) => final(self).state@ == old(self).state@ && (e matches EventEffect::LoadFeedItems(g) && g@ == f@),
                AppEvent::FeedAddFailed(m) => final(self).state@ == old(self).state@ && (e matches EventEffect::Report(r) && r@ == m@),
                AppEvent::BackgroundSyncStarted => final(self).state@ == (StateModel {
                    background_syncing: true,
                    ..old(self).state@
                }) && e is Nothing,
                _ => final(self).state@ == (StateModel {
                    background_syncing: false,
                    ..old(self).state@
                }) && e is Nothing,
            },
    {
        match ev {
            AppEvent::FeedAdded(f) => EventEffect::LoadFeedItems(f),
            AppEvent::FeedAddFailed(m) => EventEffect::Report(m),
            AppEvent::BackgroundSyncStarted => {
                self.state.background_syncing = true;
                EventEffect::Nothing
            },
            AppEvent::BackgroundSyncFinished => {
                self.state.background_syncing = false;
                EventEffect::Nothing
            },
            AppEvent::FeedsUpdated(_) => {
                self.state.background_syncing = false;
                EventEffect::Nothing
            },
        }
    }

    /// Handles the keys that the application keeps for itself: with nothing
    /// shown above the screen, `t` opens the theme selector and Esc ends the
    /// application. Any other event goes to the theme selector while it is
    /// open, and to the current screen otherwise.
    pub fn route_event(&mut self, ev: &Event) -> (r: Route)
        ensures
            final(self).current_screen == old(self).current_screen,
            final(self).config.current_theme == old(self).config.current_theme,
            final(self).config.current_theme_name == old(self).config.current_theme_name,
            final(self).config.wf() == old(self).config.wf(),
            final(self).config.themes_map() == old(self).config.themes_map(),
            if old(self).state@.overlay == Overlay::Empty && pressed(*ev, KeyCode::Char('t')) {
                r == Route::Handled && final(self).state@ == (StateModel {
                    overlay: Overlay::ThemeSelector,
                    ..old(self).state@
                }) && final(self).should_quit == old(self).should_quit
            } else if old(self).state@.overlay == Overlay::Empty && pressed(*ev, KeyCode::Esc) {
                r == Route::Handled && final(self).state@ == old(self).state@ && final(self).should_quit
            } else {
                final(self).state@ == old(self).state@ && final(self).should_quit == old(self).should_quit
                    && r == if old(self).state@.overlay == Overlay::ThemeSelector {
                    Route::ThemeSelector
                } else {
                    Route::Screen
                }
            },
    {
        if let Event::Key(key) = ev {
            if key.kind == KeyEventKind::Press {
                match key.code {
                    KeyCode::Char('t') => {
                        if self.state.overlay == Overlay::Empty {
                            self.state.overlay = Overlay::ThemeSelector;
                            return Route::Handled;
                        }
                    },
                    KeyCode::Esc => {
                        if self.state.overlay == Overlay::Empty {
                            self.should_quit = true;
                            return Route::Handled;
                        }
                    },
                    _ => {},
                }
            }
        }
        match self.state.overlay {
            Overlay::ThemeSelector => Route::ThemeSelector,
            _ => Route::Screen,
        }
    }

    /// Handles `ev` in the theme selector over the theme names `names`: Esc
    /// closes it; Enter closes it and hands back the name in use, to be
    /// stored; Down or `j` moves to the theme after the first place of the
    /// name in use and Up or `k` to the one before it (before the first
    /// theme where the name is not listed), round the list, and uses it.
    pub fn theme_selector_input(&mut self, ev: &Event, names: &Vec<String>) -> (save: Option<String>)
        requires
            old(self).config.wf(),
            theme_input_ok(*ev, views(names@), old(self).config.current_theme_name@),
        ensures
            final(self).current_screen == old(self).current_screen,
            final(self).should_quit == old(self).should_quit,
            final(self).config.wf(),
            final(self).config.themes_map() == old(self).config.themes_map(),
            final(self).config.background_sync == old(self).config.background_sync,
            final(self).config.current_theme_name@ == theme_after(
                *ev,
                views(names@),
                old(self).config.current_theme_name@,
            ),
            (pressed(*ev, KeyCode::Down) || pressed(*ev, KeyCode::Char('j')) || pressed(*ev, KeyCode::Up)
                || pressed(*ev, KeyCode::Char('k'))) ==> final(self).config.current_theme
                == theme_or_dark(old(self).config.themes_map(), final(self).config.current_theme_name@),
            !(pressed(*ev, KeyCode::Down) || pressed(*ev, KeyCode::Char('j')) || pressed(*ev, KeyCode::Up)
                || pressed(*ev, KeyCode::Char('k'))) ==> final(self).config.current_theme
                == old(self).config.current_theme,
            if pressed(*ev, KeyCode::Esc) {
                final(self).state@ == (StateModel { overlay: Overlay::Empty, ..old(self).state@ })
                    && save is None
            } else if pressed(*ev, KeyCode::Enter) {
                final(self).state@ == (StateModel { overlay: Overlay::Empty, ..old(self).state@ })
                    && (save matches Some(n) && n@ == old(self).config.current_theme_name@)
            } else {
                final(self).state@ == old(self).state@ && save is None
            },
    {
        if let Event::Key(key) = ev {
            if key.kind == KeyEventKind::Press {
                match key.code {
                    KeyCode::Esc => {
                        self.state.overlay = Overlay::Empty;
                    },
                    KeyCode::Enter => {
                        let name = self.config.current_theme_name.clone();
                        self.state.overlay = Overlay::Empty;
                        return Some(name);
                    },
                    KeyCode::Down | KeyCode::Char('j') => {
                        let found = position_of(names, &self.config.current_theme_name);
                        assert(found is Some);
                        let pos = found.unwrap();
                        assert(pos < names.len());
                        let next = (pos + 1) % names.len();
                        self.config.current_theme_name = names[next].clone();
                        self.config.update_theme();
                    },
                    KeyCode::Up | KeyCode::Char('k') => {
                        let pos = match position_of(names, &self.config.current_theme_name) {
                            Some(p) => p,
                            None => 0,
                        };
                        let prev = if pos == 0 {
                            names.len() - 1
                        } else {
                            pos - 1
                        };
                        self.config.current_theme_name = names[prev].clone();
                        self.config.update_theme();
                    },
                    _ => {},
                }
            }
        }
        None
    }
}

} // verus!
