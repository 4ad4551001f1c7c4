//! The article screen, which shows the selected article's content as
//! paragraphs, and the screen that shows a fixed HTML sample.

use vstd::prelude::*;
use crate::app::{AppCommand, AppState, CollectionsModel, CommandModel, Screens, StateModel, collections_view, opt_command, opt_text};
use crate::event::{Event, KeyCode, KeyEvent, KeyEventKind};
use crate::feed_item::{FeedItem, FeedItemModel, FeedItemCollection, last_index_of};
use crate::paragraph::{ParagraphData, ParagraphModel, paragraphs_view, parse_html, rendered};
use crate::paragraph_list::{ParagraphList, recorded_height};
use crate::text::same_text;

verus! {

/// The article with id `id` in the first collection of `m` that holds it:
/// the last of that collection with that id.
pub open spec fn find_item(m: CollectionsModel, id: Seq<char>) -> Option<FeedItemModel>
    decreases m.len(),
{
    if m.len() == 0 {
        None
    } else {
        match last_index_of(m[0].1, id) {
            Some(i) => Some(m[0].1[i]),
            None => find_item(m.subrange(1, m.len() as int), id),
        }
    }
}

/// A copy of the article with id `id` in the first collection of `m` that
/// holds it.
pub fn find_article(m: &Vec<(i32, FeedItemCollection)>, id: &String) -> (r: Option<FeedItem>)
    ensures
        match r {
            Some(it) => find_item(collections_view(m@), id@) == Some(it@),
            None => find_item(collections_view(m@), id@) is None,
        },
{
    let ghost all = collections_view(m@);
    let mut k: usize = 0;
    assert(all.subrange(0, all.len() as int) =~= all);
    while k < m.len()
        invariant
            k <= m.len(),
            all == collections_view(m@),
            find_item(all.subrange(k as int, all.len() as int), id@) == find_item(all, id@),
        decreases m.len() - k,
    {
        let ghost rest = all.subrange(k as int, all.len() as int);
        proof {
            assert(rest[0] == all[k as int]);
            assert(rest.subrange(1, rest.len() as int) =~= all.subrange(k + 1, all.len() as int));
        }
        match m[k].1.index_of(id) {
            Some(i) => {
                let it = m[k].1.items[i].duplicate();
                return Some(it);
            },
            None => {},
        }
        k = k + 1;
    }
    None
}

/// The heights a list records for the paragraphs `ps`, in order.
pub open spec fn recorded_heights(ps: Seq<ParagraphModel>) -> Seq<u16> {
    Seq::new(ps.len(), |i: int| recorded_height(ps[i].lines.len()))
}

/// What a paragraph list shows, as a mathematical value: its paragraphs,
/// their recorded heights and how far it is scrolled.
pub struct ListModel {
    pub paragraphs: Seq<ParagraphModel>,
    pub heights: Seq<u16>,
    pub scroll: usize,
}

/// The list `l` as a mathematical value.
pub open spec fn list_view(l: ParagraphList) -> ListModel {
    ListModel { paragraphs: l.paragraphs_model(), heights: l.heights_spec(), scroll: l.scroll_spec() }
}

/// `l` scrolled one row down, staying at `usize::MAX` there.
pub open spec fn scrolled_down(l: ListModel) -> ListModel {
    ListModel {
        scroll: if l.scroll == usize::MAX {
            usize::MAX
        } else {
            (l.scroll + 1) as usize
        },
        ..l
    }
}

/// `l` scrolled one row up, staying at the top there.
pub open spec fn scrolled_up(l: ListModel) -> ListModel {
    ListModel {
        scroll: if l.scroll == 0 {
            0
        } else {
            (l.scroll - 1) as usize
        },
        ..l
    }
}

/// The article screen: the paragraphs of the article shown, and the id of
/// that article.
pub struct ViewFeed {
    pub content_list: ParagraphList,
    pub last_feed_id: Option<String>,
}

/// The article screen as a mathematical value.
pub struct ViewFeedModel {
    pub list: ListModel,
    pub last_feed_id: Option<Seq<char>>,
}

impl View for ViewFeed {
    type V = ViewFeedModel;

    open spec fn view(&self) -> ViewFeedModel {
        ViewFeedModel { list: list_view(self.content_list), last_feed_id: opt_text(self.last_feed_id) }
    }
}

/// The article that the screen `v` loads in the state `st`: the selected
/// one, where it is not the one shown already and some feed holds it.
pub open spec fn item_to_load(v: ViewFeedModel, st: StateModel) -> Option<FeedItemModel> {
    match st.selected_feed_item_id {
        Some(id) => if v.last_feed_id == Some(id) {
            None
        } else {
            find_item(st.feed_items, id)
        },
        None => None,
    }
}

/// The paragraphs shown of an article's content: none without content.
pub open spec fn content_paragraphs(content: Option<Seq<char>>) -> Seq<ParagraphModel> {
    match content {
        Some(c) => rendered(c)->0,
        None => Seq::empty(),
    }
}

/// Whether the article that `v` loads in `st`, if any, can be rendered.
pub open spec fn load_ok(v: ViewFeedModel, st: StateModel) -> bool {
    match item_to_load(v, st) {
        Some(item) => match item.content {
            Some(c) => rendered(c) is Some,
            None => true,
        },
        None => true,
    }
}

/// The screen `v` after following the state `st`: where it loads an article,
/// it shows that article's paragraphs from the top and remembers its id.
pub open spec fn synced(v: ViewFeedModel, st: StateModel) -> ViewFeedModel {
    match item_to_load(v, st) {
        Some(item) => {
            let ps = content_paragraphs(item.content);
            ViewFeedModel {
                list: ListModel { paragraphs: ps, heights: recorded_heights(ps), scroll: 0 },
                last_feed_id: st.selected_feed_item_id,
            }
        },
        None => v,
    }
}

/// Whether the key `code` toggles the shown article's favourite mark.
pub open spec fn is_favourite_key(code: KeyCode) -> bool {
    code == KeyCode::F(1) || code == KeyCode::Char('f')
}

/// Whether the article screen can handle `ev` in the state `st`: the article
/// it loads can be rendered, and toggling a favourite needs an article shown.
pub open spec fn view_input_ok(v: ViewFeedModel, ev: Event, st: StateModel) -> bool {
    &&& load_ok(v, st)
    &&& (ev matches Event::Key(k) && k.kind == KeyEventKind::Press && is_favourite_key(k.code))
        ==> synced(v, st).last_feed_id is Some
}

/// The article screen, and its request, after the event `ev` in the state
/// `st`: it follows the state first; then `s` goes home, `j` or Down and `k`
/// or Up scroll, `g` goes back to the top (Shift with `g` keeps the place),
/// and `f` or F1 toggles the shown article's favourite mark.
pub open spec fn view_step(v: ViewFeedModel, ev: Event, st: StateModel) -> (ViewFeedModel, Option<CommandModel>) {
    let v0 = synced(v, st);
    match ev {
        Event::Key(k) => if k.kind == KeyEventKind::Press {
            match k.code {
                KeyCode::Char('s') => (v0, Some(CommandModel::Navigate(Screens::Home, None))),
                KeyCode::Char('j') | KeyCode::Down => (
                    ViewFeedModel { list: scrolled_down(v0.list), ..v0 },
                    None,
                ),
                KeyCode::Char('k') | KeyCode::Up => (
                    ViewFeedModel { list: scrolled_up(v0.list), ..v0 },
                    None,
                ),
                KeyCode::Char('g') => (
                    if k.shift {
                        v0
                    } else {
                        ViewFeedModel { list: ListModel { scroll: 0, ..v0.list }, ..v0 }
                    },
                    None,
                ),
                KeyCode::F(1) | KeyCode::Char('f') => (
                    v0,
                    Some(CommandModel::ToggleFeedItemFavourite(v0.last_feed_id->0)),
                ),
                _ => (v0, None),
            }
        } else {
            (v0, None)
        },
        _ => (v0, None),
    }
}

/// In the article view, `g` without Shift goes back to the top of the
/// article, whatever the place: it shows what any key that does not move
/// would show (the article is followed first), scrolled to 0, and asks
/// nothing; `g` with Shift keeps the place.
pub proof fn lemma_back_to_top(v: ViewFeedModel, st: StateModel, k: KeyEvent)
    requires
        k.kind == KeyEventKind::Press,
        k.code == KeyCode::Char('g'),
    ensures
        ({
            let still = view_step(v, Event::Tick, st).0;
            let top = view_step(v, Event::Key(KeyEvent { shift: false, ..k }), st);
            let kept = view_step(v, Event::Key(KeyEvent { shift: true, ..k }), st);
            &&& top.0.list.scroll == 0
            &&& top.0.list.paragraphs == still.list.paragraphs
            &&& top.0.list.heights == still.list.heights
            &&& top.0.last_feed_id == still.last_feed_id
            &&& top.1 is None
            &&& kept.0 == still
            &&& kept.1 is None
        }),
{
}

impl ViewFeed {
    /// The article screen at start: no paragraphs and no article shown.
    pub fn new() -> (v: ViewFeed)
        ensures
            v@ == (ViewFeedModel {
                list: ListModel { paragraphs: Seq::empty(), heights: Seq::empty(), scroll: 0 },
                last_feed_id: None,
            }),
    {
        let v = ViewFeed { content_list: ParagraphList::new(Vec::new()), last_feed_id: None };
        proof {
            v.content_list.lemma_model();
            assert(v.content_list.paragraphs_model() =~= Seq::<ParagraphModel>::empty());
        }
        v
    }

    /// Shows the paragraphs `ps` from the top.
    fn show(&mut self, ps: Vec<ParagraphData>)
        ensures
            final(self).last_feed_id == old(self).last_feed_id,
            list_view(final(self).content_list) == (ListModel {
                paragraphs: paragraphs_view(ps@),
                heights: recorded_heights(paragraphs_view(ps@)),
                scroll: 0,
            }),
    {
        let ghost pv = paragraphs_view(ps@);
        self.content_list.set_paragraphs(ps);
        self.content_list.reset_scroll();
        proof {
            self.content_list.lemma_model();
            assert(self.content_list.heights_spec() =~= recorded_heights(pv));
        }
    }

    /// Follows the state `state`: where another article is selected and a
    /// feed holds it, shows its content's paragraphs from the top.
    pub fn sync_with_state(&mut self, state: &AppState)
        requires
            load_ok(old(self)@, state@),
        ensures
            final(self)@ == synced(old(self)@, state@),
    {
        let selected_id = match &state.selected_feed_item_id {
            Some(id) => id,
            None => return ,
        };
        if let Some(last) = &self.last_feed_id {
            if same_text(last.as_str(), selected_id.as_str()) {
                return ;
            }
        }
        match find_article(&state.feed_items, selected_id) {
            Some(item) => {
                match item.content {
                    Some(content) => {
                        match parse_html(content) {
                            Some(ps) => self.show(ps),
                            None => {
                                proof {
                                    assert(false);
                                }
                            },
                        }
                    },
                    None => {
                        let none: Vec<ParagraphData> = Vec::new();
                        assert(paragraphs_view(none@) =~= Seq::<ParagraphModel>::empty());
                        self.show(none);
                    },
                }
                self.last_feed_id = Some(selected_id.clone());
            },
            None => {},
        }
    }

    /// Handles the input event `event` while the application is in the state
    /// `state`, and returns the request it makes, if any (see [`view_step`]).
    pub fn handle_input(&mut self, event: &Event, state: &AppState) -> (r: Option<AppCommand>)
        requires
            view_input_ok(old(self)@, *event, state@),
        ensures
            final(self)@ == view_step(old(self)@, *event, state@).0,
            opt_command(r) == view_step(old(self)@, *event, state@).1,
    {
        self.sync_with_state(state);
        proof {
            self.content_list.lemma_model();
        }
        match event {
            Event::Key(key) => {
                if key.kind == KeyEventKind::Press {
                    match key.code {
                        KeyCode::Char('s') => Some(AppCommand::Navigate(Screens::Home, None)),
                        KeyCode::Char('j') | KeyCode::Down => {
                            self.content_list.scroll_down();
                            proof {
                                self.content_list.lemma_model();
                            }
                            None
                        },
                        KeyCode::Char('k') | KeyCode::Up => {
                            self.content_list.scroll_up();
                            proof {
                                self.content_list.lemma_model();
                            }
                            None
                        },
                        KeyCode::Char('g') => {
                            if key.shift {
                                self.content_list.scroll_bottom();
                            } else {
                                self.content_list.reset_scroll();
                            }
                            proof {
                                self.content_list.lemma_model();
                            }
                            None
                        },
                        KeyCode::F(1) | KeyCode::Char('f') => {
                            match &self.last_feed_id {
                                Some(id) => Some(AppCommand::ToggleFeedItemFavourite(id.clone())),
                                None => None,
                            }
                        },
                        _ => None,
                    }
                } else {
                    None
                }
            },
            _ => None,
        }
    }

    /// Whether [`ViewFeed::handle_input`] can handle `event` in `state`.
    pub fn accepts(&self, event: &Event, state: &AppState) -> (b: bool)
        ensures
            b == view_input_ok(self@, *event, state@),
    {
        let mut will_load = false;
        let mut load_fine = true;
        if let Some(id) = &state.selected_feed_item_id {
            let same = match &self.last_feed_id {
                Some(last) => same_text(last.as_str(), id.as_str()),
                None => false,
            };
            if !same {
                if let Some(item) = find_article(&state.feed_items, id) {
                    will_load = true;
                    if let Some(c) = item.content {
                        load_fine = parse_html(c).is_some();
                    }
                }
            }
        }
        let needs_id = match event {
            Event::Key(k) => k.kind == KeyEventKind::Press && (k.code == KeyCode::F(1) || k.code
                == KeyCode::Char('f')),
            _ => false,
        };
        load_fine && (!needs_id || will_load || self.last_feed_id.is_some())
    }

    /// Handles `event` as [`ViewFeed::handle_input`] does where it can, and
    /// otherwise leaves the screen as it was and returns `None`.
    pub fn try_handle_input(&mut self, event: &Event, state: &AppState) -> (r: Option<Option<AppCommand>>)
        ensures
            match r {
                Some(c) => view_input_ok(old(self)@, *event, state@) && final(self)@ == view_step(
                    old(self)@,
                    *event,
                    state@,
                ).0 && opt_command(c) == view_step(old(self)@, *event, state@).1,
                None => !view_input_ok(old(self)@, *event, state@) && final(self)@ == old(self)@,
            },
    {
        if self.accepts(event, state) {
            Some(self.handle_input(event, state))
        } else {
            None
        }
    }

    /// Leaves the screen: no paragraphs, back at the top, no article shown.
    pub fn reset(&mut self)
        ensures
            final(self)@ == (ViewFeedModel {
                list: ListModel { paragraphs: Seq::empty(), scroll: 0, ..old(self)@.list },
                last_feed_id: None,
            }),
    {
        self.content_list.clear();
        self.content_list.reset_scroll();
        self.last_feed_id = None;
        proof {
            self.content_list.lemma_model();
            assert(self.content_list.paragraphs_model() =~= Seq::<ParagraphModel>::empty());
        }
    }
}


/// The sample that the HTML screen shows: a numbered and a bulleted list of
/// five entries each, the last in bold.
pub const SAMPLE_HTML: &'static str = "\n<ol><li>First</li><li>Second</li><li>Third</li><li>Fourth</li><li><b>Fifth</b></li></ol>\n<ul><li>First</li><li>Second</li><li>Third</li><li>Fourth</li><li><b>Fifth</b></li></ul>\n    ";

/// The screen that shows the paragraphs of [`SAMPLE_HTML`].
pub struct TestHtml {
    pub list: ParagraphList,
}

/// The HTML screen's list, and its request, after the event `ev`: Esc ends
/// the application, `h` goes home, Down and Up scroll.
pub open spec fn test_html_step(l: ListModel, ev: Event) -> (ListModel, Option<CommandModel>) {
    match ev {
        Event::Key(k) => if k.kind == KeyEventKind::Press {
            match k.code {
                KeyCode::Esc => (l, Some(CommandModel::Quit)),
                KeyCode::Char('h') => (l, Some(CommandModel::Navigate(Screens::Home, None))),
                KeyCode::Down => (scrolled_down(l), None),
                KeyCode::Up => (scrolled_up(l), None),
                _ => (l, None),
            }
        } else {
            (l, None)
        },
        _ => (l, None),
    }
}

impl TestHtml {
    /// The HTML screen showing the paragraphs of [`SAMPLE_HTML`] from the
    /// top; `None` where the sample cannot be rendered.
    pub fn new() -> (t: Option<TestHtml>)
        ensures
            match t {
                Some(x) => rendered(SAMPLE_HTML@) == Some(list_view(x.list).paragraphs)
                    && list_view(x.list).scroll == 0 && list_view(x.list).heights == Seq::<u16>::empty(),
                None => rendered(SAMPLE_HTML@) is None,
            },
    {
        match parse_html(String::from_str(SAMPLE_HTML)) {
            Some(ps) => {
                let list = ParagraphList::new(ps);
                proof {
                    list.lemma_model();
                }
                Some(TestHtml { list })
            },
            None => None,
        }
    }

    /// Handles the input event `event` and returns the request it makes, if
    /// any (see [`test_html_step`]).
    pub fn handle_input(&mut self, event: &Event) -> (r: Option<AppCommand>)
        ensures
            list_view(final(self).list) == test_html_step(list_view(old(self).list), *event).0,
            opt_command(r) == test_html_step(list_view(old(self).list), *event).1,
    {
        proof {
            self.list.lemma_model();
        }
        match event {
            Event::Key(key) => {
                if key.kind == KeyEventKind::Press {
                    match key.code {
                        KeyCode::Esc => Some(AppCommand::Quit),
                        KeyCode::Char('h') => Some(AppCommand::Navigate(Screens::Home, None)),
                        KeyCode::Down => {
                            self.list.scroll_down();
                            proof {
                                self.list.lemma_model();
                            }
                            None
                        },
                        KeyCode::Up => {
                            self.list.scroll_up();
                            proof {
                                self.list.lemma_model();
                            }
                            None
                        },
                        _ => None,
                    }
                } else {
                    None
                }
            },
            _ => None,
        }
    }

    /// Leaves the screen: back at the top.
    pub fn reset(&mut self)
        ensures
            list_view(final(self).list) == (ListModel { scroll: 0, ..list_view(old(self).list) }),
    {
        proof {
            self.list.lemma_model();
        }
        self.list.reset_scroll();
        proof {
            self.list.lemma_model();
        }
    }
}

/// Following the state twice is following it once: an article already shown
/// is not loaded again.
pub proof fn lemma_synced_twice(v: ViewFeedModel, st: StateModel)
    ensures
        synced(synced(v, st), st) == synced(v, st),
{
}

/// Scrolling one row down and one row up comes back to the same place, short
/// of the largest scroll.
pub proof fn lemma_scroll_down_then_up(l: ListModel)
    requires
        l.scroll < usize::MAX,
    ensures
        scrolled_up(scrolled_down(l)) == l,
{
}

} // verus!
