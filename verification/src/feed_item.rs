//! Feed items (articles) and the collection of items of one feed.

use vstd::prelude::*;
use crate::channel::{ItemData, opt_view};
use crate::text::decimal;

verus! {

/// One article of a feed.
#[derive(Clone, Debug, PartialEq, Eq, Hash)]
pub struct FeedItem {
    pub id: String,
    pub feed_id: i32,
    pub link: String,
    pub title: String,
    pub summary: String,
    pub content: Option<String>,
    pub is_favourite: bool,
    pub in_readlist: bool,
}

/// An article as a mathematical value.
pub struct FeedItemModel {
    pub id: Seq<char>,
    pub feed_id: i32,
    pub link: Seq<char>,
    pub title: Seq<char>,
    pub summary: Seq<char>,
    pub content: Option<Seq<char>>,
    pub is_favourite: bool,
    pub in_readlist: bool,
}

impl View for FeedItem {
    type V = FeedItemModel;

    open spec fn view(&self) -> FeedItemModel {
        FeedItemModel {
            id: self.id@,
            feed_id: self.feed_id,
            link: self.link@,
            title: self.title@,
            summary: self.summary@,
            content: opt_view(self.content),
            is_favourite: self.is_favourite,
            in_readlist: self.in_readlist,
        }
    }
}

/// The views of a sequence of articles.
pub open spec fn items_view(v: Seq<FeedItem>) -> Seq<FeedItemModel> {
    v.map_values(|i: FeedItem| i@)
}

impl FeedItem {
    /// A copy of this article.
    pub fn duplicate(&self) -> (r: FeedItem)
        ensures
            r@ == self@,
    {
        FeedItem {
            id: self.id.clone(),
            feed_id: self.feed_id,
            link: self.link.clone(),
            title: self.title.clone(),
            summary: self.summary.clone(),
            content: match &self.content {
                Some(c) => Some(c.clone()),
                None => None,
            },
            is_favourite: self.is_favourite,
            in_readlist: self.in_readlist,
        }
    }
}

/// The last position in `items` of an article with the id `id`, if any.
pub open spec fn last_index_of(items: Seq<FeedItemModel>, id: Seq<char>) -> Option<int>
    decreases items.len(),
{
    if items.len() == 0 {
        None
    } else if items.last().id == id {
        Some(items.len() - 1)
    } else {
        last_index_of(items.drop_last(), id)
    }
}

/// The articles of one feed, looked up by id.
#[derive(Clone, Debug)]
pub struct FeedItemCollection {
    pub items: Vec<FeedItem>,
}

impl FeedItemCollection {
    /// The articles as mathematical values.
    pub open spec fn model(&self) -> Seq<FeedItemModel> {
        items_view(self.items@)
    }

    /// An empty collection.
    pub fn new() -> (c: FeedItemCollection)
        ensures
            c.model() == Seq::<FeedItemModel>::empty(),
    {
        let c = FeedItemCollection { items: Vec::new() };
        assert(c.model() =~= Seq::<FeedItemModel>::empty());
        c
    }

    /// The collection of the articles `items`, in order.
    pub fn from_items(items: Vec<FeedItem>) -> (c: FeedItemCollection)
        ensures
            c.model() == items_view(items@),
    {
        FeedItemCollection { items }
    }

    /// A copy of this collection.
    pub fn duplicate(&self) -> (r: FeedItemCollection)
        ensures
            r.model() == self.model(),
    {
        let mut items: Vec<FeedItem> = Vec::new();
        let mut i: usize = 0;
        while i < self.items.len()
            invariant
                i <= self.items.len(),
                items_view(items@) == self.model().take(i as int),
            decreases self.items.len() - i,
        {
            let ghost before = items_view(items@);
            items.push(self.items[i].duplicate());
            assert(items_view(items@) =~= before.push(self.items@[i as int]@));
            assert(self.model().take(i + 1) =~= self.model().take(i as int).push(self.items@[i as int]@));
            i = i + 1;
        }
        assert(self.model().take(self.items.len() as int) =~= self.model());
        FeedItemCollection { items }
    }

    /// The number of articles.
    pub fn len(&self) -> (n: usize)
        ensures
            n == self.model().len(),
    {
        self.items.len()
    }

    /// The position of the article with the id `id`: the last one where
    /// several share it.
    pub fn index_of(&self, id: &String) -> (r: Option<usize>)
        ensures
            match r {
                Some(i) => last_index_of(self.model(), id@) == Some(i as int) && i < self.model().len()
                    && self.model()[i as int].id == id@,
                None => last_index_of(self.model(), id@) is None,
            },
    {
        let ghost m = self.model();
        let mut i: usize = self.items.len();
        assert(m.take(m.len() as int) =~= m);
        while i > 0
            invariant
                i <= self.items.len(),
                m == self.model(),
                last_index_of(m.take(i as int), id@) == last_index_of(m, id@),
            decreases i,
        {
            let ghost t = m.take(i as int);
            assert(t.last() == self.items@[i - 1]@);
            assert(t.drop_last() =~= m.take(i - 1));
            if self.items[i - 1].id == *id {
                assert(self.model()[i - 1] == self.items@[i - 1]@);
                return Some(i - 1);
            }
            i = i - 1;
        }
        assert(m.take(0) =~= Seq::<FeedItemModel>::empty());
        None
    }

    /// Records whether the article at `index` is a favourite.
    pub fn set_favourite(&mut self, index: usize, favourite: bool)
        requires
            index < old(self).model().len(),
        ensures
            final(self).model() == old(self).model().update(
                index as int,
                FeedItemModel { is_favourite: favourite, ..old(self).model()[index as int] },
            ),
    {
        let mut item = self.items[index].duplicate();
        item.is_favourite = favourite;
        self.items.set(index, item);
        assert(self.model() =~= old(self).model().update(
            index as int,
            FeedItemModel { is_favourite: favourite, ..old(self).model()[index as int] },
        ));
    }
}

/// The digits of `n` with a minus sign in front where it is negative, as
/// `to_string` writes an integer.
pub open spec fn integer_text(n: int) -> Seq<char> {
    if n < 0 {
        seq!['-'] + decimal((-n) as nat)
    } else {
        decimal(n as nat)
    }
}

/// `n` as text.
pub fn i32_to_string(n: i32) -> (s: String)
    ensures
        s@ == integer_text(n as int),
{
    if n < 0 {
        let m = (-(n as i64)) as u64;
        let mut s = String::from_str("-");
        proof {
            reveal_strlit("-");
        }
        s.append(crate::text::decimal_string(m).as_str());
        assert(s@ =~= seq!['-'] + decimal((-n) as nat));
        s
    } else {
        crate::text::decimal_string(n as u64)
    }
}

/// An optional text, or nothing.
pub open spec fn or_empty(s: Option<Seq<char>>) -> Seq<char> {
    match s {
        Some(t) => t,
        None => seq![],
    }
}

fn text_or_empty(s: &Option<String>) -> (r: String)
    ensures
        r@ == or_empty(opt_view(*s)),
{
    match s {
        Some(t) => t.clone(),
        None => String::new(),
    }
}

/// The id an item is stored under: its guid, else its link, else nothing.
pub open spec fn item_id(i: ItemData) -> Seq<char> {
    match i.guid {
        Some(g) => g@,
        None => or_empty(opt_view(i.link)),
    }
}

impl FeedItem {
    /// The values stored for the item `item` of the feed with id `feed_id`, in
    /// column order: id, link, title, summary, content, publication date and feed id.
    pub fn get_feed_items_param(item: &ItemData, feed_id: String) -> (r: [String; 7])
        ensures
            r@[0]@ == item_id(*item),
            r@[1]@ == or_empty(item@.link),
            r@[2]@ == or_empty(item@.title),
            r@[3]@ == or_empty(item@.description),
            r@[4]@ == or_empty(item@.content),
            r@[5]@ == or_empty(item@.pub_date),
            r@[6]@ == feed_id@,
    {
        let id = match &item.guid {
            Some(g) => g.clone(),
            None => text_or_empty(&item.link),
        };
        [
            id,
            text_or_empty(&item.link),
            text_or_empty(&item.title),
            text_or_empty(&item.description),
            text_or_empty(&item.content),
            text_or_empty(&item.pub_date),
            feed_id,
        ]
    }
}

} // verus!
