//! Feeds: what is kept of each subscribed channel, and what adding or
//! refreshing one records.

use vstd::prelude::*;
use crate::channel::{ChannelData, ChannelModel, ItemData, RssError, channel_result_view, opt_view, read_channel, rss_channel};

verus! {

/// Where the article list takes its items from: one feed, the favourites or
/// the reading list.
#[derive(Clone, Copy, Debug, PartialEq, Eq, Structural)]
pub enum FeedSource {
    Feed(i32),
    Favourites,
    Readlist,
}

/// A subscribed feed.
#[derive(Clone, Default, Debug)]
pub struct Feed {
    pub id: i32,
    pub title: String,
    pub subtitle: String,
    pub url: String,
    pub feed_count: i32,
}

/// A feed as a mathematical value.
pub struct FeedModel {
    pub id: i32,
    pub title: Seq<char>,
    pub subtitle: Seq<char>,
    pub url: Seq<char>,
    pub feed_count: i32,
}

impl View for Feed {
    type V = FeedModel;

    open spec fn view(&self) -> FeedModel {
        FeedModel {
            id: self.id,
            title: self.title@,
            subtitle: self.subtitle@,
            url: self.url@,
            feed_count: self.feed_count,
        }
    }
}

/// The views of a sequence of feeds.
pub open spec fn feeds_view(v: Seq<Feed>) -> Seq<FeedModel> {
    v.map_values(|f: Feed| f@)
}

impl Feed {
    /// A feed of these fields.
    pub fn new(id: i32, title: String, subtitle: String, url: String, feed_count: i32) -> (f: Feed)
        ensures
            f@ == (FeedModel { id, title: title@, subtitle: subtitle@, url: url@, feed_count }),
    {
        Feed { id, title, subtitle, url, feed_count }
    }

    /// A copy of this feed.
    pub fn duplicate(&self) -> (f: Feed)
        ensures
            f@ == self@,
    {
        Feed {
            id: self.id,
            title: self.title.clone(),
            subtitle: self.subtitle.clone(),
            url: self.url.clone(),
            feed_count: self.feed_count,
        }
    }

    /// Whether a background refresh fetches this feed: only a feed with an
    /// address is fetched.
    pub fn is_fetchable(&self) -> (b: bool)
        ensures
            b == (self@.url.len() > 0),
    {
        !self.url.as_str().is_empty()
    }
}

/// Whether `c` is a decimal digit.
pub open spec fn is_digit(c: char) -> bool {
    '0' <= c <= '9'
}

/// Whether `s` reads as a time in [`DEFAULT_DATE_FORMAT`]: a year of four
/// digits, or a sign and at least four digits, then `-MM-DD HH:MM:SS` with
/// two digits in each place.
pub open spec fn is_timestamp(s: Seq<char>) -> bool {
    let y = s.len() - 15;
    &&& s.len() >= 19
    &&& (y == 4 && forall|i: int| 0 <= i < 4 ==> is_digit(#[trigger] s[i])) || ((s[0] == '+' || s[0]
        == '-') && forall|i: int| 1 <= i < y ==> is_digit(#[trigger] s[i]))
    &&& s[y] == '-' && s[y + 3] == '-' && s[y + 6] == ' ' && s[y + 9] == ':' && s[y + 12] == ':'
    &&& forall|k: int|
        0 <= k < 15 && k != 0 && k != 3 && k != 6 && k != 9 && k != 12 ==> is_digit(#[trigger] s[y + k])
}

/// A wrapper of chrono's `Local::now()` formatted with `format`, which must be
/// [`DEFAULT_DATE_FORMAT`]: the current local time as text. Which time it
/// gives depends on the clock and the time zone, so only its shape is stated:
/// chrono writes `%Y` as four digits, or with a sign where the year is not in
/// 0..=9999, and `%m`, `%d`, `%H`, `%M`, `%S` as two digits each.
#[verifier::external_body]
pub(crate) fn local_time_now(format: &str) -> (r: String)
    requires
        format@ == DEFAULT_DATE_FORMAT@,
    ensures
        is_timestamp(r@),
{
    chrono::offset::Local::now().format(format).to_string()
}

/// The format of the times the reader records itself.
pub const DEFAULT_DATE_FORMAT: &'static str = "%Y-%m-%d %H:%M:%S";

/// The time a channel reports as its last build, or else the current time.
pub fn last_updated_or_now(last_build_date: &Option<String>) -> (r: String)
    ensures
        last_build_date matches Some(d) ==> r@ == d@,
        last_build_date is None ==> is_timestamp(r@),
{
    match last_build_date {
        Some(d) => d.clone(),
        None => local_time_now(DEFAULT_DATE_FORMAT),
    }
}

/// What is recorded of a feed when it is added.
#[derive(Clone, Debug)]
pub struct NewFeed {
    pub title: String,
    pub subtitle: String,
    pub url: String,
    pub image: String,
    pub last_updated: String,
}

/// The title of a new feed: the one the user gave, or the channel's own
/// where none was given.
pub open spec fn new_feed_title(title: Seq<char>, c: ChannelModel) -> Seq<char> {
    if title.len() == 0 {
        c.title
    } else {
        title
    }
}

/// The image address of a channel, or nothing.
pub open spec fn image_address(c: ChannelModel) -> Seq<char> {
    match c.image_url {
        Some(u) => u,
        None => seq![],
    }
}

impl NewFeed {
    /// The record of a new feed at `url`: the title the user gave, or the
    /// channel's own where none was given; the channel's description as its
    /// subtitle; its image address, or nothing; and its last build time, or
    /// the current time.
    pub fn from_channel(title: String, url: String, channel: &ChannelData) -> (r: NewFeed)
        ensures
            r.title@ == new_feed_title(title@, channel@),
            r.subtitle@ == channel@.description,
            r.url@ == url@,
            r.image@ == image_address(channel@),
            channel@.last_build_date matches Some(d) ==> r.last_updated@ == d,
            channel@.last_build_date is None ==> is_timestamp(r.last_updated@),
    {
        let title = if title.as_str().is_empty() {
            channel.title.clone()
        } else {
            title
        };
        let image = match &channel.image_url {
            Some(u) => u.clone(),
            None => String::new(),
        };
        NewFeed {
            title,
            subtitle: channel.description.clone(),
            url,
            image,
            last_updated: last_updated_or_now(&channel.last_build_date),
        }
    }
}

/// Why a feed could not be added.
#[derive(Clone, Copy, Debug, PartialEq, Eq, Structural)]
pub enum FeedError {
    /// The document at the address is not a feed that could be read.
    Unreadable(RssError),
}

/// Reads the document `body` fetched from `url` as a new feed titled `title`:
/// its record and its items, or why it could not be read.
pub fn read_new_feed(title: String, url: String, body: &[u8]) -> (r: Result<(NewFeed, Vec<ItemData>), FeedError>)
    ensures
        match rss_channel(body@) {
            Ok(c) => match r {
                Ok((f, items)) => {
                    &&& items@.map_values(|i: ItemData| i@) == c.items
                    &&& f.title@ == new_feed_title(title@, c)
                    &&& f.subtitle@ == c.description
                    &&& f.url@ == url@
                    &&& f.image@ == image_address(c)
                    &&& (c.last_build_date matches Some(d) ==> f.last_updated@ == d)
                    &&& (c.last_build_date is None ==> is_timestamp(f.last_updated@))
                },
                Err(_) => false,
            },
            Err(e) => r == Err::<(NewFeed, Vec<ItemData>), FeedError>(FeedError::Unreadable(e)),
        },
{
    match read_channel(body) {
        Ok(channel) => {
            let record = NewFeed::from_channel(title, url, &channel);
            Ok((record, channel.items))
        },
        Err(e) => Err(FeedError::Unreadable(e)),
    }
}

/// What is recorded of a feed when it is refreshed: its title, description
/// and last update time, under the address the channel gives.
#[derive(Clone, Debug)]
pub struct FeedUpdate {
    pub title: String,
    pub description: String,
    pub last_updated: String,
    pub url: String,
}

impl FeedUpdate {
    /// The refresh record of the channel `channel`.
    pub fn from_channel(channel: &ChannelData) -> (r: FeedUpdate)
        ensures
            r.title@ == channel@.title,
            r.description@ == channel@.description,
            r.url@ == channel@.link,
            channel@.last_build_date matches Some(d) ==> r.last_updated@ == d,
            channel@.last_build_date is None ==> is_timestamp(r.last_updated@),
    {
        FeedUpdate {
            title: channel.title.clone(),
            description: channel.description.clone(),
            last_updated: last_updated_or_now(&channel.last_build_date),
            url: channel.link.clone(),
        }
    }
}

/// The number of items a channel holds, as the reader counts them in 32 bits.
pub open spec fn item_count(c: ChannelModel) -> i32 {
    c.items.len() as i32
}

/// Whether a background refresh rewrites a feed that has `stored` items
/// recorded and now publishes the channel `channel`: only when the counts differ.
pub fn needs_update(stored: i32, channel: &ChannelData) -> (b: bool)
    ensures
        b == (stored != item_count(channel@)),
{
    stored != channel.items.len() as i32
}

/// The ids of the feeds of `feeds` that a background refresh rewrote, in
/// order, where `outcomes[i]` is what it learnt of `feeds[i]`: nothing where
/// the feed was not fetched or not read, or the count of articles it had
/// stored and the count the channel now has. A feed is rewritten where it has
/// an address and the two counts differ.
pub open spec fn refreshed(feeds: Seq<FeedModel>, outcomes: Seq<Option<(i32, usize)>>) -> Seq<i32>
    decreases feeds.len(),
{
    if feeds.len() == 0 || outcomes.len() == 0 {
        Seq::empty()
    } else {
        let rest = refreshed(feeds.drop_last(), outcomes.drop_last());
        let f = feeds.last();
        match outcomes.last() {
            Some((stored, n)) if f.url.len() > 0 && stored != n as i32 => rest.push(f.id),
            _ => rest,
        }
    }
}

/// The ids of the feeds that a background refresh rewrote (see
/// [`refreshed`]).
pub fn refreshed_ids(feeds: &Vec<Feed>, outcomes: &Vec<Option<(i32, usize)>>) -> (r: Vec<i32>)
    requires
        feeds.len() == outcomes.len(),
    ensures
        r@ == refreshed(feeds_view(feeds@), outcomes@),
{
    let mut r: Vec<i32> = Vec::new();
    let mut i: usize = 0;
    while i < feeds.len()
        invariant
            i <= feeds.len(),
            feeds.len() == outcomes.len(),
            r@ == refreshed(feeds_view(feeds@).take(i as int), outcomes@.take(i as int)),
        decreases feeds.len() - i,
    {
        let ghost fs = feeds_view(feeds@).take(i + 1);
        let ghost os = outcomes@.take(i + 1);
        assert(fs.drop_last() =~= feeds_view(feeds@).take(i as int));
        assert(os.drop_last() =~= outcomes@.take(i as int));
        assert(fs.last() == feeds@[i as int]@);
        assert(os.last() == outcomes@[i as int]);
        match outcomes[i] {
            Some((stored, n)) => {
                if feeds[i].is_fetchable() && stored != n as i32 {
                    r.push(feeds[i].id);
                }
            },
            None => {},
        }
        i = i + 1;
    }
    assert(feeds_view(feeds@).take(feeds.len() as int) =~= feeds_view(feeds@));
    assert(outcomes@.take(feeds.len() as int) =~= outcomes@);
    r
}

/// The feed with id `id` recorded from `record` with `count` items.
pub fn added_feed(id: i32, record: &NewFeed, count: usize) -> (f: Feed)
    ensures
        f@ == (FeedModel {
            id,
            title: record.title@,
            subtitle: record.subtitle@,
            url: record.url@,
            feed_count: count as i32,
        }),
{
    Feed::new(id, record.title.clone(), record.subtitle.clone(), record.url.clone(), count as i32)
}

} // verus!
