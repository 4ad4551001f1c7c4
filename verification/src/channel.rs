//! The parts of an RSS channel that the reader keeps, read with the `rss` crate.

use vstd::prelude::*;
use rss::{Channel, Error};

verus! {

/// One item of a channel.
#[derive(Clone, Debug)]
pub struct ItemData {
    pub guid: Option<String>,
    pub link: Option<String>,
    pub title: Option<String>,
    pub description: Option<String>,
    pub content: Option<String>,
    pub pub_date: Option<String>,
}

/// The view of an optional string.
pub open spec fn opt_view(s: Option<String>) -> Option<Seq<char>> {
    match s {
        Some(t) => Some(t@),
        None => None,
    }
}

impl ItemData {
    /// An item of these fields.
    pub fn new(
        guid: Option<String>,
        link: Option<String>,
        title: Option<String>,
        description: Option<String>,
        content: Option<String>,
        pub_date: Option<String>,
    ) -> (i: ItemData)
        ensures
            i == (ItemData { guid, link, title, description, content, pub_date }),
    {
        ItemData { guid, link, title, description, content, pub_date }
    }
}

/// An item as a mathematical value.
pub struct ItemModel {
    pub guid: Option<Seq<char>>,
    pub link: Option<Seq<char>>,
    pub title: Option<Seq<char>>,
    pub description: Option<Seq<char>>,
    pub content: Option<Seq<char>>,
    pub pub_date: Option<Seq<char>>,
}

impl View for ItemData {
    type V = ItemModel;

    open spec fn view(&self) -> ItemModel {
        ItemModel {
            guid: opt_view(self.guid),
            link: opt_view(self.link),
            title: opt_view(self.title),
            description: opt_view(self.description),
            content: opt_view(self.content),
            pub_date: opt_view(self.pub_date),
        }
    }
}

/// A channel: its title, link and description, when it was last built, the
/// address of its image, and its items.
#[derive(Clone, Debug)]
pub struct ChannelData {
    pub title: String,
    pub link: String,
    pub description: String,
    pub last_build_date: Option<String>,
    pub image_url: Option<String>,
    pub items: Vec<ItemData>,
}

impl ChannelData {
    /// A channel of these fields.
    pub fn new(
        title: String,
        link: String,
        description: String,
        last_build_date: Option<String>,
        image_url: Option<String>,
        items: Vec<ItemData>,
    ) -> (c: ChannelData)
        ensures
            c == (ChannelData { title, link, description, last_build_date, image_url, items }),
    {
        ChannelData { title, link, description, last_build_date, image_url, items }
    }
}

/// A channel as a mathematical value.
pub struct ChannelModel {
    pub title: Seq<char>,
    pub link: Seq<char>,
    pub description: Seq<char>,
    pub last_build_date: Option<Seq<char>>,
    pub image_url: Option<Seq<char>>,
    pub items: Seq<ItemModel>,
}

impl View for ChannelData {
    type V = ChannelModel;

    open spec fn view(&self) -> ChannelModel {
        ChannelModel {
            title: self.title@,
            link: self.link@,
            description: self.description@,
            last_build_date: opt_view(self.last_build_date),
            image_url: opt_view(self.image_url),
            items: self.items@.map_values(|i: ItemData| i@),
        }
    }
}

/// Why a feed document could not be read.
#[derive(Clone, Copy, Debug, PartialEq, Eq, Structural)]
pub enum RssError {
    /// The bytes are not UTF-8.
    Utf8,
    /// The XML is malformed.
    Xml,
    /// The document does not begin with an `<rss>` (or RDF) element.
    InvalidStartTag,
    /// The document ends before a complete channel.
    Eof,
}

/// The view of a read result.
pub open spec fn channel_result_view(r: Result<ChannelData, RssError>) -> Result<ChannelModel, RssError> {
    match r {
        Ok(c) => Ok(c@),
        Err(e) => Err(e),
    }
}

/// What the `rss` crate's `Channel::read_from` makes of the bytes `body`.
pub uninterp spec fn rss_channel(body: Seq<u8>) -> Result<ChannelModel, RssError>;

/// A wrapper of `rss::Channel::read_from` on the bytes `body`. It keeps, of the
/// channel read, the title, link, description, last build date and image
/// address, and of each item its guid value, link, title, description,
/// content and publication date; an error is told apart by its kind. What
/// the XML reader makes of the bytes is named `rss_channel` and not written
/// out here.
#[verifier::external_body]
pub fn read_channel(body: &[u8]) -> (r: Result<ChannelData, RssError>)
    ensures
        channel_result_view(r) == rss_channel(body@),
{
    let item = |i: rss::Item| ItemData::new(i.guid.map(|g| g.value), i.link, i.title, i.description, i.content, i.pub_date);
    match Channel::read_from(body) {
        Ok(c) => Ok(ChannelData::new(c.title, c.link, c.description, c.last_build_date,
            c.image.map(|i| i.url), c.items.into_iter().map(item).collect())),
        Err(Error::Utf8(_)) => Err(RssError::Utf8),
        Err(Error::Xml(_)) => Err(RssError::Xml),
        Err(Error::InvalidStartTag) => Err(RssError::InvalidStartTag),
        Err(Error::Eof) => Err(RssError::Eof),
    }
}

} // verus!
