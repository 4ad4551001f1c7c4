//! What the widgets show, worked out before they are drawn: the sidebar's
//! navigation entries, the key tips of each screen, and the texts of the
//! header, the add-feed form and the article screen.

use vstd::prelude::*;
use crate::app::Screens;
use crate::feed_item::{i32_to_string, integer_text};
use crate::text::{chars_of, concat_text, decimal, decimal_string, push_char};
use crate::theme::Theme;
use vstd::utf8::{encode_scalar, encode_utf8};

verus! {

/// A widget that can take the keys, and that may have parts that take them
/// in turn.
pub trait Focusable {
    fn focus(&mut self);

    fn blur(&mut self);

    fn get_child_focused_index(&self) -> Option<usize>;

    fn set_child_focused_index(&mut self, index: Option<usize>);
}

/// A widget that keeps a state of type `T`, updates it from input events and
/// names its parts.
pub trait WidgetExt<T>: Focusable {
    fn update(&mut self, state: T);

    fn handle_input(&mut self, state: &T, event: &crate::event::Event) -> Option<T>;

    fn get_child_widgets(&self) -> Option<Vec<String>>;
}

/// An entry of the sidebar's navigation: an icon, a label and a count.
#[derive(Clone, Copy, Debug)]
pub struct NavigationItem {
    pub icon: &'static str,
    pub label: &'static str,
    pub count: usize,
}

/// The sidebar's three navigation entries: all articles with the count of
/// feeds, the favourites and the reading list with their counts.
pub fn navigation_items(feed_count: usize, favourite_count: usize, readlist_count: usize) -> (r: [NavigationItem; 3])
    ensures
        r[0].icon@ == "\u{f09e}"@ && r[0].label@ == "All Articles"@ && r[0].count == feed_count,
        r[1].icon@ == "\u{f005}"@ && r[1].label@ == "Favorites"@ && r[1].count == favourite_count,
        r[2].icon@ == "\u{f187}"@ && r[2].label@ == "Reading List"@ && r[2].count == readlist_count,
{
    [
        NavigationItem { icon: "\u{f09e}", label: "All Articles", count: feed_count },
        NavigationItem { icon: "\u{f005}", label: "Favorites", count: favourite_count },
        NavigationItem { icon: "\u{f187}", label: "Reading List", count: readlist_count },
    ]
}

impl NavigationItem {
    /// The entry's text: its icon, a space and its label.
    pub fn text(&self) -> (r: String)
        ensures
            r@ == self.icon@ + " "@ + self.label@,
    {
        let head = concat_text(self.icon, " ");
        concat_text(head.as_str(), self.label)
    }

    /// The entry's count in square brackets.
    pub fn count_text(&self) -> (r: String)
        ensures
            r@ == "["@ + decimal(self.count as nat) + "]"@,
    {
        let digits = decimal_string(self.count as u64);
        let head = concat_text("[", digits.as_str());
        concat_text(head.as_str(), "]")
    }
}

/// A key and what it does, as the footer shows it.
#[derive(Clone, Debug)]
pub struct KeyBinding {
    pub key: String,
    pub label: String,
}

/// The key tips that the footer shows on `screen`: none on the HTML screen.
pub fn screen_tips(screen: Screens) -> (r: Option<Vec<KeyBinding>>)
    ensures
        match screen {
            Screens::Home => r matches Some(v) && v@.len() == 2 && v@[0].key@ == "J/K"@
                && v@[0].label@ == "Navigate"@ && v@[1].key@ == "Enter"@ && v@[1].label@ == "Read"@,
            Screens::ViewFeed => r matches Some(v) && v@.len() == 1 && v@[0].key@ == "F1"@
                && v@[0].label@ == "Add to Fav"@,
            Screens::TestHtml => r is None,
        },
{
    match screen {
        Screens::Home => {
            let mut v: Vec<KeyBinding> = Vec::new();
            v.push(KeyBinding { key: String::from_str("J/K"), label: String::from_str("Navigate") });
            v.push(KeyBinding { key: String::from_str("Enter"), label: String::from_str("Read") });
            Some(v)
        },
        Screens::ViewFeed => {
            let mut v: Vec<KeyBinding> = Vec::new();
            v.push(KeyBinding { key: String::from_str("F1"), label: String::from_str("Add to Fav") });
            Some(v)
        },
        Screens::TestHtml => None,
    }
}

/// The text of the header's search field: the search text, or a hint where
/// none is typed, with a space on each side.
pub fn search_label(query: &str) -> (r: String)
    ensures
        r@ == " "@ + (if query@.len() == 0 {
            " Press '/' to Search "@
        } else {
            query@
        }) + " "@,
{
    let shown = if query.is_empty() {
        " Press '/' to Search "
    } else {
        query
    };
    let head = concat_text(" ", shown);
    concat_text(head.as_str(), " ")
}

/// The text of a field of the add-feed form, after a space: what is typed,
/// or `placeholder` where nothing is; and whether the placeholder is shown
/// (it is drawn dimmed).
pub fn input_label(text: &str, placeholder: &str) -> (r: (String, bool))
    ensures
        r.1 == (text@.len() == 0),
        r.0@ == " "@ + if r.1 {
            placeholder@
        } else {
            text@
        },
{
    if text.is_empty() {
        (concat_text(" ", placeholder), true)
    } else {
        (concat_text(" ", text), false)
    }
}

/// The mark shown beside an article's title: a filled one for a favourite.
pub fn favourite_icon(is_favourite: bool) -> (r: &'static str)
    ensures
        r@ == if is_favourite {
            "\u{ec04}"@
        } else {
            "\u{eb05}"@
        },
{
    if is_favourite {
        "\u{ec04}"
    } else {
        "\u{eb05}"
    }
}

/// The width the footer gives a key tip: the bytes of its key and of its
/// label and three more, kept to sixteen bits.
pub fn tip_width(b: &KeyBinding) -> (w: u16)
    requires
        encode_utf8(b.key@).len() + encode_utf8(b.label@).len() + 3 <= usize::MAX,
    ensures
        w == ((encode_utf8(b.key@).len() + encode_utf8(b.label@).len() + 3) as u16),
{
    let n = b.key.as_str().len() + b.label.as_str().len() + 3;
    n as u16
}

/// The two lines of an article in the article list: its title and its
/// summary, indented and followed by a space.
pub fn feed_item_lines(title: &str, summary: &str) -> (r: (String, String))
    ensures
        r.0@ == "  "@ + title@ + " "@,
        r.1@ == "   "@ + summary@ + " "@,
{
    let t = concat_text("  ", title);
    let s = concat_text("   ", summary);
    (concat_text(t.as_str(), " "), concat_text(s.as_str(), " "))
}

/// The add-feed form as drawn: the typed title and address, the theme, and
/// which of its three places (title, address, button) is active.
#[derive(Clone, Debug)]
pub struct AddFeed {
    pub feed_title_text: String,
    pub feed_url_text: String,
    pub current_theme: Theme,
    pub focused_index: usize,
}

impl AddFeed {
    /// The form with these fields.
    pub fn new(feed_title_text: String, feed_url_text: String, focused_index: usize, current_theme: Theme) -> (a: AddFeed)
        ensures
            a.feed_title_text@ == feed_title_text@,
            a.feed_url_text@ == feed_url_text@,
            a.focused_index == focused_index,
            a.current_theme == current_theme,
    {
        AddFeed { feed_title_text, feed_url_text, current_theme, focused_index }
    }

    /// The title field: its text, whether the hint is shown, and whether it
    /// is active.
    pub fn title_input(&self) -> (r: (String, bool, bool))
        ensures
            r.1 == (self.feed_title_text@.len() == 0),
            r.0@ == " "@ + if r.1 {
                "Enter feed title"@
            } else {
                self.feed_title_text@
            },
            r.2 == (self.focused_index == 0),
    {
        let (t, dim) = input_label(self.feed_title_text.as_str(), "Enter feed title");
        (t, dim, self.focused_index == 0)
    }

    /// The address field: its text, whether the hint is shown, and whether
    /// it is active.
    pub fn url_input(&self) -> (r: (String, bool, bool))
        ensures
            r.1 == (self.feed_url_text@.len() == 0),
            r.0@ == " "@ + if r.1 {
                "Enter feed url"@
            } else {
                self.feed_url_text@
            },
            r.2 == (self.focused_index == 1),
    {
        let (t, dim) = input_label(self.feed_url_text.as_str(), "Enter feed url");
        (t, dim, self.focused_index == 1)
    }

    /// Whether the button that adds the feed is active.
    pub fn button_focused(&self) -> (b: bool)
        ensures
            b == (self.focused_index == 2),
    {
        self.focused_index == 2
    }
}

/// The bytes of the UTF-8 text of `s`.
pub open spec fn byte_len(s: Seq<char>) -> nat {
    encode_utf8(s).len()
}

/// Whether `b` bytes of `s` end at the end of a character.
pub open spec fn is_boundary(s: Seq<char>, b: int) -> bool {
    exists|m: int| 0 <= m <= s.len() && byte_len(s.take(m)) == b
}

/// The characters of `s` that fill its first `b` bytes.
pub open spec fn byte_prefix(s: Seq<char>, b: int) -> Seq<char> {
    s.take(choose|m: int| 0 <= m <= s.len() && byte_len(s.take(m)) == b)
}

/// The columns the sidebar keeps beside a title for the feed's count of
/// articles `n`: its digits and five more.
pub open spec fn sidebar_reserved(n: i32) -> int {
    (integer_text(n as int).len() + 5) as int
}

/// The room left for a title in a sidebar row of `width` columns.
pub open spec fn sidebar_room(n: i32, width: u16) -> int {
    if width > sidebar_reserved(n) {
        width - sidebar_reserved(n)
    } else {
        0
    }
}

/// `title` as it fits in `room`: where its bytes exceed the room, the
/// characters of its first `room - 3` bytes and an ellipsis of three dots.
pub open spec fn fitted_title(title: Seq<char>, room: int) -> Seq<char> {
    if byte_len(title) > room {
        byte_prefix(title, room - 3) + "..."@
    } else {
        title
    }
}

/// `s` filled up with spaces to `w` characters.
pub open spec fn padded(s: Seq<char>, w: int) -> Seq<char> {
    if s.len() < w {
        s + Seq::new((w - s.len()) as nat, |i: int| ' ')
    } else {
        s
    }
}

/// The sidebar's row for a feed titled `title` with `n` articles, in a row of
/// `width` columns: the fitted title, padded to the room, and the count in
/// brackets.
pub open spec fn sidebar_row(title: Seq<char>, n: i32, width: u16) -> Seq<char> {
    let room = sidebar_room(n, width);
    " "@ + padded(fitted_title(title, room), room) + " ["@ + integer_text(n as int) + "] "@
}

/// Whether the row of a title can be had: a title that does not fit leaves
/// room for the ellipsis, and is cut at the end of a character.
pub open spec fn sidebar_row_ok(title: Seq<char>, n: i32, width: u16) -> bool {
    let room = sidebar_room(n, width);
    byte_len(title) > room ==> room >= 3 && is_boundary(title, room - 3)
}

/// Ten to the power `k`.
pub open spec fn pow10(k: nat) -> nat
    decreases k,
{
    if k == 0 {
        1
    } else {
        10 * pow10((k - 1) as nat)
    }
}

/// A number below ten to the power `k` has at most `k` digits.
proof fn lemma_decimal_len(n: nat, k: nat, bound: nat)
    requires
        k >= 1,
        bound == pow10(k),
        n < bound,
    ensures
        decimal(n).len() <= k,
    decreases k,
{
    if n >= 10 {
        if k == 1 {
            assert(pow10(1) == 10 * pow10(0));
        } else {
            let b2 = pow10((k - 1) as nat);
            assert(bound == 10 * b2);
            assert(n / 10 < b2) by (nonlinear_arith)
                requires
                    n < 10 * b2,
            ;
            lemma_decimal_len(n / 10, (k - 1) as nat, b2);
        }
    }
}

/// Encoding a concatenation concatenates the encodings.
proof fn lemma_encode_concat(a: Seq<char>, b: Seq<char>)
    ensures
        encode_utf8(a + b) == encode_utf8(a) + encode_utf8(b),
    decreases a.len(),
{
    if a.len() == 0 {
        assert(a + b =~= b);
        assert(encode_utf8(a) + encode_utf8(b) =~= encode_utf8(b));
    } else {
        lemma_encode_concat(a.drop_first(), b);
        assert((a + b).drop_first() =~= a.drop_first() + b);
        assert((a + b)[0] == a[0]);
        assert(encode_utf8(a + b) == encode_scalar((a + b)[0] as u32) + encode_utf8((a + b).drop_first()));
        assert(encode_utf8(a) == encode_scalar(a[0] as u32) + encode_utf8(a.drop_first()));
        assert(encode_scalar(a[0] as u32) + (encode_utf8(a.drop_first()) + encode_utf8(b)) =~= (
        encode_scalar(a[0] as u32) + encode_utf8(a.drop_first())) + encode_utf8(b));
    }
}

/// One more character takes at least one more byte.
proof fn lemma_take_grows(s: Seq<char>, m: int)
    requires
        0 <= m < s.len(),
    ensures
        byte_len(s.take(m + 1)) > byte_len(s.take(m)),
{
    let one = seq![s[m]];
    assert(s.take(m + 1) =~= s.take(m) + one);
    lemma_encode_concat(s.take(m), one);
    assert(one.drop_first() =~= Seq::<char>::empty());
    assert(encode_utf8(one.drop_first()) =~= Seq::<u8>::empty());
    assert(encode_utf8(one) == encode_scalar(one[0] as u32) + encode_utf8(one.drop_first()));
    assert(encode_scalar(s[m] as u32).len() >= 1);
}

/// Longer prefixes take more bytes.
proof fn lemma_take_strict(s: Seq<char>, m1: int, m2: int)
    requires
        0 <= m1 < m2 <= s.len(),
    ensures
        byte_len(s.take(m1)) < byte_len(s.take(m2)),
    decreases m2 - m1,
{
    lemma_take_grows(s, m2 - 1);
    if m1 < m2 - 1 {
        lemma_take_strict(s, m1, m2 - 1);
    }
}

/// The characters of `s` that fill its first `b` bytes, where they end at
/// the end of a character.
fn prefix_of_bytes(s: &str, b: usize) -> (r: String)
    requires
        is_boundary(s@, b as int),
    ensures
        r@ == byte_prefix(s@, b as int),
{
    let cs = chars_of(s);
    let ghost target = choose|m: int| 0 <= m <= s@.len() && byte_len(s@.take(m)) == b;
    let mut pre = String::new();
    let mut m: usize = 0;
    assert(s@.take(0) =~= Seq::<char>::empty());
    while pre.as_str().len() < b
        invariant
            cs@ == s@,
            0 <= target <= s@.len(),
            byte_len(s@.take(target)) == b,
            m <= target,
            pre@ == s@.take(m as int),
        decreases target - m,
    {
        assert(m < target) by {
            if m > target {
                lemma_take_strict(s@, target, m as int);
            }
        }
        assert(cs@.len() == cs.len());
        push_char(&mut pre, cs[m]);
        assert(s@.take(m + 1) =~= s@.take(m as int).push(cs@[m as int]));
        m = m + 1;
        proof {
            if m > target {
                lemma_take_strict(s@, target, m as int);
            }
        }
    }
    proof {
        if m < target {
            lemma_take_strict(s@, m as int, target);
        }
    }
    pre
}

/// The room for a title in a sidebar row of `area_width` columns beside the
/// count `feed_count`.
fn room_of(feed_count: i32, area_width: u16) -> (room: usize)
    ensures
        room == sidebar_room(feed_count, area_width),
{
    let count = i32_to_string(feed_count);
    let count_len = chars_of(count.as_str()).len();
    proof {
        reveal_with_fuel(pow10, 11);
        if feed_count < 0 {
            lemma_decimal_len((-feed_count) as nat, 10, 10000000000);
        } else {
            lemma_decimal_len(feed_count as nat, 10, 10000000000);
        }
    }
    assert(count_len <= 11);
    let reserved = (count_len + 5) as u16;
    area_width.saturating_sub(reserved) as usize
}

/// Whether the first `b` bytes of `s` end at the end of a character.
fn ends_char_at(s: &str, b: usize) -> (r: bool)
    requires
        byte_len(s@) <= usize::MAX,
    ensures
        r == is_boundary(s@, b as int),
{
    let cs = chars_of(s);
    let mut pre = String::new();
    let mut m: usize = 0;
    assert(s@.take(0) =~= Seq::<char>::empty());
    let mut n: usize = 0;
    while n < b && m < cs.len()
        invariant
            cs@ == s@,
            m <= s@.len(),
            pre@ == s@.take(m as int),
            n == byte_len(pre@),
            byte_len(s@) <= usize::MAX,
            forall|k: int| 0 <= k < m ==> byte_len(#[trigger] s@.take(k)) < b,
        decreases s@.len() - m,
    {
        assert(cs@.len() == cs.len());
        push_char(&mut pre, cs[m]);
        assert(s@.take(m + 1) =~= s@.take(m as int).push(cs@[m as int]));
        m = m + 1;
        proof {
            if m < s@.len() {
                lemma_take_strict(s@, m as int, s@.len() as int);
            }
            assert(s@.take(s@.len() as int) =~= s@);
        }
        n = pre.as_str().len();
    }
    let r = n == b;
    proof {
        if r {
            assert(byte_len(s@.take(m as int)) == b);
        } else {
            assert forall|k: int| 0 <= k <= s@.len() implies byte_len(#[trigger] s@.take(k)) != b by {
                if k < m {
                } else if k > m {
                    lemma_take_strict(s@, m as int, k);
                }
            }
        }
    }
    r
}

/// Whether the sidebar row of the feed titled `title` with `feed_count`
/// articles can be had in a row of `area_width` columns (see
/// [`sidebar_row_ok`]).
pub fn sidebar_row_fits(title: &str, feed_count: i32, area_width: u16) -> (b: bool)
    requires
        byte_len(title@) <= usize::MAX,
    ensures
        b == sidebar_row_ok(title@, feed_count, area_width),
{
    let room = room_of(feed_count, area_width);
    if title.len() > room {
        room >= 3 && ends_char_at(title, room - 3)
    } else {
        true
    }
}

/// The sidebar's row for the feed titled `title` with `feed_count` articles,
/// in a row of `area_width` columns (see [`sidebar_row`]).
pub fn sidebar_row_of(title: &str, feed_count: i32, area_width: u16) -> (r: String)
    requires
        byte_len(title@) <= usize::MAX,
        sidebar_row_ok(title@, feed_count, area_width),
    ensures
        r@ == sidebar_row(title@, feed_count, area_width),
{
    let count = i32_to_string(feed_count);
    let room = room_of(feed_count, area_width);
    let fitted = if title.len() > room {
        let head = prefix_of_bytes(title, room - 3);
        concat_text(head.as_str(), "...")
    } else {
        String::from_str(title)
    };
    let mut cell = fitted;
    let ghost base = cell@;
    while chars_of(cell.as_str()).len() < room
        invariant
            base.len() <= cell@.len() <= if base.len() < room { room as int } else { base.len() as int },
            cell@ == base + Seq::new((cell@.len() - base.len()) as nat, |i: int| ' '),
        decreases room - cell@.len(),
    {
        let ghost before = cell@;
        push_char(&mut cell, ' ');
        assert(cell@ =~= base + Seq::new((cell@.len() - base.len()) as nat, |i: int| ' '));
    }
    proof {
        if base.len() < room {
            assert(cell@.len() == room);
        } else {
            assert(cell@ =~= base);
        }
    }
    assert(cell@ == padded(base, room as int));

    let front = concat_text(" ", cell.as_str());
    let mid = concat_text(front.as_str(), " [");
    let tail = concat_text(mid.as_str(), count.as_str());
    concat_text(tail.as_str(), "] ")
}

} // verus!
