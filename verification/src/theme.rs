//! Colour themes: the two built-in ones, the named registry of all themes,
//! and the order in which the theme selector lists them.

use vstd::prelude::*;
use crate::style::{Color, rgb_of};

verus! {

/// The colours of the interface.
#[derive(Clone, Copy, Debug, PartialEq, Eq, Structural)]
pub struct Theme {
    pub primary: Color,
    pub background: Color,
    pub text: Color,
    pub border: Color,
}

impl Theme {
    /// A theme of these colours.
    pub fn new(primary: Color, background: Color, text: Color, border: Color) -> (t: Theme)
        ensures
            t == (Theme { primary, background, text, border }),
    {
        Theme { primary, background, text, border }
    }

    /// The theme of four `0xRRGGBB` colours.
    pub fn from_rgb(primary: u32, background: u32, text: u32, border: u32) -> (t: Theme)
        ensures
            t == (Theme {
                primary: rgb_of(primary),
                background: rgb_of(background),
                text: rgb_of(text),
                border: rgb_of(border),
            }),
    {
        Theme::new(
            Color::from_u32(primary),
            Color::from_u32(background),
            Color::from_u32(text),
            Color::from_u32(border),
        )
    }
}

/// The built-in light theme.
pub open spec fn light() -> Theme {
    Theme {
        primary: rgb_of(0x1152d4),
        background: rgb_of(0xf6f6f8),
        text: rgb_of(0x92a4c9),
        border: rgb_of(0x232f48),
    }
}

/// The built-in dark theme.
pub open spec fn dark() -> Theme {
    Theme {
        primary: rgb_of(0x1152d4),
        background: rgb_of(0x0a0a0a),
        text: rgb_of(0x92a4c9),
        border: rgb_of(0x232f48),
    }
}

/// The built-in light theme.
pub fn light_theme() -> (t: Theme)
    ensures
        t == light(),
{
    Theme::from_rgb(0x1152d4, 0xf6f6f8, 0x92a4c9, 0x232f48)
}

/// The built-in dark theme.
pub fn dark_theme() -> (t: Theme)
    ensures
        t == dark(),
{
    Theme::from_rgb(0x1152d4, 0x0a0a0a, 0x92a4c9, 0x232f48)
}

/// Themes by name, each name once.
#[derive(Clone, Debug)]
pub struct ThemeRegistry {
    entries: Vec<(String, Theme)>,
}

/// The names of `entries`, in order.
pub open spec fn entry_names(entries: Seq<(String, Theme)>) -> Seq<Seq<char>> {
    entries.map_values(|e: (String, Theme)| e.0@)
}

/// In a sequence without duplicates, the position of an element is the one
/// where it stands.
proof fn lemma_index_of_unique(ns: Seq<Seq<char>>, n: Seq<char>, i: int)
    requires
        ns.no_duplicates(),
        0 <= i < ns.len(),
        ns[i] == n,
    ensures
        ns.index_of(n) == i,
{
    assert(ns[i] == n);
    let j = ns.index_of(n);
    assert(0 <= j < ns.len() && ns[j] == n);
}

impl ThemeRegistry {
    /// The themes by name.
    pub closed spec fn view_map(&self) -> Map<Seq<char>, Theme> {
        Map::new(
            |n: Seq<char>| entry_names(self.entries@).contains(n),
            |n: Seq<char>|
                self.entries@[entry_names(self.entries@).index_of(n)].1,
        )
    }

    /// The names, in the order they were first registered.
    pub closed spec fn names(&self) -> Seq<Seq<char>> {
        entry_names(self.entries@)
    }

    /// No name is registered twice.
    pub closed spec fn wf(&self) -> bool {
        self.names().no_duplicates()
    }

    /// A name is listed exactly where a theme is registered under it, and
    /// each name is listed once where the registry is well formed.
    pub proof fn lemma_names_are_keys(&self)
        ensures
            forall|n: Seq<char>| #[trigger] self.view_map().contains_key(n) <==> self.names().contains(n),
            self.wf() ==> self.names().no_duplicates(),
    {
    }

    /// A registry without themes.
    pub fn empty() -> (r: ThemeRegistry)
        ensures
            r.wf(),
            r.names() == Seq::<Seq<char>>::empty(),
            r.view_map() == Map::<Seq<char>, Theme>::empty(),
    {
        let r = ThemeRegistry { entries: Vec::new() };
        assert(r.names() =~= Seq::<Seq<char>>::empty());
        assert(r.view_map() =~= Map::<Seq<char>, Theme>::empty());
        r
    }

    /// The number of themes.
    pub fn len(&self) -> (n: usize)
        ensures
            n == self.names().len(),
    {
        self.entries.len()
    }

    /// The position of the theme named `name`, if it is registered.
    fn position(&self, name: &String) -> (r: Option<usize>)
        requires
            self.wf(),
        ensures
            match r {
                Some(i) => i < self.names().len() && self.names()[i as int] == name@ && self.names().index_of(name@) == i,
                None => !self.names().contains(name@),
            },
    {
        let ghost ns = self.names();
        let mut i: usize = 0;
        while i < self.entries.len()
            invariant
                i <= self.entries.len(),
                ns == self.names(),
                self.wf(),
                forall|k: int| 0 <= k < i ==> ns[k] != name@,
            decreases self.entries.len() - i,
        {
            assert(ns[i as int] == self.entries@[i as int].0@);
            if self.entries[i].0 == *name {
                proof {
                    lemma_index_of_unique(ns, name@, i as int);
                }
                return Some(i);
            }
            i = i + 1;
        }
        None
    }

    /// The theme named `name`, if it is registered.
    pub fn get(&self, name: &String) -> (r: Option<Theme>)
        requires
            self.wf(),
        ensures
            match r {
                Some(t) => self.view_map().contains_key(name@) && self.view_map()[name@] == t,
                None => !self.view_map().contains_key(name@),
            },
    {
        match self.position(name) {
            Some(i) => Some(self.entries[i].1),
            None => None,
        }
    }

    /// Registers `theme` under `name`, in place of a theme of that name.
    pub fn insert(&mut self, name: String, theme: Theme)
        requires
            old(self).wf(),
        ensures
            final(self).wf(),
            final(self).view_map() == old(self).view_map().insert(name@, theme),
            old(self).names().contains(name@) ==> final(self).names() == old(self).names(),
            !old(self).names().contains(name@) ==> final(self).names() == old(self).names().push(
                name@,
            ),
    {
        match self.position(&name) {
            Some(i) => {
                let ghost nm = name@;
                self.entries.set(i, (name, theme));
                assert(self.names() =~= old(self).names());
                proof {
                    let ns = self.names();
                    assert forall|n: Seq<char>| #[trigger] ns.contains(n) && n != nm implies self.entries@[ns.index_of(
                        n,
                    )] == old(self).entries@[ns.index_of(n)] by {
                        let j = ns.index_of(n);
                        assert(ns[j] == n);
                    }
                }
                assert(self.view_map() =~= old(self).view_map().insert(nm, theme));
            },
            None => {
                let ghost nm = name@;
                self.entries.push((name, theme));
                assert(self.names() =~= old(self).names().push(nm));
                proof {
                    let ns = self.names();
                    let os = old(self).names();
                    assert(ns.no_duplicates()) by {
                        assert forall|a: int, b: int| 0 <= a < ns.len() && 0 <= b < ns.len() && a != b
                            implies ns[a] != ns[b] by {
                            if a == os.len() as int {
                                assert(!os.contains(ns[b]) || ns[b] != nm);
                            } else if b == os.len() as int {
                                assert(ns[a] == os[a]);
                            }
                        }
                    }
                    lemma_index_of_unique(ns, nm, os.len() as int);
                    assert forall|n: Seq<char>| #[trigger] os.contains(n) implies ns.index_of(n)
                        == os.index_of(n) && self.entries@[ns.index_of(n)] == old(self).entries@[os.index_of(n)] by {
                        let j = os.index_of(n);
                        assert(os[j] == n);
                        assert(ns[j] == n);
                        lemma_index_of_unique(ns, n, j);
                    }
                    assert forall|n: Seq<char>| #[trigger] ns.contains(n) implies os.contains(n) || n == nm by {
                        let j = choose|j: int| 0 <= j < ns.len() && ns[j] == n;
                        if j < os.len() {
                            assert(os[j] == n);
                        }
                    }
                    assert forall|n: Seq<char>| os.contains(n) || n == nm implies #[trigger] ns.contains(n) by {
                        if n == nm {
                            assert(ns[os.len() as int] == n);
                        } else {
                            let j = choose|j: int| 0 <= j < os.len() && os[j] == n;
                            assert(ns[j] == n);
                        }
                    }
                    assert(self.entries@[ns.index_of(nm)].1 == theme);
                }
                assert(self.view_map() =~= old(self).view_map().insert(nm, theme));
            },
        }
    }

    /// The names of the themes, in registration order.
    pub fn name_list(&self) -> (r: Vec<String>)
        ensures
            crate::text::views(r@) == self.names(),
    {
        let mut r: Vec<String> = Vec::new();
        let mut i: usize = 0;
        while i < self.entries.len()
            invariant
                i <= self.entries.len(),
                crate::text::views(r@) == self.names().take(i as int),
            decreases self.entries.len() - i,
        {
            let ghost before = r@;
            r.push(self.entries[i].0.clone());
            assert(crate::text::views(r@) =~= crate::text::views(before).push(self.names()[i as int]));
            assert(crate::text::views(r@) =~= self.names().take(i + 1));
            i = i + 1;
        }
        assert(self.names().take(self.entries.len() as int) =~= self.names());
        r
    }
}

impl Theme {
    /// The built-in themes: `Light` and `Dark`.
    pub fn get_all() -> (r: ThemeRegistry)
        ensures
            r.wf(),
            r.view_map() == map!["Light"@ => light(), "Dark"@ => dark()],
    {
        let mut r = ThemeRegistry::empty();
        r.insert(String::from_str("Light"), light_theme());
        r.insert(String::from_str("Dark"), dark_theme());
        proof {
            reveal_strlit("Light");
            reveal_strlit("Dark");
        }
        assert(r.view_map() =~= map!["Light"@ => light(), "Dark"@ => dark()]);
        r
    }
}

/// The themes of the stored rows `rows`, each a name and four `0xRRGGBB`
/// colours, a later row replacing an earlier one of the same name.
pub open spec fn rows_themes(rows: Seq<(Seq<char>, u32, u32, u32, u32)>) -> Map<Seq<char>, Theme>
    decreases rows.len(),
{
    if rows.len() == 0 {
        Map::empty()
    } else {
        let (name, p, b, t, d) = rows.last();
        rows_themes(rows.drop_last()).insert(
            name,
            Theme { primary: rgb_of(p), background: rgb_of(b), text: rgb_of(t), border: rgb_of(d) },
        )
    }
}

/// The views of stored theme rows.
pub open spec fn theme_rows_view(rows: Seq<(String, u32, u32, u32, u32)>) -> Seq<(Seq<char>, u32, u32, u32, u32)> {
    rows.map_values(|r: (String, u32, u32, u32, u32)| (r.0@, r.1, r.2, r.3, r.4))
}

/// The themes of the stored rows `rows`, and over them the built-in `Light`
/// and `Dark`.
pub fn registry_from_rows(rows: &Vec<(String, u32, u32, u32, u32)>) -> (r: ThemeRegistry)
    ensures
        r.wf(),
        r.view_map() == rows_themes(theme_rows_view(rows@)).insert("Light"@, light()).insert(
            "Dark"@,
            dark(),
        ),
{
    let ghost rv = theme_rows_view(rows@);
    let mut r = ThemeRegistry::empty();
    let mut i: usize = 0;
    while i < rows.len()
        invariant
            i <= rows.len(),
            rv == theme_rows_view(rows@),
            r.wf(),
            r.view_map() == rows_themes(rv.take(i as int)),
        decreases rows.len() - i,
    {
        let (name, p, b, t, d) = &rows[i];
        proof {
            assert(rv.take(i + 1).drop_last() =~= rv.take(i as int));
            assert(rv.take(i + 1).last() == (name@, *p, *b, *t, *d));
        }
        r.insert(name.clone(), Theme::from_rgb(*p, *b, *t, *d));
        i = i + 1;
    }
    assert(rv.take(rows.len() as int) =~= rv);
    r.insert(String::from_str("Light"), light_theme());
    r.insert(String::from_str("Dark"), dark_theme());
    r
}

} // verus!
