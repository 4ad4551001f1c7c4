//! The user's settings, as stored name by name.

use vstd::prelude::*;
use crate::text::same_text;

verus! {

/// The user's settings: the name of the theme and whether feeds are
/// refreshed in the background at start.
#[derive(Debug)]
pub struct Settings {
    pub theme: String,
    pub background_sync: bool,
}

/// The settings after reading the stored pairs `rows` in turn over
/// `(theme, sync)`: a `background_sync` row turns background refresh on
/// exactly when its value is `1`, a `theme` row names the theme, and other
/// rows are ignored.
pub open spec fn settings_after(rows: Seq<(Seq<char>, Seq<char>)>, theme: Seq<char>, sync: bool) -> (Seq<char>, bool)
    decreases rows.len(),
{
    if rows.len() == 0 {
        (theme, sync)
    } else {
        let (name, value) = rows[0];
        if name == "background_sync"@ {
            settings_after(rows.skip(1), theme, value == "1"@)
        } else if name == "theme"@ {
            settings_after(rows.skip(1), value, sync)
        } else {
            settings_after(rows.skip(1), theme, sync)
        }
    }
}

/// The views of stored setting rows.
pub open spec fn rows_view(rows: Seq<(String, String)>) -> Seq<(Seq<char>, Seq<char>)> {
    rows.map_values(|r: (String, String)| (r.0@, r.1@))
}

impl Settings {
    /// The settings used where none are stored: the `Dark` theme, and no
    /// background refresh.
    pub fn defaults() -> (s: Settings)
        ensures
            s.theme@ == "Dark"@,
            !s.background_sync,
    {
        Settings { theme: String::from_str("Dark"), background_sync: false }
    }

    /// The settings read from the stored `(name, value)` pairs `rows`, starting
    /// from the defaults.
    pub fn from_rows(rows: &Vec<(String, String)>) -> (s: Settings)
        ensures
            (s.theme@, s.background_sync) == settings_after(rows_view(rows@), "Dark"@, false),
    {
        let mut s = Settings::defaults();
        let ghost rv = rows_view(rows@);
        let mut i: usize = 0;
        assert(rv.skip(0) =~= rv);
        while i < rows.len()
            invariant
                i <= rows.len(),
                rv == rows_view(rows@),
                settings_after(rv.skip(i as int), s.theme@, s.background_sync) == settings_after(
                    rv,
                    "Dark"@,
                    false,
                ),
            decreases rows.len() - i,
        {
            assert(rv.skip(i as int)[0] == (rows@[i as int].0@, rows@[i as int].1@));
            assert(rv.skip(i as int).skip(1) =~= rv.skip(i + 1));
            let (name, value) = &rows[i];
            if same_text(name.as_str(), "background_sync") {
                s.background_sync = same_text(value.as_str(), "1");
            } else if same_text(name.as_str(), "theme") {
                s.theme = value.clone();
            }
            i = i + 1;
        }
        assert(rv.skip(rows.len() as int) =~= Seq::<(Seq<char>, Seq<char>)>::empty());
        s
    }
}

/// A `theme` row read last decides the theme, whatever rows came before.
pub proof fn lemma_last_theme_row_wins(
    rows: Seq<(Seq<char>, Seq<char>)>,
    value: Seq<char>,
    theme: Seq<char>,
    sync: bool,
)
    ensures
        settings_after(rows.push(("theme"@, value)), theme, sync).0 == value,
    decreases rows.len(),
{
    reveal_strlit("theme");
    reveal_strlit("background_sync");
    assert("theme"@ != "background_sync"@) by {
        assert("theme"@.len() != "background_sync"@.len());
    }
    let all = rows.push(("theme"@, value));
    if rows.len() == 0 {
        assert(all.skip(1) =~= Seq::<(Seq<char>, Seq<char>)>::empty());
        assert(settings_after(all.skip(1), value, sync) == (value, sync));
    } else {
        assert(all.skip(1) =~= rows.skip(1).push(("theme"@, value)));
        let (name, v) = rows[0];
        assert(all[0] == rows[0]);
        if name == "background_sync"@ {
            lemma_last_theme_row_wins(rows.skip(1), value, theme, v == "1"@);
        } else if name == "theme"@ {
            lemma_last_theme_row_wins(rows.skip(1), value, v, sync);
        } else {
            lemma_last_theme_row_wins(rows.skip(1), value, theme, sync);
        }
    }
}

} // verus!
