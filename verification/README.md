# trss

A terminal RSS reader. Feeds are added by address, stored in SQLite and read
inside the terminal; articles can be marked as favourites, and feeds are
refreshed in the background.

## Layout

- `src/` — the library, verified with Verus:
  - `app` — the shared state and the rules by which commands, background
    events and keys change it; the theme selector;
  - `home`, `view_feed`, `widgets` — the screens and what the widgets show;
  - `paragraph`, `paragraph_list`, `html`, `entities` — article content from
    HTML to styled paragraphs, and how a scrolled list of them is drawn;
  - `feed`, `feed_item`, `channel` — feeds and articles, read from RSS;
  - `settings`, `theme`, `style`, `order`, `text`, `event` — the rest.
- `tests/` — tests of the library.
- `app/` — the program: storage, network, terminal input and drawing.
