# gpotlight

A Spotlight-style launcher for GNOME: a search field over results gathered
from plugins (applications, system actions, a calculator, web search and
external commands described by manifests).

The crate is split in two:

- `src/` is the library, written in Verus. It holds the configuration model
  and plugin routing, the usage-ranked merge of plugin results, the built-in
  plugins' matching and result building, the calculator grammar, manifest
  plugins' argument and output handling, the query encoding of web searches,
  the desktop-entry and control-socket formats, the bundled message catalogs,
  and the selection, scrolling
  and refresh bookkeeping of the search window. Verus checks every function
  of it; the functions that compute carry contracts, while the methods of the
  `SearchPlugin` trait, which plugin authors implement, carry none, and
  neither does the shortcut manager, which registers nothing. The laws that
  span functions are public proof
  functions (`rank::ranked_order_is_stable`, `config::lemma_record_then_count`,
  `desktop_entry::shell_escape_round_trip`, `ipc::toggle_round_trip`,
  `web_search::encode_query_round_trip`, `web_search::encoded_query_shape`, `spotlight::arrow_keeps_selection_visible`,
  `spotlight::superseded_timer_does_not_refresh`).
- `app/` is the program around it: GTK windows, the tray icon, the control
  socket, the configuration file on disk, running plugin commands, and the
  floating-point evaluation of calculator expressions.

`tests/` exercises the library on concrete values.
