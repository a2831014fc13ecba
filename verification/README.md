# todotxt-tui

The core of a todo list for `todo.txt` and iCalendar files, written in Verus. The library's
own functions carry contracts that the verifier proves; the calls into outside crates go
through a few trusted functions whose contracts are believed, not proved (see the end of
this file).

## Layout

- `src/` — the verified library.
  - `task`, `due`, `todo`, `task_list`, `category_list`: tasks and the dates of their
    `due` and `t` tags, the pending and done lists, their filters, orderings, categories and
    the active task.
  - `file_worker`: reading and writing `todo.txt` text, the choice of storage, and the
    decisions of the file worker (when to save, when to reload).
  - `ical`, `vtodo`, `encoding`, `calendar`: tasks as iCalendar `VTODO` components, with the
    stored component kept so that saving rewrites only the properties the task owns; calendars
    are read with the `icalendar` crate (`calendar`) or by their text (`ical`).
  - `layout`, `layout_parser`, `holder`: the layout template grammar and the navigation
    between widgets.
  - `widget_list`, `widget_state`, `input`, `search`: list scrolling, the list, category,
    preview and input widgets, completion and search.
  - `style`, `options`, `parsers`, `defaults`, `config`, `conf`, `keys`, `error`:
    configuration values, their text forms, the default key bindings of the window, the
    lists, the tasks and the categories, and the merging of configuration
    layers (defaults, file, environment, flags).
  - `text`, `lines`, `decimal`, `date`: text, line, number and date helpers with their
    specifications.
- `tests/` — tests of the library on concrete values.
- `app/` — a small command line front end: argument handling, file input and output, and
  the file worker thread.

The outside crates `todo-txt`, `chrono`, `icalendar`, `base64`, `uuid` and `shellexpand` are called
through a few trusted functions, each marked `#[verifier::external_body]` with a contract
that states what the crate's documentation or source shows; some of them (the clock, random
identifiers) promise little or nothing about their result, and the functions that use them
state what holds whatever comes back.
