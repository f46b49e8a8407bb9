# mew_desktop

The logic of the mew desktop shell — the window in which one talks to a mew
coding daemon — as a library verified with Verus. What the shell decides is
here, with contracts: how markdown is parsed and cut into rows, how text
fields are edited, which commands a key or an event leads to, how tabs,
sessions, the sidebar, the workspace tree and the prompt history evolve.
Drawing the window (gpui), talking to the daemon, the file system and pixel
geometry in floating point are not.

## Layout

- `src/` — the verified library.
  - Text and offsets: `text` (UTF-8/UTF-16 lengths, trimming, lines),
    `cursor` (offsets, grapheme boundaries), `order` (string order, sorting).
  - Markdown: `markdown_parse` (inline styles), `markdown_blocks` (blocks
    from `mdstream`), `markdown` (render rows), `markdown_cache` (keeping the
    rendered parts of the transcript in step with it), `highlights` (styled
    and selected runs of a text).
  - Editing: `text_field` (selection, composition, deletion, key handling),
    `composer` (composer keys, menus, submission routes), `mention`,
    `commands` (shortcuts, slash commands, permission modes), `history`.
  - Sessions and the shell: `events`, `model`, `updates`, `sessions`
    (tabs), `sidebar`, `rename`, `view_states`, `layout`, `connection`,
    `workspace`, `file_tree`, `attachments`, `transcript`, `center`,
    `workbench`, `popovers`, `labels`, `paths`, `choices`, `tools`,
    `browser`, `icons`.
- `tests/` — tests run against the compiled library.
- `app/` — plain Rust around the library: environment and clock reads,
  locating the native browser framework, and the floating-point geometry
  and number formatting of the window.
