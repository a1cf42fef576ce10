# pi_interactive

The components of the interactive mode of the pi coding agent: session, tree, model, settings and
resource selectors, dialogs, transcript blocks, the footer, keybindings and the dispatch of what is
entered.

`src/` is a Verus library. It holds the state of each component and what a key press, an answer or
an event makes of it, with contracts that say exactly that. It draws nothing itself: a component's
content is a list of styled spans, which `src/style.rs` defines, or of pieces that are laid out one
below the other, which `src/transcript.rs` defines.

- Lists and texts: `scroll`, `order`, `fuzzy_list`, `text`, `lines`, `numbers`, `fitting`.
- Sessions: `session*`. The tree of forks is in `session_tree`, and what it lists in
  `session_listing`.
- The entry tree: `entries`, `tree_*`. `tree_laws` says what filtering and folding keep.
- Resources: `resources`, `resource_settings`, `config_*`.
- Models and providers: `models`, `model_*`, `scoped_models_selector`, `oauth_selector`.
- Settings: `settings_*`, `select_submenu`, `theme_submenu`, `choice_selectors`.
- Transcript: `transcript`, `assistant_message`, `bash_execution`, `tool_execution`,
  `message_blocks`, `diff`.
- Input: `dispatch`, `app_keybindings`, `keybinding_hints`.

What the library takes from `regex`, `serde_json`, `jiff` and std without proof stands behind small
functions marked `external_body`; each says in its comment which outside function it calls.

`app/` is ordinary Rust around the library: files, processes, the clock, JSON values, and the
terminal. How wide texts are, where they are cut and wrapped, how well they match a search, and which
keys are pressed comes from a terminal toolkit: the trait `Toolkit` in `app/toolkit.rs`. `app/measure.rs`
measures with it what the library asks for, `app/layout.rs` draws the pieces that come back, and
`app/selectors.rs`, `app/settings.rs`, `app/dialogs.rs` and `app/blocks.rs` do so for each component and hand it the keys.
