# visigrid

The document and interaction logic of a spreadsheet application, written in
Verus.

- `src/` is the library. Every function in it is verified against the contract
  in its header, but for the few that make one call into another crate or the
  standard library: these are marked `external_body`, and what they promise is
  taken on trust.
  - Documents: `document`, `interchange`, `workbook_doc`, `layout`,
    `structural`, `color`, `blob`.
  - Windows: `state` holds the state of a window; `window`, `files`, `saving`,
    `sizes`, `fitting`, `sheet_layouts`, `grid`, `caches`, `edit_buffer`,
    `dialogs`, `chrome`, `commands`, `dropdown`, `failures`,
    `validation_dialog`, `terminal`, `file_type` and `default_prompt` say what
    becomes of it.
  - Services: `hub`, `hub_publish`, `hub_link` and `cloud` decide the steps of a
    transfer; `ai_settings`, `ask_ai`, `diff_report` and `lua` do the same for
    the assistant.
  - Basics: `text`, `collections`, `pixels`, `naming`, `focus`, `timestamps`,
    `urls`, `startup`, `fonts`.
- `app/` is the program around it: arguments, files, the network, JSON, and
  pixels on the screen.
- `tests/` runs the library.

Sizes on the screen are kept as the bits of a 32-bit float, numbers in documents
as they are written, and the zoom in thousandths.
