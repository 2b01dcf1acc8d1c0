# text_editor

The editing core of a small GPU text editor, verified with Verus.

- `src/text.rs`: line splitting (as `str::lines`), joining with `'\n'`, and
  character-level string edits, each against a specification over `Seq<char>`.
- `src/buffer.rs`: `EditorBuffer` (lines, cursor, file name, unsaved flag), its
  mathematical view `EditorView`, and one specification per editing or moving
  operation.
- `src/keys.rs`: which command a key press stands for.
- `src/layout.rs`: the screen column of the cursor when tabs stop every four
  columns.
- `src/laws.rs`: properties relating the operations (round trips through a
  file, undoing an edit, the cursor staying inside the text).
- `app/`: the window, GPU rendering, file I/O and dialogs (winit, wgpu,
  glyphon, rfd), driving the library.
