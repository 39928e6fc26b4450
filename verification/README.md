# space_soup_editor

The decision logic of the Space Soup scene editor, verified with Verus.

`src/` is the library. Each module states its behaviour over a mathematical
model (sequences of characters for text, an `EditorState` view for the code
editor) and proves its executable code against it:

- `text_editor`: the JSON code editor (lines, cursor, selection, clipboard,
  bounded undo/redo, scrolling) with laws such as "undo after an edit
  restores the text", "Select All, Cut, Paste gives back a text without
  carriage returns" and "`text` after `set_text` gives back an input without
  tabs or carriage returns".
- `json_tokens`: the JSON tokenizer and syntax highlighter for one line.
- `edit_history`: the coalescing undo/redo history of the sub-editors.
- `naming`, `anim_sim`, `grab_pose`, `scene_bridge`, `inspector`: fresh names,
  selection clamping and the small rules of the animation and grip editors.
- `pointer`: what a left press or release does in the scene view, given the
  window's hit tests.
- `keys`, `nav`, `gizmo`, `discover`: what a key press does, the navigator
  rows, gizmo handles and colours, and which files count as scenes or models.
- `pos`: text positions and their document order.
- `chars`: character/byte bookkeeping on UTF-8 strings.

`app/` is the window around it (winit): file I/O, key translation, and the
floating-point layout, camera and ray geometry.

`tests/` runs the library on concrete values.
