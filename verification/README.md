# benday

The logic of a visual block-programming editor, written in Verus. Every
function in `src/` carries a contract; Verus proves each of them, except
four small wrappers around outside functions (two Unicode classes of
`char`, `rand::random` and the Python printer of `python-parser`), whose
contracts are trusted and say so in their doc comments.

- `key_state`, `keys_state`, `input`: the state of keys and mouse buttons from
  frame to frame, keyboard shortcuts, and the input of a frame.
- `widgets`, `manager`: widget bases, and the manager that hands out ids, keeps
  the drawing orders and moves the focus and the hover.
- `text_input`, `select`, `controls`: a one-line text field (carrot, selection,
  word moves, double and triple clicks, clipboard), a select box, a button and
  a switch.
- `blocs`, `front`: block kinds, the containers that blocks are dropped in
  (slots and sequences, whose places stay consistent), and the editor's
  decisions (grab, drop, destroy, the run animation clock).
- `ast`, `runner`, `transpile`: the syntax tree of a program, the values and
  errors that running it deals with (a value as a condition, variable names),
  and its translation to Python through `python-parser`. Running a program is
  not part of the library.

`app/` is the SDL window around the library: events, geometry in floating
point, drawing, and arithmetic of literals with `fasteval`.
