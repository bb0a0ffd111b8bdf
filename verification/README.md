# ruster

The decisions of the ruster Wayland compositor, as a library verified with
Verus: what the compositor decides without a display, stated as contracts
and proved. The workspace tree, the editor buffers and the renderer belong
to other crates of the project and are not part of it; the decisions made
around them (focus, key routing, which pieces a frame draws) are.

`src/` is the library:

- `action`, `bind`, `keymap`, `input`: what a config's action names mean,
  how a chord like `M-S-q` is parsed and matched, multi-key bindings and the
  which-key overlay, and where every key the seat delivers goes (VT switch,
  prompt, keymap, quit hatch, editor pane, client).
- `overlay`, `hover`: what a key does to the open launcher or prompt, the
  key an editor pane takes, and the lines a language server's hover answer
  is shown as.
- `config`: what a config declares and the `ruster.wm` control plane its
  calls drive: the queue of actions, the keyboard settings, how a spawn is
  launched.
- `minibuffer`, `launcher`, `provider`, `math`, `desktop`, `apps`: the `:`
  prompt, the launcher and the ordering of its providers' answers, the
  grammar of a sum, XDG desktop entries and how installed apps are ranked.
- `clipboard`, `persist`, `repeat`, `backend`, `screencopy`: the selection,
  which relaunched process fills which slot of a restored session, key
  repeat, when the event loop may sleep and draw, which display mode an
  output is driven at, capture deadlines.
- `chrome`, `render`, `pane`, `highlight`, `geometry`: the gutter, the
  statusline indicator, text runs, the order a frame is emitted in and the
  pieces it draws, an editor pane's view of its buffer, which parses are
  stale, and which window a point is over.
- `bar`: the layer-shell bar client's state and the pixels it fills.
- `text`: characters and strings stated over `Seq<char>`.

Laws that span several functions are public proof functions named `law_*`.

`app/` is the program around it: Lua through `mlua`, processes, files and
pipes, and the floating-point parts (evaluating a sum, grid sizes, the repeat and frame gaps). It reads
a compositor config and reports what it declares; `ruster bar` runs the
layer-shell bar client over `wayland-client`. The display-server backends
are not part of this build.
