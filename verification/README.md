# tezedge_tui

A terminal interface for a Tezedge node: it shows the endorsements, the baking
statistics, the mempool operation statistics and the synchronization of the
node, and the countdowns to the baker's next rights.

The interface is an automaton. Its state, the actions that change it, the
reducer, the effects that follow each action, the tables with their sorting and
column layout, and the summaries of blocks and endorsements are the library in
`src/`, verified with Verus: each public function states what it returns or
changes, and the proof functions state the laws that hold across calls (the
function keys open their screens, deltas toggled twice give the state back,
moving down and then up in a list gives the selection back, sorting keeps the
rows, a call followed by its answer ends in success, and more).

`app/` is the program around it: command-line arguments, the node's RPC and
websocket, the terminal's events, the JSON of the node, and drawing the screens.

Build and run with `cargo run --release -- -h` for the options;
`--baker-address` names the baker whose rights are counted down.

Keys: `F1` endorsements, `F2` baking, `F3` statistics, `F4` synchronization,
`F10` quit, `s` sort by the selected column, `d` toggle delta values, the arrow
keys move in the focused table, `Tab` rotates the focus.
