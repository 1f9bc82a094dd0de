# rusted_wheel

The server of a small browser game. Players connect over a websocket; each
connection gets a ticket (a UUID) in a cookie, and sends messages of the form
`<ticket>:addItemToInventory(<code>)` to add items to its player's inventory.

- `src/` is the library, verified with Verus:
  - `text` — splitting, trimming, decimal numbers and UTF-8, on characters;
  - `ids` — UUIDs, parsed, printed and drawn by the `uuid` crate;
  - `game` — items, actions, inventories and players;
  - `sock` — cookies (`cookie`), action messages (`msg`, `parse`), ticket
    checks (`authorizer`) and the decisions taken on each websocket event
    (`WSServer`).
- `app/` runs the two servers: static files over HTTP (`iron`) and the game over
  websockets (`ws`), handing each websocket event to `WSServer`.
- `tests/` exercise the library.
