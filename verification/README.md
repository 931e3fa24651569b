# reversi

Reversi rules, search and the netplay protocol logic, verified with Verus.

- `src/` is the verified library:
  - `player`, `square`, `rules`, `board`: the board and the rules, with a
    mathematical model (`rules::BoardView`) that every operation is stated over.
  - `search`, `heuristic`: negamax with alpha-beta pruning, proved equal to the
    plain negamax value; the corner/mobility/parity evaluator.
  - `rng`, `selfplay`, `matchup`, `game`: seeded random games, engine matches,
    the networked game,
    and the human-vs-AI turn loop.
  - `protocol`, `relay_lobby`, `relay_client`: the relay's framed protocol and
    its auto-pairing lobby.
  - `netplay_protocol`, `netplay_lobby`: the netplay messages and lobby
    (presence, invites, pairing).
  - `netplay_relay`: one connection's decisions: the version check, the
    authorization by account, the message-to-command mapping, and leaving the
    lobby exactly once.
  - `netplay_client`, `client_auth`: the client's credential, events, and auth
    requests.
  - `server_auth`: registration rules, session grants, the admin gate, and
    header parsing.
  - `session`, `ui_state`, `game_msg`: the screens' state and how network
    events change them (titles, clicks, lobby actions).
  - `text`: trimming, decimal parsing and lowercasing over characters.
- `app/` holds what Verus does not see: serialization, sockets, HTTP, the
  rate limiter, in-memory sessions, and the command-line front end.
- `tests/` exercises the library from outside.
