# chatserver

A terminal chat system, a server and a client, whose logic is verified with
Verus.

## Layout

- `src/` is the verified library. Every public function states what it does
  in `requires` / `ensures`, over `Seq`, `Map` and spec functions.
  - `protocol`: the packets between client and server and the server's events.
  - `room`: rooms, the sessions connected to them, and the store of rooms.
  - `server`: the server's state and what each event does to it: logins
    (checked against the stored password digest), room messages, private
    messages, room changes and disconnects.
  - `db`: the SQL statements and how users and password digests are read out
    of the rows that come back.
  - `crypto`: the SHA3-256 password digest, in lower-case hexadecimal.
  - `validation`: the check of the address the server listens on.
  - `login`, `home`, `client`, `input`, `message_box`, `commands`,
    `simple_ui`: the client's screens, text fields, message pane and chat
    commands.
  - `text`: trimming, splitting and joining text.
- `tests/` runs the library on concrete values.
- `app/` is the program around the library: the terminal, the sockets, the
  database and the event loops. Run `server` as its first argument for the
  server; without it, it runs the client.

## Properties proved

Among others: a login whose password digest differs from the one stored for
the user is refused and changes nothing; a room message reaches every session
of the room exactly once and is recorded in the room's history; a
disconnected user is told nothing, leaves its room and is forgotten; a
private message reaches both parties; splitting a joined text gives the
pieces back; wrapping a message loses no text.
