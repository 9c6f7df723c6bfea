# lemonade

A clipboard shared between machines. A server holds the clipboard of its
machine and answers a client's copy, paste and open requests; every change of
a server's clipboard goes to a hub, which passes it on to all servers; a topic
on ntfy can feed the hub or a server too.

- `src/` is the library, verified with Verus: the hub's wire format
  (`framing`), the clipboard-change messages and how a server routes them
  (`hub_message`), what a server does with a request (`server`), the clipboard
  watcher (`watcher`), the hub's relay (`hub`), ntfy events (`ntfy`) and the
  client's decisions (`client`).
- `app/` is the program around it: command line, sockets, the clipboard,
  websockets and JSON.
- `tests/` runs the library on concrete values.
