# DTAN server

A server for the distributed torrent archive on Nostr: a relay for torrent events, the files
of a web interface, and the discovery of other relays through the BitTorrent DHT.

`src/` is the library. Its functions are verified with Verus against the contracts that they
carry.

- `policy`: which events the relay takes, and why others are refused
- `filters`: the kinds of events that the archive is made of, and the filters for them
- `http`: websocket upgrades, and the answers to requests for files
- `peers`: port mapping, announcements, and the relays that a tick adds and syncs with
- `notifications`: errors on saving an event
- `running`: when the parts of the server go on, and when they stop
- `settings`: the settings and their defaults
- `address`, `digest`, `text`: what the others are built on

`app/` is the program around it: the settings file, the database, the sockets and the DHT. It
performs what the library decides and hands back what came of it.
