# murmur

Peer-to-peer text and voice chat: servers and channels over gossip topics,
end-to-end encryption (X25519, HKDF-SHA256, AES-256-GCM), store-and-forward
delivery to offline peers, and clock-aligned voice playback.

## Layout

- `src/` — the verified library (Verus).
  - `types` — users, servers, channels, messages, invites.
  - `crypto` — end-to-end encryption (`e2e`), the relay store for offline
    peers (`store_forward`) and the cryptographic primitives it calls.
  - `state` — the application state and how every change keeps it
    consistent.
  - `ui` — the interface's state machine (`app`), what it shows
    (`view_model`) and its colours (`theme`).
  - `network` — the node's decisions (`node`), network commands and the
    persistent identity.
  - `media` — clock synchronisation, screen-share state, voice events.
  - `keyed`, `text`, `codec` — keyed lists, text and encoding helpers.
- `tests/` — tests of the library.
- `app/` — the program: storage (sled), the libp2p swarm, the audio engine
  and the iced window, all driving the library.
