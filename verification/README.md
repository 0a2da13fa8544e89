# bitchat

A client for chatting with people nearby over Bluetooth Low Energy, without a server. Packets
are passed on from device to device; messages are public, meant for a channel, or private.

`src/` is the protocol and the client's rules, verified with Verus:

| module | what it is about |
| --- | --- |
| `protocol` | constants, message types, padding, when a message is confirmed |
| `packet` | packets: reading them and putting them together |
| `message` | chat messages: reading them and putting them together |
| `fragmentation`, `collector` | cutting packets to pieces, and putting the pieces together |
| `delivery` | which messages have arrived, and which were confirmed |
| `ble` | how packets are sent, and the announcements of channels |
| `peers`, `channels`, `seen` | what the client knows |
| `commands`, `client`, `outbox`, `inbox` | what the client does |
| `text`, `bytes`, `table` | text, numbers in bytes, and a small map |
| `adapters` | the calls that leave the library, with the contracts that are believed of them |

`app/` is the terminal program around it: Bluetooth, the screen, the file that keeps the
client's state. `tests/` runs the library on concrete values.

Every public function of `src/` states what it returns, as far as the clock and chance leave it
fixed. Beyond that, public proof functions state what
holds of several functions together: that reading undoes writing for packets, messages,
fragments and announcements; that pieces complete a packet in whatever order they arrive; that a
packet is not passed on for ever; that nothing is confirmed or reported twice.
