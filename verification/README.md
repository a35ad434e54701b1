# pictochat_rs

A PictoChat host: handheld consoles join its chat room over local wireless, and whatever happens in
the room goes to and from the network over a websocket.

- `src/` is the library, verified with Verus. It decides; it does no input or output.
  - `ds_local_wifi_driver/` polls the consoles: the frames (`frames`, `flags`), the 802.11 layer
    below them (`link`), what an application gets and gives (`layer`), the driver (`driver`)
    over its mathematical state (`state`), its cycle step by step (`cycle`), a whole run of it
    (`run`), and what holds of all of it (`properties`).
  - `pictochat_app_driver/` is the chat room: its packets (`pictochat_packets`), what it is told and
    tells (`events`), its state and how it changes (`chat`), the application itself
    (`pictochat_app_driver`), and what holds of all of it (`properties`).
  - `network` puts events in the network's terms and follows the network link.
  - `hooks` and `raw_wifi` serve the radio's firmware.
  - `mac_address`, `wide_string` and `wire` are the values that the formats are made of.
- `tests/` runs the library on concrete values.
- `app/` is the program for the ESP32: it waits, receives and sends, and asks the library what to do.
  The bytes of the beacon's vendor tag come from a component that is linked in.
