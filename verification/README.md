# mini-mdr

A UPnP/DLNA media renderer that lives in the system tray. Control points in the
local network find it, hand it the address of a piece of media, and start, pause,
seek and stop it; mpv or VLC plays it.

What the renderer decides is verified with [Verus](https://github.com/verus-lang/verus):
every function under `src/` states in its `ensures` what it returns or changes, and
Verus proves it. Threads, sockets, processes, files and the tray icon are under `app/`,
which is ordinary Rust around that library.

## The library

| Module | What it does |
| --- | --- |
| `text`, `number`, `bytes`, `fields` | texts, numbers, bytes and named values |
| `xml`, `xml_laws`, `json`, `encoding` | escaping, decoding, elements, forms, base64 |
| `http` | requests as they come in, and responses |
| `clock`, `state`, `config`, `log`, `autostart` | times, the renderer's state, its configuration, its log |
| `i18n`, `locales` | what users see, in English and Chinese |
| `net`, `ssdp` | addresses, and discovery |
| `upnp` | descriptions, control actions, subscriptions to events, connections |
| `player` | mpv and VLC |
| `web` | the settings page and its server |
| `app`, `tray` | the commands of the application, and its menu |

An operation that has to wait for something outside (a player, a disk, a name server)
is a function from a state and an answer to the next step; `app/` performs the steps.
So no lock needs to be held while it waits.

Public proof functions whose names begin with `law_` state what holds across
functions: that a fault changes nothing, that escaped text is read back, that a
subscription can be renewed only at its own service, and so on.

## What is taken on trust

Calls into other crates stand behind small functions marked
`#[verifier::external_body]`, each with a comment that says what is claimed of the
call: `serde_json` for strings and for the answers of mpv, `toml` for a value in the
configuration, `fluent` for texts, and `std` for UTF-8 and the clock.

## Resources

`resources/icon.rgba` (32x32, RGBA), `resources/icon.png`, `resources/icon.ico` and
`resources/index.html` are read from the working directory where they exist. Without
them the tray shows a plain square, and the settings page is the one in `src/web`.
