# Nicotine

Nicotine switches between the windows of several EVE Online clients on Linux
(X11 and Wayland) and on Windows. It cycles forward and backward with keys,
mouse buttons or commands, jumps to a client by number or character, shows a
live preview of each client or a list of them, and stacks the clients on the
screen.

The decisions are a library in `src/`, written in Verus: each function states
what it returns in `requires` and `ensures`, and Verus proves that the code does
that. The program around it, with its windows, sockets, devices and files, is in
`app/` and is not verified. `tests/` runs the library.

## Modules

| Module | What it decides |
| --- | --- |
| `config`, `preview_positions`, `paths` | settings and their defaults, where files lie |
| `window_manager`, `wayland_backends`, `windows_manager` | which windows are clients, what the desktop is told |
| `cycle_state` | the order of the clients and the step from one to the next |
| `daemon` | commands on the socket and on the command line, taking over new settings |
| `evdev_util`, `keyboard_listener`, `mouse_listener` | input devices, keys and buttons on Linux |
| `windows_helpers`, `windows_input` | hotkeys and the mouse hook on Windows |
| `preview_common`, `preview_x11`, `preview_windows`, `render` | preview windows, dragging, snapping, painting |
| `config_panel`, `config_editor`, `key_codes`, `overlay` | the settings window and the overlay |
| `boss`, `eve_match` | clients among the processes, panic actions |
| `telemetry`, `version_check` | the launch ping's identifier, releases |
| `xdg_activation`, `pointer_nudge` | focus on Wayland |
| `text`, `numerals`, `json`, `name_map`, `search`, `ascending`, `clock` | text, numbers, JSON, maps by name, time |

Laws that relate several functions are public proof functions whose names start
with `law_`.

What is taken from outside without proof stands in functions marked
`external_body` and in `assume_specification` items, each with a comment that
names the outside function.

## Running

The program looks for its fonts and its jingle in a directory `assets` beside
the executable. Settings are in `~/.config/nicotine/config.toml`, which is
written on the first run; `characters.txt` beside it may hold the cycle order,
one name per line.
