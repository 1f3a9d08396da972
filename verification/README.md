# otpc

A terminal program that keeps credentials for time-based one-time passwords in the keyring and
shows their current codes.

`src/` is a library, verified with Verus: it holds the rules of the program as functions on plain
values. `app/` is the program around it: the terminal, the keyring, the clipboard, files and the
displays. It needs the crate `xcap` besides those in `Cargo.toml`.

| Module | |
| --- | --- |
| `text` | control codes, rows of fixed width, trimming, decimal numbers |
| `keys` | key presses and other events of the terminal |
| `prompt` | the line that a prompt edits |
| `config` | the stored credentials and their numbers |
| `store` | reading the store back, and its faults |
| `otpauth` | credentials out of `otpauth` and `otpauth-migration` URLs |
| `codes` | current codes and how long they stay valid |
| `paths` | components of paths, and the home directory behind a tilde |
| `completion`, `candidates` | completing a path at the cursor |
| `sources` | credentials from a URL, an image or the screen, and the faults of files |
| `app`, `events`, `outcomes` | the state of the program, and how it answers events and outcomes |
| `screen` | what the terminal shows |
| `steps` | what every step of the program keeps |

The library does no input or output. Where the program needs some, a function of `events` or
`outcomes` returns an `Action`; `app/` performs it and hands the outcome to the function that the
action names.

Paths are Unix paths.

Some functions ask for something of their caller. `handle_event` wants a state that `App::new` and
the other functions of the library have made, and no key for which `impossible` holds. A
credential whose URL asks for ten digits or more, or for a period of no seconds, has no code:
`draw` and `copy_selected_code` then return `None`. `ScreenScan::observe_capture` takes pictures of at
most 32767 pixels in either direction, and asks the first of two readers of QR codes; for larger
pictures, and where that reader finds nothing, `app/` asks both.
