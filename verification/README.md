# saola-session

A session daemon for Wayland desktops with systemd-logind. It

- locks the session before the system sleeps, and on `loginctl lock-session`;
- locks it, or switches the monitors off, when nobody has used it for a while;
- serves applications that ask for the session to be kept awake
  (`org.freedesktop.ScreenSaver`).

What must not happen, worst first: the session is open while nobody is there; a
suspend is held up; a lock comes that nobody asked for.

## Layout

`src/` is the logic, verified with [Verus](https://github.com/verus-lang/verus).
It does no I/O: what waits for the system is a state machine that names the next
thing to do and takes the outcome of it.

| Module | What it holds |
| --- | --- |
| `sleep`, `sleep_laws` | the delay inhibitor, and the session before a suspend |
| `locker` | whether a locker is started, and the locker command |
| `logind` | the deadline for a lock, and the search for the session |
| `idle`, `idle_laws` | what happens when the session is idle |
| `inhibit`, `inhibit_laws` | the requests to keep the session awake |
| `awake_laws` | the idle policy together with these requests |
| `config`, `paths` | `session.toml`, and where it is |
| `document` | what is believed of the `toml` crate |
| `cli` | the command line, and the exit status |
| `text`, `duration` | white space and words, lengths of time |

The functions named `law_...` state what holds over any course of events.

`app/` is the daemon around it: D-Bus, Wayland, processes, files and logging.

## Configuration

`$SAOLA_CONFIG_DIR/session.toml`, or `$XDG_CONFIG_HOME/saola/session.toml`, or
`~/.config/saola/session.toml`. All of it can be left out.

```toml
locker = "saola-lockscreen"
lock-before-sleep = true

[idle]
lock-after-secs = 300
power-off-after-secs = 600
```

`saola-session --check-config` shows what it comes to.
