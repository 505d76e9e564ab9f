# rutty

A terminal emulator and serial console that supports the most common network and file transfer
protocols in a single command-line tool: serial ports, raw TCP streams, SSH sessions and file copies
over SFTP.

The project has two parts.

- `src/` is the library, verified with Verus. It takes every decision of the tool and does no input
  or output: it turns options into a plan of the connection, keystrokes into bytes to send, serial
  parameters into terminal attributes, and it walks directories in recursive transfers by telling
  what to do next and being told how it turned out.
- `app/` is the tool itself. It performs what the library decides, with tokio, nix, ssh2 and
  indicatif.

| Module | Contents |
| --- | --- |
| `opts` | the options of the command line |
| `cli` | the plan of a connection, and the interactive session |
| `serial`, `termios`, `tty` | serial port options, terminal attributes, the user's terminal |
| `ssh` | destinations, logins, command lines, and retries of non-blocking calls |
| `scp`, `upload`, `download`, `transfer` | file copies |
| `tree` | what arrives where when a whole directory tree is copied |
| `path`, `text` | Unix paths as bytes, and small operations on text |

The contracts rest on a few trusted items, each of them marked as such in its documentation: the
bits of the terminal and open flags, three functions on terminal attributes, the conversion of bytes
to text, and the clearing of passwords.
