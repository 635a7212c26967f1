# turmy

A terminal user interface for [Slurm](https://slurm.schedmd.com/): it lists the
jobs of the queue, shows the details and the live output of the selected job,
cancels and signals jobs, changes their time limits, and updates itself.

`src/` is the library, in Verus. It holds the logic of the program as functions
on plain values, each with a contract that is proved:

| Part | Modules |
| --- | --- |
| State of the application, messages, keys and mouse | `app`, `dialog`, `input`, `list`, `line_edit` |
| Laws of the application over several messages | `app_laws` |
| What is on the screen | `screen`, `layout`, `panes`, `dialog_box`, `output`, `viewport`, `plain`, `styled`, `geometry` |
| Jobs and the commands on them | `job`, `command` |
| Following and decoding log files | `file_watcher`, `file_watcher_laws`, `log_decoder`, `decode`, `path` |
| Updates | `update_flow`, `updater`, `version`, `checksum`, `archive` |
| Text and the standard library | `text`, `formatting`, `clipboard`, `standard` |

What the library has from other crates (display widths, grapheme clusters, the
editing of a text field, layouts, clipboard sequences, versions, digests and
archives) it calls through small functions marked `external_body` or through
`assume_specification`; the comment above each says what is claimed of the call.

`app/` is the program around the library: threads, files, processes, the
terminal and the network. It takes the jobs of the queue from a sender that its
caller fills. `tests/` runs the library on concrete values.

## Controls

| Action | Keyboard | Mouse |
| --- | --- | --- |
| Focus a pane | `Tab` / `Shift-Tab` | Click |
| Select or scroll vertically | `Up`/`Down` or `j`/`k` | Wheel |
| Scroll by half a page | `Ctrl-u` / `Ctrl-d` | |
| Scroll by a page | `PageUp` / `PageDown` | |
| Go to the beginning or end | `Home`/`End` or `g`/`G` | |
| Scroll horizontally | `Left`/`Right` or `h`/`l` | `Shift` and wheel |
| Select output | | Drag in the output pane |
| Copy the selection or all output | `y` or `Ctrl-c`, `Y` | |
| Toggle stdout and stderr, or wrapping | `o`, `w` | |
| Show or hide finished jobs | `f` | |
| Cancel, signal, set a time limit | `c`, `C`, `t` | |
| Help, quit | `?`, `q` | |

With `Ctrl` or `Alt`, an arrow key scrolls ten lines or columns at a time.
