# niri_workbench

Named workspaces for the Niri compositor, written down as recipes: which windows
belong on a workspace, how each is recognised or started, and where it stands. The
program compares a recipe with what is on the screen and brings the one to the other.
It never closes a window.

The library in `src/` is verified with Verus. It does no I/O: it takes what was
observed as plain values and says what is to be done. The program in `app/` talks to
the compositor, reads and writes files, and draws the windows.

## Library

| Subject | Modules |
| --- | --- |
| Recipes and observations | `model`, `names`, `sizes`, `same`, `show` |
| Checking a library of recipes | `config`, `config_laws` |
| Finding windows | `matcher`, `match_laws`, `resolve` |
| Starting windows | `spawn`, `environment`, `process`, `shell_laws`, `launch`, `paths` |
| Planning and applying | `planner`, `plan_laws`, `execute`, `apply`, `outputs` |
| Following the compositor | `events`, `event_laws`, `session` |
| Saving what is on the screen | `capture`, `capture_form`, `capture_laws`, `saving`, `save_laws`, `snapshot_laws`, `naming` |
| Editing a recipe | `editing`, `edit_laws`, `editor`, `canvas`, `picker`, `commands` |
| Pages, launcher and words | `pages`, `quick`, `interface`, `icons`, `i18n`, `i18n_laws`, `settings` |
| Installed applications, the desktop | `apps`, `desktop` |
| Reports for the command line | `report`, `doctor` |
| Lists, texts, calls into other crates | `lists`, `text`, `outside` |

The contracts speak of views: every type has one, made of `Seq`, `Option` and
integers. The modules named `*_laws` hold what relates several functions. Everything
that is believed without proof stands in `outside`, but for `String::push` in `text`.

A share of the screen and the extent of a tile are held as the bits of a double. What
needs floating-point arithmetic is done in `app/extent.rs`, and the library takes the
outcome as an argument.

## Program

`app/` is one program under two names: `niri-workbench` for the command line and
`niri-workbench-ui` for the windows, which need GTK 4 and libadwaita.
