# erm

A terminal batch renamer. The files of the current directory are listed in
one panel, an ordered list of rename rules in the other; every file shows the
name the rules would give it, and the rules can be applied as a dry run or on
disk.

- `src/` is the verified library: splitting names into stem and extension,
  the rules (find/replace, regex find/replace, prefix, suffix, case change,
  pattern removal, numbering), the file listing order, the renamer's state and
  what each key press does to it, and the text of the screen.
- `app/` is the terminal front end (ratatui, crossterm): it reads the
  directory, draws, reads keys and performs the renames on disk.
- `tests/` runs the library on concrete inputs.
