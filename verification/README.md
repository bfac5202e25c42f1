# cnc_job

The decisions of a CNC job sender, written and proved with Verus: how a program
is read, what each command of the operator does, how a job sends the lines of a
program one after the other, how the Z offset goes into a line, and how the
machine's replies are read.

The library does no input or output. A decision is a list of effects
(`effect::Effect`), which are carried out in order; the last of them is answered
by an event, with which the next decision is made.

- `text`, `single`, `pattern`, `ascii`: text, single-precision numbers by their
  bit patterns, the regular expressions, and what these match in ASCII texts
- `program`, `offset`, `shift`: reading a program, adding the Z offset to a line,
  what the line keeps then
- `status`, `effect`: job status and commands, effects and events
- `line`, `next_line`, `job`, `controller`: sending a line, a single line, a
  whole program; the operator's commands
- `target`, `exchange`, `report`, `panel`: where the machine is, one exchange
  with it, its status reports, the operator's panel

`app/` is the dashboard around the library: the connection, the window and the
loops that carry the effects out. To run it, `slint` needs the feature of a
window backend besides those in `Cargo.toml`.
