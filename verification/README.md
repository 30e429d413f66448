# AFSim linker

Opens AFSim scenario scripts from `afsim://run?scene=<scenario>&script=<entry>`
links: the program registers the `afsim://` scheme with the operating system,
reads the link it is started with, checks its settings and starts the
simulator on `<script base>/<scenario>/<entry>`.

- `src/` is the library, verified with Verus: link parsing (`url_scheme`,
  `params`), the registration files and registry values (`registration`),
  the settings and launch checks (`config`, `executor`, `paths`), the
  command line (`cli`) and the window's state machine (`app`), on top of the
  text functions in `text`.
- `app/` is the program around it: the egui window, the file, registry and
  process work, and `main`.
- `tests/` runs the library on concrete values.
