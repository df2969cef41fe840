# inject

A client for a Java game that runs inside the game's process and drives the
game's classes through JNI.

- `src/` is the verified library:
  - `derive` and `generate`: the code that `#[derive(Inject)]` generates for a
    class wrapper (constructor, field getters and setters, method calls), and the
    field list that `#[inject]` gives the wrapper, computed from a plain model of
    the struct declaration (`model`), with the argument map of an attribute
    (`args`);
  - `hook`: the bytes written to detour a function (absolute-jump patch,
    trampoline, and the relative-jump gateway);
  - `client`: the small callbacks that the client installs, and the steps of
    the client's routine once it is injected (`client_next`);
  - `parse`: the calls into `syn` that read the source text of a struct
    declaration into that model, and the derive on source text;
  - `text`: string helpers, the decoding of string literals, and the call into
    `proc-macro2` that writes them (the code builders take the literal texts as
    arguments).
- `app/` holds what talks to the outside: the token glue of the derive and
  the attribute, the JNI and Windows plumbing of the injected library (which performs
  the routine's steps), and the injector program.
