# Project Butler, verified core

The launcher groups development commands into projects, starts them, streams
their output into log tabs and shows short notices. This crate holds the part
of it that decides things, with Verus contracts:

- `src/text.rs`: whitespace, trimming, splitting at whitespace, decimals.
- `src/config.rs`: projects and apps, loading icon data, adding apps.
- `src/forms.rs`: the "Add Project" and "Add App" forms and what they produce.
- `src/process.rs`: launched processes, their status, the watcher's decisions.
- `src/dashboard.rs`: processes, log tabs and notices as events arrive.
- `src/toast.rs`: notices.
- `src/view.rs`: labels, glyphs, CSS classes and styles chosen from state.
- `src/lookup.rs`: first occurrence of a value in a sequence.
- `src/trusted.rs`: the calls into `uuid`, `base64`, `tokio` and `std::path`,
  with the contracts that are believed rather than proved.

`app/` is the desktop program around it: the Dioxus components, reading and
writing `config.json` through serde, starting children with tokio, and the
file dialogs.
