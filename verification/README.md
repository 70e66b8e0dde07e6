# DSH Desktop

A Windows desktop host for DeepSeek Harness: it installs and manages private
runtime copies of the official `@deepseek-ai/dsh` package, starts `dsh web`,
and shows the Harness page in a desktop WebView.

The crate is written in Verus. `src/` is the verified library: release
manifests and version precedence, the update check (which copies and registry
versions are found, how they are ordered, which one is offered, what the
update dialog says), the runtime copy records and their safety rules, the
archive unpacking guard, the line protocol with the Harness process, the
native dialog layout, and the menu decisions of the host.

`app/` is the program around it: the Tauri window and tray, the Windows task
dialogs and Job Objects, file and network I/O, and the serde forms of the
library's records. `tests/` exercises the library with concrete values.

The Tauri configuration and the bundled resources (`resources/` with the
bootstrap seed and the desktop bridge module and patch) belong next to
`app/` when the program is built.
