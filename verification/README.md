# webapps

The core of WebApps, a desktop shell that hosts web apps in spaces, as a
library verified with Verus: the configuration model, the space and app
commands, the webview bookkeeping, camera/microphone permissions, link and
popup routing, keyboard shortcuts, favicon discovery, and the renderer and
media fallback ladders. Each public function states its result in its
contract; the laws of the library are proof functions named `law_*`.

Layout:

- `src/` — the verified library, one module per concern (`spaces`, `apps`,
  `permissions`, `webviews`, `links`, `favicon`, `shortcuts`, `dialog`,
  `storage`, `lifecycle`, `render_mode`, `media_mode`), over the shared
  `models`, `state`, `text` and `numbers`.
- `tests/` — tests run against the compiled library.
- `app/` — the Tauri program around it: windows, webviews, files, network.
