# assay

Capability and gap analysis for moving Windows UWP and Electron apps to Tauri v2, with every
decision the tool makes stated as a contract and proved with Verus.

- `src/` is the verified library: the capability matrix and its report, profile analysis,
  `AppxManifest.xml` parsing (typed manifest over the XML reader's event stream, and the
  capability/PWA views over the parsed document), hosted-PWA detection and the Tauri project it
  becomes, the UWP and Electron flows, app discovery (filtering, ordering, package names), the
  cross-WebView divergence harness (diff, report, probe, DevTools reply handling) and the toast
  XML shim. Calls into `quick-xml`, `roxmltree` and `serde_json` stand behind small trusted
  wrappers whose contracts name what those crates compute.
- `app/` is the command line (`assay`, and `webview-qa` when invoked under that name): argument
  parsing, files, the registry and process table, the headless browser, and the serde forms of
  the library's data.
- `tests/` exercises the library on concrete inputs.

Bridge scaffolding, native-module detection and the sidecar migration kit are not part of
this project: the flows take their outputs as arguments, and the command line's `scaffold` and
`sidecar` commands report that they are not available.
