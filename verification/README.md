# pdsc

Reads CMSIS pack descriptions (`.pdsc` files): the components, conditions,
releases, devices and boards that a software pack declares.

- `src/` is the library, verified with Verus. `minidom` parses the XML text
  into a plain element tree (`xml::XmlElem`); everything after that — the
  reading of each kind of element, the inheritance of memories and flash
  algorithms from device families to devices and variants, the completion
  of components with bundle and pack defaults, the consistency check of a
  pack and the merging of device lists across packs — is verified code whose
  contracts are stated over character sequences and maps.
- `src/laws.rs` states properties that span several functions.
- `app/` holds the command-line side: argument definitions (`clap`), file
  reading and writing, and JSON output (`serde_json`).
- `tests/` runs the library on concrete elements and documents.
