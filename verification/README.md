# invoicemd-cli

Generates HTML (and PDF) invoices from YAML files with Tera templates.

- `src/` is the verified library (Verus): invoice documents with their
  decimal arithmetic (`rust_decimal`) and dates (`chrono`), validation with
  exact error messages, the template context and the variables it gives, rendering
  with Tera (bundled or custom templates, filename templates), output file
  names, the choice of input files, and the HTML clean-up before PDF layout.
  Each public function states its result in `ensures` (for rendering with
  Tera: which templates and variables Tera was handed, and that the text that
  comes back is a rendering of them); the `lemma_*` proof functions state
  the properties that hold across calls (for example, a document that passes
  validation has declared totals equal to the computed ones).
- `app/` is the command-line program: argument parsing (`clap`), reading
  YAML (`serde_yaml`), reading the template file, walking directories and
  globs, PDF layout (`printpdf`) and writing files.
- `tests/` exercises the library on concrete invoices.
