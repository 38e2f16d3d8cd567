# invoice_ocr_app

Turns the OCR output of Chinese VAT invoices (Markdown with HTML tables,
layout blocks, or the JSON of an OCR service) into a standard set of invoice
fields, merges the pages and files of one invoice, groups files by invoice,
and lays records out for an Excel export.

- `src/` is the library, written and proved with Verus: table parsing,
  header recognition, commodity details, party and footer fields, totals,
  metadata, the standard result and its merging, grouping and export layout.
  `src/laws.rs` holds the properties that span several operations.
- `app/` is a command-line program around it: files, the database, HTTP
  calls to the OCR services, PDF rendering and the workbook writer.  A
  recognition run is a state machine of the library (`recognize_step`):
  app/ performs each action it asks for and reports the outcome.
- `tests/` runs the library on concrete inputs.
