# rust_math

A film-length calculator for a packaging workshop, verified with Verus.

From an order's weight (kg), its width (mm) and its layer materials and
microns it computes the length of film:

```text
length  = KG / ((coefficient of layer 1 + coefficient of layer 2) * WIDTH_CM) * 6000
total   = length + 5% waste
rounded = total rounded up to a multiple of 500
```

Numbers are exact decimals (`num::Decimal`); coefficients are kept in
thousandths, so that every step of the formula is a fraction of integers.

## Layout

- `src/` — the verified library.
  - `text`, `num`, `lev`, `coeff`, `paths`: strings, exact decimals, the
    edit distance, the coefficient tables and the parts of a path.
  - Terminal calculator: `cli_materials` (material families, microns,
    coefficients), `cli_calc` (the formula), `cli_table` (tables with report
    columns), `cli_args` (command line and file formats), `cli_session` (the
    question-by-question mode and the demonstration rows).
  - Telegram bot: `materials`, `order`, `calc` (orders and their variants),
    `headers`, `table`, `csv_processor`, `xlsx_processor` (files of orders),
    `material_parser`, `form` (the order form), `formatter` (message texts),
    `registry`, `config`, `state`, `telegram`, `bot` (what each update does),
    `order_sheet`, `file_handler`.
- `tests/` — tests run against the compiled library.
- `app/` — the programs around it: terminal input and output, files,
  Excel workbooks (calamine, umya-spreadsheet) and the Telegram API
  (reqwest, tokio). `app/main.rs` runs the calculator; `--bot` runs the bot.
