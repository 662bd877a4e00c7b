# whyno

A journal of the wines you have tried, as a verified library and a small
command line around it.

- `src/` is the library, written in Verus and proved:
  - `text`: Unicode white space, trimming, lower case, substring search and
    decimal numerals over character sequences;
  - `wine`: the wine record, the input it is made from, and the rules by
    which an input is checked and normalised;
  - `journal`: adding, finding, updating and removing wines, with the
    journal's rules (unique ids, sound records) kept by each operation;
  - `query`: the filters of a listing and the rating summary;
  - `render`: the lines that the commands print.
- `app/` is the `whyno` program: argument parsing, the JSON journal file,
  and the formatting of floating-point numbers.
- `tests/` runs the library on concrete journals.

A price is held in the library as the bit pattern of an IEEE 754 binary32
number (`f32::to_bits`); the program converts at its edge.
