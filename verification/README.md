# unimarkup

Pieces of the Unimarkup markup language toolchain, written in Verus and proved against
their contracts.

- `tokenizer`: splits inline Unimarkup text into tokens (bold, italic, verbatim, text groups,
  escapes, spaces, newlines). Every step is stated as a function in `tokenizer::model`; the
  executable tokenizer computes exactly that function. `tokenizer::laws`, `tokenizer::shift`,
  `tokenizer::filled` and `tokenizer::content` prove what holds of every tokenization: the
  first token starts at the given offset, and starting at an offset only shifts the positions
  of the tokens; input without `[` never fails; tokenizing up to a kind ends on that kind or
  fails, and a text group ends on its `]`; after a closing token closes its opener, only
  openers before it stay open and the closing token stays last; a `*` adds exactly its own
  text; reading a grapheme keeps the text read so far; no token is empty. The tokens hold the graphemes of the input without the backslashes that escape a
  grapheme and without a `]` before any other text; for an input without backslashes that
  does not start with `]`, whose length times four fits in a `usize`, they hold the input
  itself. `tokenizer::stuck` names the inputs on which a closing token meets nothing it could
  close; tokenization is not defined on them, and `try_tokenize` tells them apart at run time.
- `tokenize::kind`: the token kinds of inline parsing and their conversion from and to the
  kinds of the lexer (`lexer`).
- `parser`: block starts, the parsers tried at each start, heading levels and heading ids,
  bullet list keywords and entry boundaries, verbatim blocks with their opening line and end, element types and the
  block/inline parser context.
- `render`: HTML elements and documents with their text (rendering blocks in order and
  stopping at the first that fails), the HTML renderer of each element,
  syntax highlighting of verbatim blocks (through syntect), HTML tags, CSL bibliography names,
  the citation texts of a rendering, and UMI rows with the blocks they are read back into
  (their properties through serde_json).
- `text`: grapheme segmentation (through unicode-segmentation), trimming, lower casing and
  string comparison.

Run the tests in `tests/` against the verified crate.
