# monkey

A verified parser for the Monkey language: it reads a token buffer into a
syntax tree, by recursive descent for statements and operands and by
precedence climbing for operators.

- `src/token.rs`: tokens, the `Tokens` window and token equality.
- `src/ast.rs`: the syntax tree, its mathematical model (lists become
  sequences) and copies that keep the model.
- `src/grammar.rs`: the grammar, written as a deterministic parser in spec
  code over token sequences.
- `src/parser.rs`: the executable parser; every rule is proved to return
  exactly what the grammar reads, errors included, and
  `Parser::parse_tokens` fails exactly when the tokens have no reading, with
  the tokens left where the end-of-file token was expected and the kind of
  failure.
- `src/render.rs`: the fully parenthesised token rendering of a program.
- `src/tails.rs`: every rule leaves a tail of its input and consumes no
  end-of-file token; a program reading stops right after the first one.
- `src/locality.rs`: a reading does not depend on what follows it beyond the
  one token it looks at where it stops; from that, parentheses around any
  expression change nothing, and two token programs, the first ending on a
  semicolon, read as their statements joined.
- `src/laws.rs`: proved laws: a rendered program reads back as itself, and
  two rendered programs written one after the other read as their
  statements joined; the order of binding powers; precedence, associativity,
  prefix, call and index binding; an expression read up to a `)` reads the
  same inside parentheses; a closing semicolon before a token that cannot
  continue the statement may be left out.
- `src/cmd.rs`: the choice of command from the command-line values.
- `app/main.rs`: the command-line front end.
