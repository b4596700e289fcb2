# dimicon

Docker image icons: the parsing of Docker image references and the rules by
which an icon is looked up for an image, written in Verus and proved against
their specifications.

- `src/text.rs`: white space and trimming, first and last occurrence of a
  character, splitting and joining on a separator, with the lemmas the parser
  rests on.
- `src/parser.rs`: `ImageReference`, the specification `spec_parse` of what a
  reference string means, and the parser proved to compute it.
- `src/round_trip.rs`: when the short text form of a reference parses back to
  the same reference.
- `src/types.rs`: `IconSource` and `Icon`.
- `src/service.rs`: which sources are asked for an image, in which order and
  at which URL, how their answers are read, and the lookup as a state machine.
- `src/error.rs`: the error type.
- `app/lib.rs`: the HTTP side (`IconService`, built on `reqwest`), and the
  serde, thiserror and `Display` forms of the library's types.
