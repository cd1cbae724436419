# kazari

Typed, capability-honest line output for command-line tools: banners,
callouts, panels, rules, lists, badges and tables as pure-data blocks that
lay out into lines of role-tagged fragments and render under a
`Capability`. The same block value degrades truecolor → 256 → 16 → no color;
without color it emits zero escape bytes and a plain `[TAG]` / ASCII
projection.

The library in `src/` is verified with Verus:

- `caps` — the color-depth ladder, the capability record, the precedence
  fold that picks a depth from the environment's answers, width and locale
  decisions, and the integer half of the RGB → 256 → 16 quantizer.
- `theme` — roles and the dark-Nord theme (palette read from `irodori`).
- `style` — the SGR atom; escape bytes come from `anstyle`'s renderer.
- `ir`, `blocks`, `render` — fragments, the block set and their layouts, and
  the emitter with an in-memory environment.
- `lisp` — the `(def<block> …)` S-expression authoring forms.
- `laws` — properties proved of every block, capability and color.

`app/` holds what touches the real terminal: probing the environment, the
floating-point (linear-light) choice between quantizer candidates, and
writing to stdout / stderr.
