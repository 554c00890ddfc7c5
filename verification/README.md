# cucumber

The logic of a Cucumber-style test runner for Gherkin `.feature` files,
written in Verus with its contracts proved.

- `src/` is the verified library: step matching (`step`), Scenario Outline
  expansion (`feature`, `examples`), tag expressions (`tag`), retry policy,
  scenario scheduling and run bookkeeping (`runner::basic`), the state
  machines of running steps and scenarios (`runner::flow`,
  `runner::basic::executor`), run statistics (`runner::stats`), log framing
  (`runner::log_frames`), run events (`event`) and console output
  (`output`). Calls into `regex`, `itertools`, `humantime`, `textwrap`,
  `gherkin` and `globwalk` go through small trusted wrappers whose contracts
  are stated next to them.
- `app/` is the program side: command-line options (`clap`), reading
  `.feature` files (`gherkin`), printing with colors (`termcolor`),
  catching panics, and a serial runner that calls step functions and hands
  their outcomes to the library.
- `tests/` exercises the library on concrete values.
