# quicken

Liveness checking for kernel primitives: a library verified with Verus, and the command-line
program around it.

A primitive can be compiled, packaged and installed and still do nothing at run time. `quicken`
decides for each primitive whether it is live, keeps a receipt of every attestation, says what
changed since the last one and for how many boots a primitive has been dark, and gets louder the
longer it stays so.

## Layout

- `src/`: the library. Everything in it is proved; what it takes from `chrono`, `serde_json` and
  the standard library without proof stands in five small functions, each with its claim.
  - `probes`: the verdict on each primitive, from what was observed of it
  - `delta`, `streak`, `receipt`, `store`, `order`, `attest`: receipts, their order on disk, and
    what they say together
  - `crossdep`: which dark primitive holds back which
  - `remedy`: what would revive a primitive, and which of it may be done without asking
  - `watch`, `notify`: events for the bus, and which events are worth a line
  - `render`: tables, labels and exit codes
  - `text`, `split`, `json`, `paths`, `names`, `time`: the ground that the rest stands on
- `app/`: the program: arguments, files, devices, other programs, JSON.
- `tests/`: tests of the library.

## What is proved

Every function of the library states what it returns; of a clock that a caller brings, nothing is
assumed. Beyond that, public proof functions state what holds between them, among others:

- a streak grows by one with every dark boot, ends with the first receipt that is not dark,
  counts boots and not receipts, and from the third boot on gets other words with each;
- to the millisecond and for the years 0 to 9999, receipts sort by file name as they do by time;
- in whatever order a directory lists its files, the same receipts are loaded in the same order;
  one more file, named after its receipt, leaves the others in their order and adds that receipt;
- one primitive is blocked by another exactly where reviving the other would upgrade it;
- whatever is run is the command of a safe step, a failure ends the run and is handed on, and no
  safe step that is prescribed calls `sudo`;
- an event is signalled once, a plateau is silent, and going dark is never missed.
