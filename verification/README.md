# clip_mash

The core of a tool that cuts compilations out of many videos, guided by
markers (stretches of a video with a title), songs and their beats. The
library in `src/` is verified with Verus. Each public function has a
contract that states what it returns, as far as that does not rest on chance
(shuffles, drawn numbers) or on how the platform reads paths: the path
contracts speak only of paths that every platform reads alike, and leave
open which separator a join puts in, and whether it puts one after a base
that ends with `\` or is a bare drive. The
proof functions named `lemma_*` state the properties that hold across calls
(merging clips twice changes nothing, sorting keeps every clip, the beat walk
always moves forward, and so on).

Times are carried as a type parameter `T` wherever the library only passes
them along; the arithmetic on floating-point times lives in `app/`.

Layout:

- `src/` the verified library, one module per concern: clips and their
  merging (`clip`), markers (`markers`), orderings (`sort`), the walk over
  song beats (`pmv`), funscripts (`funscript`), `ffmpeg` command lines
  (`ffmpeg`, `generator`), stream URLs (`streams`), the Stash merge rules
  (`library`), the Handy control loop (`handy`), and small helpers.
- `app/` the command line client and the unverified rest: I/O, HTTP,
  serialization, and the floating-point clip pickers.
- `tests/` tests of the library on concrete values.
