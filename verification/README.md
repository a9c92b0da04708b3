# perry

The verified core of a runtime and compiler for JavaScript. `src/` is a Verus
library: every function states what it does, and Verus proves it.

| Module | What it holds |
| --- | --- |
| `nanbox` | doubles, boxed integers and the other values of a 64-bit word |
| `array_layout` | numeric layouts of arrays, and the writes that keep or end them |
| `array_receiver` | which array, buffer or typed array a word stands for |
| `array_copy` | `toReversed`, `toSorted`, `toSpliced`, `with`, `copyWithin` |
| `array_props` | named properties of arrays, and template objects |
| `array_fold`, `hir` | rewriting array, map and set methods at compile time |
| `temp_root` | keeping operands alive while later operands are evaluated |
| `rooting` | what that code does when it runs and the collector moves objects |
| `hdr`, `sums`, `histogram`, `histogram_api` | performance histograms |
| `layout_tables` | per-object layout records, and what makes looking them up cheap |
| `roots` | visiting roots and following moved objects |
| `schedule` | a seeded choice of safepoints at which to collect |
| `gc_types`, `gc_env`, `gc_policy`, `gc_budget`, `gc_collect`, `gc_init` | when and how to collect |
| `text` | comparing and reading text |

Proof functions named `law_..` state what holds across several functions.

State that belongs to a thread is a value that is handed in. What only the rest
of the runtime can do (mark, sweep, call a getter, print) is asked for by the
value that a function returns, and reported back by a call of the next one.
`app/` is the layer around it: it reads the environment, handles fatal signals,
converts floating-point numbers, holds the tables of each thread, bridges from
the parser's syntax tree and to the emitted code, and carries out what the
library asks for. The heap, the objects and the code generator themselves are
traits there, for the rest of the runtime and the compiler to implement.

The one thing taken on trust is what `char::is_uppercase` answers.
