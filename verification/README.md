# trading_core

The decision-making core of a trading system, written in Rust and proved with
Verus: order handling and routing, the FIX protocol, market-data books and
indicators, execution algorithms, market making, margin and hedging, supply
analytics, inference scheduling and voting, journalling, emergency state
parking, rate limits, and the memory and thread planning underneath.

Each function states in `requires` and `ensures` what it does, and Verus checks
the code against it. Properties that span several functions are the public
proof functions whose names begin with `law_`, each beside the functions it
speaks of.

## Layout

- `src/` is the library. `src/base` holds what the other modules share: amounts,
  exact arithmetic, byte and text handling, tables, sorting, JSON, cryptography
  and the clock.
- `tests/` runs the library on concrete values.
- `app/` connects the library to the world: sockets, threads, files, the
  operating system, and floating-point figures for people.

## Numbers

Prices, quantities, weights and rates are `Amount`s: whole numbers of a hundred
millionth. Each step of a computation is cut off towards zero at that
precision and kept within the range of `i64`; the contracts state both. Where a
divisor can be zero, the quotient is the end of the range on the side of the
dividend; zero over zero has no value and is left out by `requires`.

## What is taken on trust

Calls into other crates and into parts of the standard library stand behind
small functions marked `#[verifier::external_body]` or behind
`assume_specification`. Their contracts are believed, and the comment above each
says what it claims of which function. Where the result of a call takes a long
text to state, such as a keyed hash, it is given a name and the contracts speak
of that name.
