//! An embeddable Forth virtual machine.
//!
//! Input text is compiled into a threaded-code dictionary and executed over
//! fixed-capacity stacks. All storage is bounded by capacities chosen by the
//! host; nothing grows past them.
//!
//! The parts, from the leaves up:
//!
//! * [`word`]: the cell, one machine word that is an integer, an address or
//!   a reference to a dictionary entry, as the word that reads it decides;
//! * [`fastr`]: names, short ASCII strings with their capital letters folded;
//! * [`stack`]: stacks of a fixed capacity;
//! * [`text`] and [`num`]: scanning of byte text, number literals, decimals;
//! * [`input`] and [`output`]: the line tokenizer and the output buffer;
//! * [`dictionary`]: the bump arena and the linked list of entries in it,
//!   with [`refcount`] for the counter of a dictionary that is shared;
//! * [`builtin`]: the native words by name;
//! * [`vm`]: the machine itself, with the compiler, the inner interpreter,
//!   forking, and the variant that suspends on native words of the host;
//! * [`disk`]: a block cache of two pages, with its words;
//! * [`leakbox`]: ready-made machines;
//! * [`testutil`]: scripts that feed lines to a machine and say what to
//!   expect.
//!
//! Every function states what it returns and changes. The effect of each
//! native word is a predicate of its own; a step of the inner interpreter,
//! a line, and a script of lines are stated as runs of such effects.

pub mod word;
pub mod fastr;
pub mod stack;
pub mod text;
pub mod num;
pub mod input;
pub mod output;
pub mod refcount;
pub mod dictionary;
pub mod builtin;
pub mod vm;
pub mod disk;
pub mod leakbox;
pub mod testutil;
