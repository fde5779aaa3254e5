//! The native words of the virtual machine, by name.

use vstd::prelude::*;
use vstd::string::StringSliceAdditionalSpecFns;
use crate::dictionary::{BuiltinEntry, EntryKind};
use vstd::string::is_ascii;
use crate::fastr::{all_ascii, folded, MAX_NAME_LEN};

verus! {

/// A native word of the virtual machine.
#[derive(Debug, Clone, Copy, PartialEq, Eq, Structural)]
pub enum Builtin {
    // Arithmetic
    Add,
    Sub,
    Mul,
    Div,
    Mod,
    Abs,
    Negate,
    Min,
    Max,
    // Bits
    And,
    Or,
    Xor,
    Lshift,
    Rshift,
    Invert,
    // Comparison
    Equal,
    NotEqual,
    Less,
    Greater,
    ZeroEqual,
    ZeroLess,
    // Data stack
    Dup,
    Drop,
    Swap,
    Over,
    Rot,
    TwoDup,
    TwoDrop,
    Depth,
    // Return stack
    ToR,
    RFrom,
    RFetch,
    LoopIndex,
    // Output
    Emit,
    Dot,
    DotS,
    Cr,
    Space,
    DotQuote,
    Paren,
    // Definitions
    Colon,
    Semicolon,
    Variable,
    Constant,
    Create,
    See,
    Words,
    // Control flow
    If,
    Else,
    Then,
    Do,
    Loop,
    Begin,
    Until,
    While,
    Repeat,
    // Memory
    Fetch,
    Store,
    CFetch,
    CStore,
    Allot,
    Cells,
    Here,
    Comma,
    // The code behind compiled definitions
    Interpret,
    Literal,
    Branch,
    ZeroBranch,
    DoRun,
    LoopRun,
    Exit,
    WriteStr,
    VariableRun,
    ConstantRun,
}

/// The code field of a dictionary entry: what runs when the word is entered.
#[derive(Debug, Clone, Copy, PartialEq, Eq, Structural)]
pub enum WordFunc {
    /// A native word of the virtual machine.
    Native(Builtin),
    /// A native word of the host, by the number the host knows it by.
    Host(u16),
}

impl Builtin {
    /// The name of the word, as bytes.
    pub open spec fn name_bytes(self) -> Seq<u8> {
        match self {
            Builtin::Add => "+".spec_bytes(),
            Builtin::Sub => "-".spec_bytes(),
            Builtin::Mul => "*".spec_bytes(),
            Builtin::Div => "/".spec_bytes(),
            Builtin::Mod => "mod".spec_bytes(),
            Builtin::Abs => "abs".spec_bytes(),
            Builtin::Negate => "negate".spec_bytes(),
            Builtin::Min => "min".spec_bytes(),
            Builtin::Max => "max".spec_bytes(),
            Builtin::And => "and".spec_bytes(),
            Builtin::Or => "or".spec_bytes(),
            Builtin::Xor => "xor".spec_bytes(),
            Builtin::Lshift => "lshift".spec_bytes(),
            Builtin::Rshift => "rshift".spec_bytes(),
            Builtin::Invert => "invert".spec_bytes(),
            Builtin::Equal => "=".spec_bytes(),
            Builtin::NotEqual => "<>".spec_bytes(),
            Builtin::Less => "<".spec_bytes(),
            Builtin::Greater => ">".spec_bytes(),
            Builtin::ZeroEqual => "0=".spec_bytes(),
            Builtin::ZeroLess => "0<".spec_bytes(),
            Builtin::Dup => "dup".spec_bytes(),
            Builtin::Drop => "drop".spec_bytes(),
            Builtin::Swap => "swap".spec_bytes(),
            Builtin::Over => "over".spec_bytes(),
            Builtin::Rot => "rot".spec_bytes(),
            Builtin::TwoDup => "2dup".spec_bytes(),
            Builtin::TwoDrop => "2drop".spec_bytes(),
            Builtin::Depth => "depth".spec_bytes(),
            Builtin::ToR => ">r".spec_bytes(),
            Builtin::RFrom => "r>".spec_bytes(),
            Builtin::RFetch => "r@".spec_bytes(),
            Builtin::LoopIndex => "i".spec_bytes(),
            Builtin::Emit => "emit".spec_bytes(),
            Builtin::Dot => ".".spec_bytes(),
            Builtin::DotS => ".s".spec_bytes(),
            Builtin::Cr => "cr".spec_bytes(),
            Builtin::Space => "space".spec_bytes(),
            Builtin::DotQuote => ".\"".spec_bytes(),
            Builtin::Paren => "(".spec_bytes(),
            Builtin::Colon => ":".spec_bytes(),
            Builtin::Semicolon => ";".spec_bytes(),
            Builtin::Variable => "variable".spec_bytes(),
            Builtin::Constant => "constant".spec_bytes(),
            Builtin::Create => "create".spec_bytes(),
            Builtin::See => "see".spec_bytes(),
            Builtin::Words => "words".spec_bytes(),
            Builtin::If => "if".spec_bytes(),
            Builtin::Else => "else".spec_bytes(),
            Builtin::Then => "then".spec_bytes(),
            Builtin::Do => "do".spec_bytes(),
            Builtin::Loop => "loop".spec_bytes(),
            Builtin::Begin => "begin".spec_bytes(),
            Builtin::Until => "until".spec_bytes(),
            Builtin::While => "while".spec_bytes(),
            Builtin::Repeat => "repeat".spec_bytes(),
            Builtin::Fetch => "@".spec_bytes(),
            Builtin::Store => "!".spec_bytes(),
            Builtin::CFetch => "c@".spec_bytes(),
            Builtin::CStore => "c!".spec_bytes(),
            Builtin::Allot => "allot".spec_bytes(),
            Builtin::Cells => "cells".spec_bytes(),
            Builtin::Here => "here".spec_bytes(),
            Builtin::Comma => ",".spec_bytes(),
            Builtin::Interpret => "(interpret)".spec_bytes(),
            Builtin::Literal => "(literal)".spec_bytes(),
            Builtin::Branch => "(branch)".spec_bytes(),
            Builtin::ZeroBranch => "(0branch)".spec_bytes(),
            Builtin::DoRun => "(do)".spec_bytes(),
            Builtin::LoopRun => "(loop)".spec_bytes(),
            Builtin::Exit => "(exit)".spec_bytes(),
            Builtin::WriteStr => "(write-str)".spec_bytes(),
            Builtin::VariableRun => "(variable)".spec_bytes(),
            Builtin::ConstantRun => "(constant)".spec_bytes(),
        }
    }

    /// The name of the word.
    pub fn name(self) -> (n: &'static str)
        ensures
            n.spec_bytes() == self.name_bytes(),
    {
        match self {
            Builtin::Add => "+",
            Builtin::Sub => "-",
            Builtin::Mul => "*",
            Builtin::Div => "/",
            Builtin::Mod => "mod",
            Builtin::Abs => "abs",
            Builtin::Negate => "negate",
            Builtin::Min => "min",
            Builtin::Max => "max",
            Builtin::And => "and",
            Builtin::Or => "or",
            Builtin::Xor => "xor",
            Builtin::Lshift => "lshift",
            Builtin::Rshift => "rshift",
            Builtin::Invert => "invert",
            Builtin::Equal => "=",
            Builtin::NotEqual => "<>",
            Builtin::Less => "<",
            Builtin::Greater => ">",
            Builtin::ZeroEqual => "0=",
            Builtin::ZeroLess => "0<",
            Builtin::Dup => "dup",
            Builtin::Drop => "drop",
            Builtin::Swap => "swap",
            Builtin::Over => "over",
            Builtin::Rot => "rot",
            Builtin::TwoDup => "2dup",
            Builtin::TwoDrop => "2drop",
            Builtin::Depth => "depth",
            Builtin::ToR => ">r",
            Builtin::RFrom => "r>",
            Builtin::RFetch => "r@",
            Builtin::LoopIndex => "i",
            Builtin::Emit => "emit",
            Builtin::Dot => ".",
            Builtin::DotS => ".s",
            Builtin::Cr => "cr",
            Builtin::Space => "space",
            Builtin::DotQuote => ".\"",
            Builtin::Paren => "(",
            Builtin::Colon => ":",
            Builtin::Semicolon => ";",
            Builtin::Variable => "variable",
            Builtin::Constant => "constant",
            Builtin::Create => "create",
            Builtin::See => "see",
            Builtin::Words => "words",
            Builtin::If => "if",
            Builtin::Else => "else",
            Builtin::Then => "then",
            Builtin::Do => "do",
            Builtin::Loop => "loop",
            Builtin::Begin => "begin",
            Builtin::Until => "until",
            Builtin::While => "while",
            Builtin::Repeat => "repeat",
            Builtin::Fetch => "@",
            Builtin::Store => "!",
            Builtin::CFetch => "c@",
            Builtin::CStore => "c!",
            Builtin::Allot => "allot",
            Builtin::Cells => "cells",
            Builtin::Here => "here",
            Builtin::Comma => ",",
            Builtin::Interpret => "(interpret)",
            Builtin::Literal => "(literal)",
            Builtin::Branch => "(branch)",
            Builtin::ZeroBranch => "(0branch)",
            Builtin::DoRun => "(do)",
            Builtin::LoopRun => "(loop)",
            Builtin::Exit => "(exit)",
            Builtin::WriteStr => "(write-str)",
            Builtin::VariableRun => "(variable)",
            Builtin::ConstantRun => "(constant)",
        }
    }
}

/// Whether `e` is the entry of a native word of the virtual machine under
/// that word's own name.
pub open spec fn listed(e: BuiltinEntry) -> bool {
    &&& e.hdr.name.wf()
    &&& e.hdr.kind == EntryKind::StaticBuiltin
    &&& e.hdr.len == 0
    &&& e.func matches WordFunc::Native(b) && e.hdr.name@ == folded(b.name_bytes())
}

impl Builtin {
    /// The position of the word in the table of native words.
    pub open spec fn position(self) -> int {
        match self {
            Builtin::Add => 0,
            Builtin::Sub => 1,
            Builtin::Mul => 2,
            Builtin::Div => 3,
            Builtin::Mod => 4,
            Builtin::Abs => 5,
            Builtin::Negate => 6,
            Builtin::Min => 7,
            Builtin::Max => 8,
            Builtin::And => 9,
            Builtin::Or => 10,
            Builtin::Xor => 11,
            Builtin::Lshift => 12,
            Builtin::Rshift => 13,
            Builtin::Invert => 14,
            Builtin::Equal => 15,
            Builtin::NotEqual => 16,
            Builtin::Less => 17,
            Builtin::Greater => 18,
            Builtin::ZeroEqual => 19,
            Builtin::ZeroLess => 20,
            Builtin::Dup => 21,
            Builtin::Drop => 22,
            Builtin::Swap => 23,
            Builtin::Over => 24,
            Builtin::Rot => 25,
            Builtin::TwoDup => 26,
            Builtin::TwoDrop => 27,
            Builtin::Depth => 28,
            Builtin::ToR => 29,
            Builtin::RFrom => 30,
            Builtin::RFetch => 31,
            Builtin::LoopIndex => 32,
            Builtin::Emit => 33,
            Builtin::Dot => 34,
            Builtin::DotS => 35,
            Builtin::Cr => 36,
            Builtin::Space => 37,
            Builtin::DotQuote => 38,
            Builtin::Paren => 39,
            Builtin::Colon => 40,
            Builtin::Semicolon => 41,
            Builtin::Variable => 42,
            Builtin::Constant => 43,
            Builtin::Create => 44,
            Builtin::See => 45,
            Builtin::Words => 46,
            Builtin::If => 47,
            Builtin::Else => 48,
            Builtin::Then => 49,
            Builtin::Do => 50,
            Builtin::Loop => 51,
            Builtin::Begin => 52,
            Builtin::Until => 53,
            Builtin::While => 54,
            Builtin::Repeat => 55,
            Builtin::Fetch => 56,
            Builtin::Store => 57,
            Builtin::CFetch => 58,
            Builtin::CStore => 59,
            Builtin::Allot => 60,
            Builtin::Cells => 61,
            Builtin::Here => 62,
            Builtin::Comma => 63,
            Builtin::Interpret => 64,
            Builtin::Literal => 65,
            Builtin::Branch => 66,
            Builtin::ZeroBranch => 67,
            Builtin::DoRun => 68,
            Builtin::LoopRun => 69,
            Builtin::Exit => 70,
            Builtin::WriteStr => 71,
            Builtin::VariableRun => 72,
            Builtin::ConstantRun => 73,
        }
    }
}

/// The number of native words.
pub const BUILTIN_COUNT: usize = 74;

/// The name of every native word can be a name as it stands: it is not
/// empty, has at most 31 bytes, and all of them are ASCII.
pub proof fn lemma_names_are_plain(b: Builtin)
    ensures
        0 < b.name_bytes().len() <= MAX_NAME_LEN,
        all_ascii(b.name_bytes()),
{
    broadcast use vstd::string::is_ascii_spec_bytes;

    match b {
        Builtin::Add => {
            reveal_strlit("+");
            assert(is_ascii("+"));
        },
        Builtin::Sub => {
            reveal_strlit("-");
            assert(is_ascii("-"));
        },
        Builtin::Mul => {
            reveal_strlit("*");
            assert(is_ascii("*"));
        },
        Builtin::Div => {
            reveal_strlit("/");
            assert(is_ascii("/"));
        },
        Builtin::Mod => {
            reveal_strlit("mod");
            assert(is_ascii("mod"));
        },
        Builtin::Abs => {
            reveal_strlit("abs");
            assert(is_ascii("abs"));
        },
        Builtin::Negate => {
            reveal_strlit("negate");
            assert(is_ascii("negate"));
        },
        Builtin::Min => {
            reveal_strlit("min");
            assert(is_ascii("min"));
        },
        Builtin::Max => {
            reveal_strlit("max");
            assert(is_ascii("max"));
        },
        Builtin::And => {
            reveal_strlit("and");
            assert(is_ascii("and"));
        },
        Builtin::Or => {
            reveal_strlit("or");
            assert(is_ascii("or"));
        },
        Builtin::Xor => {
            reveal_strlit("xor");
            assert(is_ascii("xor"));
        },
        Builtin::Lshift => {
            reveal_strlit("lshift");
            assert(is_ascii("lshift"));
        },
        Builtin::Rshift => {
            reveal_strlit("rshift");
            assert(is_ascii("rshift"));
        },
        Builtin::Invert => {
            reveal_strlit("invert");
            assert(is_ascii("invert"));
        },
        Builtin::Equal => {
            reveal_strlit("=");
            assert(is_ascii("="));
        },
        Builtin::NotEqual => {
            reveal_strlit("<>");
            assert(is_ascii("<>"));
        },
        Builtin::Less => {
            reveal_strlit("<");
            assert(is_ascii("<"));
        },
        Builtin::Greater => {
            reveal_strlit(">");
            assert(is_ascii(">"));
        },
        Builtin::ZeroEqual => {
            reveal_strlit("0=");
            assert(is_ascii("0="));
        },
        Builtin::ZeroLess => {
            reveal_strlit("0<");
            assert(is_ascii("0<"));
        },
        Builtin::Dup => {
            reveal_strlit("dup");
            assert(is_ascii("dup"));
        },
        Builtin::Drop => {
            reveal_strlit("drop");
            assert(is_ascii("drop"));
        },
        Builtin::Swap => {
            reveal_strlit("swap");
            assert(is_ascii("swap"));
        },
        Builtin::Over => {
            reveal_strlit("over");
            assert(is_ascii("over"));
        },
        Builtin::Rot => {
            reveal_strlit("rot");
            assert(is_ascii("rot"));
        },
        Builtin::TwoDup => {
            reveal_strlit("2dup");
            assert(is_ascii("2dup"));
        },
        Builtin::TwoDrop => {
            reveal_strlit("2drop");
            assert(is_ascii("2drop"));
        },
        Builtin::Depth => {
            reveal_strlit("depth");
            assert(is_ascii("depth"));
        },
        Builtin::ToR => {
            reveal_strlit(">r");
            assert(is_ascii(">r"));
        },
        Builtin::RFrom => {
            reveal_strlit("r>");
            assert(is_ascii("r>"));
        },
        Builtin::RFetch => {
            reveal_strlit("r@");
            assert(is_ascii("r@"));
        },
        Builtin::LoopIndex => {
            reveal_strlit("i");
            assert(is_ascii("i"));
        },
        Builtin::Emit => {
            reveal_strlit("emit");
            assert(is_ascii("emit"));
        },
        Builtin::Dot => {
            reveal_strlit(".");
            assert(is_ascii("."));
        },
        Builtin::DotS => {
            reveal_strlit(".s");
            assert(is_ascii(".s"));
        },
        Builtin::Cr => {
            reveal_strlit("cr");
            assert(is_ascii("cr"));
        },
        Builtin::Space => {
            reveal_strlit("space");
            assert(is_ascii("space"));
        },
        Builtin::DotQuote => {
            reveal_strlit(".\"");
            assert(is_ascii(".\""));
        },
        Builtin::Paren => {
            reveal_strlit("(");
            assert(is_ascii("("));
        },
        Builtin::Colon => {
            reveal_strlit(":");
            assert(is_ascii(":"));
        },
        Builtin::Semicolon => {
            reveal_strlit(";");
            assert(is_ascii(";"));
        },
        Builtin::Variable => {
            reveal_strlit("variable");
            assert(is_ascii("variable"));
        },
        Builtin::Constant => {
            reveal_strlit("constant");
            assert(is_ascii("constant"));
        },
        Builtin::Create => {
            reveal_strlit("create");
            assert(is_ascii("create"));
        },
        Builtin::See => {
            reveal_strlit("see");
            assert(is_ascii("see"));
        },
        Builtin::Words => {
            reveal_strlit("words");
            assert(is_ascii("words"));
        },
        Builtin::If => {
            reveal_strlit("if");
            assert(is_ascii("if"));
        },
        Builtin::Else => {
            reveal_strlit("else");
            assert(is_ascii("else"));
        },
        Builtin::Then => {
            reveal_strlit("then");
            assert(is_ascii("then"));
        },
        Builtin::Do => {
            reveal_strlit("do");
            assert(is_ascii("do"));
        },
        Builtin::Loop => {
            reveal_strlit("loop");
            assert(is_ascii("loop"));
        },
        Builtin::Begin => {
            reveal_strlit("begin");
            assert(is_ascii("begin"));
        },
        Builtin::Until => {
            reveal_strlit("until");
            assert(is_ascii("until"));
        },
        Builtin::While => {
            reveal_strlit("while");
            assert(is_ascii("while"));
        },
        Builtin::Repeat => {
            reveal_strlit("repeat");
            assert(is_ascii("repeat"));
        },
        Builtin::Fetch => {
            reveal_strlit("@");
            assert(is_ascii("@"));
        },
        Builtin::Store => {
            reveal_strlit("!");
            assert(is_ascii("!"));
        },
        Builtin::CFetch => {
            reveal_strlit("c@");
            assert(is_ascii("c@"));
        },
        Builtin::CStore => {
            reveal_strlit("c!");
            assert(is_ascii("c!"));
        },
        Builtin::Allot => {
            reveal_strlit("allot");
            assert(is_ascii("allot"));
        },
        Builtin::Cells => {
            reveal_strlit("cells");
            assert(is_ascii("cells"));
        },
        Builtin::Here => {
            reveal_strlit("here");
            assert(is_ascii("here"));
        },
        Builtin::Comma => {
            reveal_strlit(",");
            assert(is_ascii(","));
        },
        Builtin::Interpret => {
            reveal_strlit("(interpret)");
            assert(is_ascii("(interpret)"));
        },
        Builtin::Literal => {
            reveal_strlit("(literal)");
            assert(is_ascii("(literal)"));
        },
        Builtin::Branch => {
            reveal_strlit("(branch)");
            assert(is_ascii("(branch)"));
        },
        Builtin::ZeroBranch => {
            reveal_strlit("(0branch)");
            assert(is_ascii("(0branch)"));
        },
        Builtin::DoRun => {
            reveal_strlit("(do)");
            assert(is_ascii("(do)"));
        },
        Builtin::LoopRun => {
            reveal_strlit("(loop)");
            assert(is_ascii("(loop)"));
        },
        Builtin::Exit => {
            reveal_strlit("(exit)");
            assert(is_ascii("(exit)"));
        },
        Builtin::WriteStr => {
            reveal_strlit("(write-str)");
            assert(is_ascii("(write-str)"));
        },
        Builtin::VariableRun => {
            reveal_strlit("(variable)");
            assert(is_ascii("(variable)"));
        },
        Builtin::ConstantRun => {
            reveal_strlit("(constant)");
            assert(is_ascii("(constant)"));
        },
    }
}

/// Whether `table` is the table of all native words: each word stands at
/// its position, under its own name.
pub open spec fn is_full_table(table: Seq<BuiltinEntry>) -> bool {
    &&& table.len() == BUILTIN_COUNT
    &&& forall|i: int| 0 <= i < table.len() ==> listed(#[trigger] table[i])
    &&& forall|b: Builtin| (#[trigger] table[b.position()]).func == WordFunc::Native(b)
}

/// Appends the entry of the native word `b` to `v`.
fn list(v: &mut Vec<BuiltinEntry>, b: Builtin)
    requires
        old(v)@.len() == b.position(),
        forall|i: int| 0 <= i < old(v)@.len() ==> listed(#[trigger] old(v)@[i]),
        forall|c: Builtin|
            c.position() < old(v)@.len() ==> (#[trigger] old(v)@[c.position()]).func
                == WordFunc::Native(c),
    ensures
        final(v)@.len() == old(v)@.len() + 1,
        forall|i: int| 0 <= i < final(v)@.len() ==> listed(#[trigger] final(v)@[i]),
        forall|c: Builtin|
            c.position() < final(v)@.len() ==> (#[trigger] final(v)@[c.position()]).func
                == WordFunc::Native(c),
{
    proof {
        lemma_names_are_plain(b);
    }
    match BuiltinEntry::new(b.name(), WordFunc::Native(b)) {
        Some(e) => {
            v.push(e);
            proof {
                assert forall|c: Builtin| c.position() < v@.len() implies (
                #[trigger] v@[c.position()]).func == WordFunc::Native(c) by {
                    if c.position() < old(v)@.len() {
                        assert(v@[c.position()] == old(v)@[c.position()]);
                    } else {
                        assert(c.position() == b.position());
                        assert(c == b);
                    }
                }
            }
        },
        None => {
            assert(false);
        },
    }
}

impl Builtin {
    /// The word at position `i` of the table of native words.
    pub open spec fn at_position(i: int) -> Builtin {
        if i == 0 {
            Builtin::Add
        } else if i == 1 {
            Builtin::Sub
        } else if i == 2 {
            Builtin::Mul
        } else if i == 3 {
            Builtin::Div
        } else if i == 4 {
            Builtin::Mod
        } else if i == 5 {
            Builtin::Abs
        } else if i == 6 {
            Builtin::Negate
        } else if i == 7 {
            Builtin::Min
        } else if i == 8 {
            Builtin::Max
        } else if i == 9 {
            Builtin::And
        } else if i == 10 {
            Builtin::Or
        } else if i == 11 {
            Builtin::Xor
        } else if i == 12 {
            Builtin::Lshift
        } else if i == 13 {
            Builtin::Rshift
        } else if i == 14 {
            Builtin::Invert
        } else if i == 15 {
            Builtin::Equal
        } else if i == 16 {
            Builtin::NotEqual
        } else if i == 17 {
            Builtin::Less
        } else if i == 18 {
            Builtin::Greater
        } else if i == 19 {
            Builtin::ZeroEqual
        } else if i == 20 {
            Builtin::ZeroLess
        } else if i == 21 {
            Builtin::Dup
        } else if i == 22 {
            Builtin::Drop
        } else if i == 23 {
            Builtin::Swap
        } else if i == 24 {
            Builtin::Over
        } else if i == 25 {
            Builtin::Rot
        } else if i == 26 {
            Builtin::TwoDup
        } else if i == 27 {
            Builtin::TwoDrop
        } else if i == 28 {
            Builtin::Depth
        } else if i == 29 {
            Builtin::ToR
        } else if i == 30 {
            Builtin::RFrom
        } else if i == 31 {
            Builtin::RFetch
        } else if i == 32 {
            Builtin::LoopIndex
        } else if i == 33 {
            Builtin::Emit
        } else if i == 34 {
            Builtin::Dot
        } else if i == 35 {
            Builtin::DotS
        } else if i == 36 {
            Builtin::Cr
        } else if i == 37 {
            Builtin::Space
        } else if i == 38 {
            Builtin::DotQuote
        } else if i == 39 {
            Builtin::Paren
        } else if i == 40 {
            Builtin::Colon
        } else if i == 41 {
            Builtin::Semicolon
        } else if i == 42 {
            Builtin::Variable
        } else if i == 43 {
            Builtin::Constant
        } else if i == 44 {
            Builtin::Create
        } else if i == 45 {
            Builtin::See
        } else if i == 46 {
            Builtin::Words
        } else if i == 47 {
            Builtin::If
        } else if i == 48 {
            Builtin::Else
        } else if i == 49 {
            Builtin::Then
        } else if i == 50 {
            Builtin::Do
        } else if i == 51 {
            Builtin::Loop
        } else if i == 52 {
            Builtin::Begin
        } else if i == 53 {
            Builtin::Until
        } else if i == 54 {
            Builtin::While
        } else if i == 55 {
            Builtin::Repeat
        } else if i == 56 {
            Builtin::Fetch
        } else if i == 57 {
            Builtin::Store
        } else if i == 58 {
            Builtin::CFetch
        } else if i == 59 {
            Builtin::CStore
        } else if i == 60 {
            Builtin::Allot
        } else if i == 61 {
            Builtin::Cells
        } else if i == 62 {
            Builtin::Here
        } else if i == 63 {
            Builtin::Comma
        } else if i == 64 {
            Builtin::Interpret
        } else if i == 65 {
            Builtin::Literal
        } else if i == 66 {
            Builtin::Branch
        } else if i == 67 {
            Builtin::ZeroBranch
        } else if i == 68 {
            Builtin::DoRun
        } else if i == 69 {
            Builtin::LoopRun
        } else if i == 70 {
            Builtin::Exit
        } else if i == 71 {
            Builtin::WriteStr
        } else if i == 72 {
            Builtin::VariableRun
        } else {
            Builtin::ConstantRun
        }
    }

    /// The word at position `i` of the table of native words.
    pub fn at(i: usize) -> (b: Builtin)
        requires
            i < BUILTIN_COUNT,
        ensures
            b == Builtin::at_position(i as int),
            b.position() == i,
    {
        match i {
            0 => Builtin::Add,
            1 => Builtin::Sub,
            2 => Builtin::Mul,
            3 => Builtin::Div,
            4 => Builtin::Mod,
            5 => Builtin::Abs,
            6 => Builtin::Negate,
            7 => Builtin::Min,
            8 => Builtin::Max,
            9 => Builtin::And,
            10 => Builtin::Or,
            11 => Builtin::Xor,
            12 => Builtin::Lshift,
            13 => Builtin::Rshift,
            14 => Builtin::Invert,
            15 => Builtin::Equal,
            16 => Builtin::NotEqual,
            17 => Builtin::Less,
            18 => Builtin::Greater,
            19 => Builtin::ZeroEqual,
            20 => Builtin::ZeroLess,
            21 => Builtin::Dup,
            22 => Builtin::Drop,
            23 => Builtin::Swap,
            24 => Builtin::Over,
            25 => Builtin::Rot,
            26 => Builtin::TwoDup,
            27 => Builtin::TwoDrop,
            28 => Builtin::Depth,
            29 => Builtin::ToR,
            30 => Builtin::RFrom,
            31 => Builtin::RFetch,
            32 => Builtin::LoopIndex,
            33 => Builtin::Emit,
            34 => Builtin::Dot,
            35 => Builtin::DotS,
            36 => Builtin::Cr,
            37 => Builtin::Space,
            38 => Builtin::DotQuote,
            39 => Builtin::Paren,
            40 => Builtin::Colon,
            41 => Builtin::Semicolon,
            42 => Builtin::Variable,
            43 => Builtin::Constant,
            44 => Builtin::Create,
            45 => Builtin::See,
            46 => Builtin::Words,
            47 => Builtin::If,
            48 => Builtin::Else,
            49 => Builtin::Then,
            50 => Builtin::Do,
            51 => Builtin::Loop,
            52 => Builtin::Begin,
            53 => Builtin::Until,
            54 => Builtin::While,
            55 => Builtin::Repeat,
            56 => Builtin::Fetch,
            57 => Builtin::Store,
            58 => Builtin::CFetch,
            59 => Builtin::CStore,
            60 => Builtin::Allot,
            61 => Builtin::Cells,
            62 => Builtin::Here,
            63 => Builtin::Comma,
            64 => Builtin::Interpret,
            65 => Builtin::Literal,
            66 => Builtin::Branch,
            67 => Builtin::ZeroBranch,
            68 => Builtin::DoRun,
            69 => Builtin::LoopRun,
            70 => Builtin::Exit,
            71 => Builtin::WriteStr,
            72 => Builtin::VariableRun,
            _ => Builtin::ConstantRun,
        }
    }
}

/// The table of the native words of the virtual machine, each under its own
/// name.
pub fn full_builtins() -> (v: Vec<BuiltinEntry>)
    ensures
        is_full_table(v@),
{
    let mut v: Vec<BuiltinEntry> = Vec::new();
    let mut i: usize = 0;
    while i < BUILTIN_COUNT
        invariant
            i <= BUILTIN_COUNT,
            v@.len() == i,
            forall|k: int| 0 <= k < v@.len() ==> listed(#[trigger] v@[k]),
            forall|c: Builtin|
                c.position() < v@.len() ==> (#[trigger] v@[c.position()]).func
                    == WordFunc::Native(c),
        decreases BUILTIN_COUNT - i,
    {
        list(&mut v, Builtin::at(i));
        i += 1;
    }
    proof {
        assert forall|b: Builtin| (#[trigger] v@[b.position()]).func == WordFunc::Native(b) by {
            assert(0 <= b.position() < 74);
        }
    }
    v
}

} // verus!
