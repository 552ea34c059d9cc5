//! Token lines: what kind of line each one is, and how many instructions a
//! run of lines holds.

use vstd::prelude::*;

verus! {

/// What a token line is to the assembler.
#[derive(Clone, Copy, Debug, PartialEq, Eq, Structural)]
pub enum LineKind {
    /// A line without tokens. It takes no part in the program.
    Blank,
    /// A line whose first token ends in a colon. It names the address of
    /// the instruction that follows and holds no instruction itself;
    /// whatever stands after its first token is not read.
    Label,
    /// Every other line. It takes one slot of the program image.
    Instruction,
}

/// The kind of a line, from its tokens.
pub open spec fn kind_of(line: Seq<Seq<char>>) -> LineKind {
    if line.len() == 0 {
        LineKind::Blank
    } else if line[0].len() > 0 && line[0].last() == ':' {
        LineKind::Label
    } else {
        LineKind::Instruction
    }
}

/// The name that a label line defines: its first token without the colon.
pub open spec fn label_name(line: Seq<Seq<char>>) -> Seq<char>
    recommends
        kind_of(line) == LineKind::Label,
{
    line[0].drop_last()
}

/// The number of instruction lines among the given lines.
pub open spec fn instruction_count(lines: Seq<Seq<Seq<char>>>) -> nat
    decreases lines.len(),
{
    if lines.len() == 0 {
        0
    } else {
        instruction_count(lines.drop_last()) + if kind_of(lines.last())
            == LineKind::Instruction {
            1nat
        } else {
            0nat
        }
    }
}

/// The first `n + 1` lines hold the instructions of the first `n`, and one
/// more if line `n` is an instruction.
pub proof fn lemma_instruction_count_step(lines: Seq<Seq<Seq<char>>>, n: int)
    requires
        0 <= n < lines.len(),
    ensures
        instruction_count(lines.take(n + 1)) == instruction_count(lines.take(n)) + if kind_of(
            lines[n],
        ) == LineKind::Instruction {
            1nat
        } else {
            0nat
        },
{
    assert(lines.take(n + 1).drop_last() =~= lines.take(n));
}

/// Tells what kind of line a token line is.
pub fn classify(line: &Vec<String>) -> (kind: LineKind)
    ensures
        kind == kind_of(line.deep_view()),
{
    if line.len() == 0 {
        return LineKind::Blank;
    }
    let first: &str = line[0].as_str();
    assert(line.deep_view()[0] == first@);
    let len: usize = first.unicode_len();
    if len > 0 && first.get_char(len - 1) == ':' {
        LineKind::Label
    } else {
        LineKind::Instruction
    }
}

/// The name that a line defines, if it is a label line.
pub fn label_of(line: &Vec<String>) -> (name: Option<String>)
    ensures
        match name {
            Some(name) => kind_of(line.deep_view()) == LineKind::Label && name@ == label_name(
                line.deep_view(),
            ),
            None => kind_of(line.deep_view()) != LineKind::Label,
        },
{
    if line.len() == 0 {
        return None;
    }
    let first: &str = line[0].as_str();
    assert(line.deep_view()[0] == first@);
    let len: usize = first.unicode_len();
    if len > 0 && first.get_char(len - 1) == ':' {
        let name: &str = first.substring_char(0, len - 1);
        assert(name@ =~= first@.drop_last());
        Some(name.to_owned())
    } else {
        None
    }
}

} // verus!
