//! The second pass, which turns instruction lines into words, and the whole
//! assembly of a program.

use crate::error::{AsmError, Diagnostic};
use crate::isa::{
    lemma_mnemonic_names, mnemonic_of, pack, parse_mnemonic, spells, Format, Mnemonic, CAPACITY,
};
use crate::labels::{
    build_label_table, defines, label_table, lemma_label_table_last_definition, LabelTable,
};
use crate::register::{loadRegister, register_index};
use crate::source::{
    classify, instruction_count, kind_of, label_name, lemma_instruction_count_step, LineKind,
};
use crate::text::{numeral_value, parse_numeral, to_ascii_upper};
use vstd::prelude::*;

verus! {

/// The register that token `k` of a line names. A line without such a token
/// names none.
pub open spec fn register_operand(line: Seq<Seq<char>>, k: int) -> Result<u16, AsmError> {
    if k < line.len() && register_index(line[k]) is Some {
        Ok(register_index(line[k])->Some_0)
    } else {
        Err(AsmError::InvalidRegister)
    }
}

/// The number that token `k` of a line writes. A line without such a token
/// writes none.
pub open spec fn immediate_operand(line: Seq<Seq<char>>, k: int) -> Result<u16, AsmError> {
    if k < line.len() && numeral_value(line[k]) is Some {
        Ok(numeral_value(line[k])->Some_0)
    } else {
        Err(AsmError::MalformedImmediate)
    }
}

/// The address of the label that is token `k` of a line. A line without such
/// a token names no label.
pub open spec fn address_operand(
    line: Seq<Seq<char>>,
    k: int,
    labels: Map<Seq<char>, u16>,
) -> Result<u16, AsmError> {
    if k < line.len() && labels.contains_key(line[k]) {
        Ok(labels[line[k]])
    } else {
        Err(AsmError::UnresolvedLabel)
    }
}

/// The register that goes into bits 11 to 8 of an instruction's word: the
/// one that token 1 names, or zero where the format has no register.
pub open spec fn register_field(format: Format, line: Seq<Seq<char>>) -> Result<u16, AsmError> {
    match format {
        Format::Bare | Format::Label => Ok(0u16),
        _ => register_operand(line, 1),
    }
}

/// The operand that an instruction has besides that register: a second
/// register, an immediate or the address of a label, read from the token
/// that follows the register (from token 1 where there is no register), or
/// zero where the format has no such operand.
pub open spec fn operand_field(
    format: Format,
    line: Seq<Seq<char>>,
    labels: Map<Seq<char>, u16>,
) -> Result<u16, AsmError> {
    match format {
        Format::Bare | Format::Reg => Ok(0u16),
        Format::RegReg => register_operand(line, 2),
        Format::RegImm | Format::RegImmShifted => immediate_operand(line, 2),
        Format::RegLabel => address_operand(line, 2, labels),
        Format::Label => address_operand(line, 1, labels),
    }
}

/// The word that an instruction line encodes to. The first token names the
/// instruction, in any mix of cases; the tokens after it are its operands,
/// read from left to right, and the first one that cannot be read decides
/// the error. Tokens beyond the operands are not read.
pub open spec fn instruction_word(line: Seq<Seq<char>>, labels: Map<Seq<char>, u16>) -> Result<
    u16,
    AsmError,
> {
    if line.len() == 0 || mnemonic_of(line[0]) is None {
        Err(AsmError::InvalidInstruction)
    } else {
        let mnemonic = mnemonic_of(line[0])->Some_0;
        match register_field(mnemonic.format(), line) {
            Err(error) => Err(error),
            Ok(a) => match operand_field(mnemonic.format(), line, labels) {
                Err(error) => Err(error),
                Ok(operand) => Ok(pack(mnemonic.format(), mnemonic.opcode(), a, operand)),
            },
        }
    }
}

/// The words of the instruction lines among `lines`, in order, or the first
/// failure, with the number of its line. Blank lines and label lines add
/// nothing. An instruction line fails if it does not encode, and otherwise
/// if the image has no room left for its word.
pub open spec fn program_words(
    lines: Seq<Seq<Seq<char>>>,
    labels: Map<Seq<char>, u16>,
) -> Result<Seq<u16>, Diagnostic>
    decreases lines.len(),
{
    if lines.len() == 0 {
        Ok(Seq::empty())
    } else {
        match program_words(lines.drop_last(), labels) {
            Err(diagnostic) => Err(diagnostic),
            Ok(words) => if kind_of(lines.last()) != LineKind::Instruction {
                Ok(words)
            } else {
                match instruction_word(lines.last(), labels) {
                    Err(error) => Err(Diagnostic { line: lines.len() as usize, error }),
                    Ok(word) => if words.len() < CAPACITY {
                        Ok(words.push(word))
                    } else {
                        Err(
                            Diagnostic {
                                line: lines.len() as usize,
                                error: AsmError::ProgramTooLarge,
                            },
                        )
                    },
                }
            },
        }
    }
}

/// The program image that holds the given words: the words from address 0
/// on, and zero in every slot after them.
pub open spec fn image_of(words: Seq<u16>) -> Seq<u16> {
    Seq::new(
        CAPACITY as nat,
        |address: int|
            if address < words.len() {
                words[address]
            } else {
                0u16
            },
    )
}

/// The image that the second pass makes of the lines with the given label
/// table, or its first failure.
pub open spec fn encoded(lines: Seq<Seq<Seq<char>>>, labels: Map<Seq<char>, u16>) -> Result<
    Seq<u16>,
    Diagnostic,
> {
    match program_words(lines, labels) {
        Ok(words) => Ok(image_of(words)),
        Err(diagnostic) => Err(diagnostic),
    }
}

/// The image of a whole program, or the failure that ends its assembly:
/// the program is encoded with its own label table, so that a jump may name
/// a label that is defined further down.
pub open spec fn assemble(lines: Seq<Seq<Seq<char>>>) -> Result<Seq<u16>, Diagnostic> {
    encoded(lines, label_table(lines))
}

fn register_at(line: &Vec<String>, k: usize) -> (result: Result<u16, AsmError>)
    ensures
        result == register_operand(line.deep_view(), k as int),
{
    if k < line.len() {
        assert(line.deep_view()[k as int] == line[k as int]@);
        loadRegister(&line[k])
    } else {
        Err(AsmError::InvalidRegister)
    }
}

fn immediate_at(line: &Vec<String>, k: usize) -> (result: Result<u16, AsmError>)
    ensures
        result == immediate_operand(line.deep_view(), k as int),
{
    if k < line.len() {
        assert(line.deep_view()[k as int] == line[k as int]@);
        match parse_numeral(line[k].as_str()) {
            Some(value) => Ok(value),
            None => Err(AsmError::MalformedImmediate),
        }
    } else {
        Err(AsmError::MalformedImmediate)
    }
}

fn address_at(line: &Vec<String>, k: usize, labels: &LabelTable) -> (result: Result<
    u16,
    AsmError,
>)
    ensures
        result == address_operand(line.deep_view(), k as int, labels@),
{
    if k < line.len() {
        assert(line.deep_view()[k as int] == line[k as int]@);
        match labels.resolve(line[k].as_str()) {
            Some(address) => Ok(address),
            None => Err(AsmError::UnresolvedLabel),
        }
    } else {
        Err(AsmError::UnresolvedLabel)
    }
}

fn register_field_of(format: Format, line: &Vec<String>) -> (result: Result<u16, AsmError>)
    ensures
        result == register_field(format, line.deep_view()),
{
    match format {
        Format::Bare | Format::Label => Ok(0),
        _ => register_at(line, 1),
    }
}

fn operand_field_of(format: Format, line: &Vec<String>, labels: &LabelTable) -> (result: Result<
    u16,
    AsmError,
>)
    ensures
        result == operand_field(format, line.deep_view(), labels@),
{
    match format {
        Format::Bare | Format::Reg => Ok(0),
        Format::RegReg => register_at(line, 2),
        Format::RegImm | Format::RegImmShifted => immediate_at(line, 2),
        Format::RegLabel => address_at(line, 2, labels),
        Format::Label => address_at(line, 1, labels),
    }
}

/// Encodes one instruction line.
pub fn encode_instruction(line: &Vec<String>, labels: &LabelTable) -> (result: Result<
    u16,
    AsmError,
>)
    ensures
        result == instruction_word(line.deep_view(), labels@),
{
    if line.len() == 0 {
        return Err(AsmError::InvalidInstruction);
    }
    assert(line.deep_view()[0] == line[0]@);
    match parse_mnemonic(line[0].as_str()) {
        None => Err(AsmError::InvalidInstruction),
        Some(mnemonic) => {
            let format = mnemonic.format();
            match register_field_of(format, line) {
                Err(error) => Err(error),
                Ok(a) => match operand_field_of(format, line, labels) {
                    Err(error) => Err(error),
                    Ok(operand) => Ok(pack(format, mnemonic.opcode(), a, operand)),
                },
            }
        },
    }
}

/// The second pass. It encodes the instruction lines in order, each into
/// the next free slot of the image, with labels looked up in `labels`.
pub fn encode_program(lines: &Vec<Vec<String>>, labels: &LabelTable) -> (result: Result<
    [u16; 32],
    Diagnostic,
>)
    ensures
        match result {
            Ok(image) => encoded(lines.deep_view(), labels@) == Ok::<Seq<u16>, Diagnostic>(
                image@,
            ),
            Err(diagnostic) => encoded(lines.deep_view(), labels@) == Err::<
                Seq<u16>,
                Diagnostic,
            >(diagnostic),
        },
{
    let ghost source = lines.deep_view();
    let ghost mut words: Seq<u16> = Seq::empty();
    let mut image: [u16; 32] = [0; 32];
    let mut address: usize = 0;
    let mut i: usize = 0;
    assert(image@ =~= image_of(words));
    while i < lines.len()
        invariant
            i <= lines.len(),
            source == lines.deep_view(),
            program_words(source.take(i as int), labels@) == Ok::<Seq<u16>, Diagnostic>(words),
            address == words.len(),
            address <= CAPACITY,
            image@ == image_of(words),
        decreases lines.len() - i,
    {
        let line = &lines[i];
        proof {
            assert(source[i as int] == line.deep_view());
            assert(source.take(i + 1).drop_last() =~= source.take(i as int));
        }
        match classify(line) {
            LineKind::Instruction => {
                let word: u16 = match encode_instruction(line, labels) {
                    Ok(word) => word,
                    Err(error) => {
                        proof {
                            lemma_program_words_failure(source, labels@, i + 1);
                        }
                        return Err(Diagnostic { line: i + 1, error });
                    },
                };
                if address == CAPACITY {
                    proof {
                        lemma_program_words_failure(source, labels@, i + 1);
                    }
                    return Err(Diagnostic { line: i + 1, error: AsmError::ProgramTooLarge });
                }
                image[address] = word;
                address += 1;
                proof {
                    words = words.push(word);
                    assert(image@ =~= image_of(words));
                }
            },
            _ => {},
        }
        i += 1;
    }
    assert(source.take(i as int) =~= source);
    Ok(image)
}

/// Assembles a program from its token lines: the first pass builds the
/// label table, the second encodes the instructions.
pub fn compile(buf: Vec<Vec<String>>) -> (result: Result<[u16; 32], Diagnostic>)
    ensures
        match result {
            Ok(image) => assemble(buf.deep_view()) == Ok::<Seq<u16>, Diagnostic>(image@),
            Err(diagnostic) => assemble(buf.deep_view()) == Err::<Seq<u16>, Diagnostic>(
                diagnostic,
            ),
        },
{
    let labels = build_label_table(&buf);
    encode_program(&buf, &labels)
}

/// A failure on the first `n` lines is the failure of the whole program.
pub proof fn lemma_program_words_failure(
    lines: Seq<Seq<Seq<char>>>,
    labels: Map<Seq<char>, u16>,
    n: int,
)
    requires
        0 <= n <= lines.len(),
        program_words(lines.take(n), labels) is Err,
    ensures
        program_words(lines, labels) == program_words(lines.take(n), labels),
    decreases lines.len() - n,
{
    if n == lines.len() {
        assert(lines.take(n) =~= lines);
    } else {
        assert(lines.take(n + 1).drop_last() =~= lines.take(n));
        lemma_program_words_failure(lines, labels, n + 1);
    }
}

/// A program that encodes has one word for each of its instruction lines,
/// and no more of them than the image holds.
pub proof fn lemma_program_words_length(lines: Seq<Seq<Seq<char>>>, labels: Map<Seq<char>, u16>)
    requires
        program_words(lines, labels) is Ok,
    ensures
        program_words(lines, labels)->Ok_0.len() == instruction_count(lines),
        instruction_count(lines) <= CAPACITY,
    decreases lines.len(),
{
    if lines.len() > 0 {
        lemma_program_words_length(lines.drop_last(), labels);
    }
}

/// In a program that encodes, the word of each instruction line stands at
/// the line's address: the number of instruction lines before it.
pub proof fn lemma_program_words_at(
    lines: Seq<Seq<Seq<char>>>,
    labels: Map<Seq<char>, u16>,
    n: int,
)
    requires
        program_words(lines, labels) is Ok,
        0 <= n < lines.len(),
        kind_of(lines[n]) == LineKind::Instruction,
    ensures
        instruction_count(lines.take(n)) < program_words(lines, labels)->Ok_0.len(),
        instruction_word(lines[n], labels) == Ok::<u16, AsmError>(
            program_words(lines, labels)->Ok_0[instruction_count(lines.take(n)) as int],
        ),
    decreases lines.len(),
{
    let earlier = lines.drop_last();
    lemma_program_words_length(earlier, labels);
    if n == lines.len() - 1 {
        assert(lines.take(n) =~= earlier);
    } else {
        lemma_program_words_at(earlier, labels, n);
        assert(earlier.take(n) =~= lines.take(n));
    }
}

/// A program that does not encode fails on the first of its instruction
/// lines that does not encode or finds the image full: the lines before
/// that one encode, and the line's own error comes before the lack of room.
pub proof fn lemma_program_words_first_failure(
    lines: Seq<Seq<Seq<char>>>,
    labels: Map<Seq<char>, u16>,
)
    requires
        lines.len() <= usize::MAX,
        program_words(lines, labels) is Err,
    ensures
        ({
            let diagnostic = program_words(lines, labels)->Err_0;
            let before = program_words(lines.take(diagnostic.line - 1), labels);
            &&& 1 <= diagnostic.line <= lines.len()
            &&& kind_of(lines[diagnostic.line - 1]) == LineKind::Instruction
            &&& before is Ok
            &&& match instruction_word(lines[diagnostic.line - 1], labels) {
                Err(error) => diagnostic.error == error,
                Ok(_) => diagnostic.error == AsmError::ProgramTooLarge && before->Ok_0.len()
                    == CAPACITY,
            }
        }),
    decreases lines.len(),
{
    let earlier = lines.drop_last();
    if program_words(earlier, labels) is Err {
        lemma_program_words_first_failure(earlier, labels);
        let diagnostic = program_words(earlier, labels)->Err_0;
        assert(earlier.take(diagnostic.line - 1) =~= lines.take(diagnostic.line - 1));
    } else {
        assert(lines.take(lines.len() - 1) =~= earlier);
        lemma_program_words_length(earlier, labels);
    }
}

/// Whether every instruction line among the lines encodes.
pub open spec fn all_encode(lines: Seq<Seq<Seq<char>>>, labels: Map<Seq<char>, u16>) -> bool {
    forall|n: int|
        0 <= n < lines.len() && kind_of(#[trigger] lines[n]) == LineKind::Instruction
            ==> instruction_word(lines[n], labels) is Ok
}

/// A program encodes exactly if the image has room for its instructions
/// and each of its instruction lines encodes.
pub proof fn lemma_program_words_ok(lines: Seq<Seq<Seq<char>>>, labels: Map<Seq<char>, u16>)
    ensures
        program_words(lines, labels) is Ok <==> instruction_count(lines) <= CAPACITY
            && all_encode(lines, labels),
    decreases lines.len(),
{
    if lines.len() > 0 {
        let earlier = lines.drop_last();
        lemma_program_words_ok(earlier, labels);
        if program_words(earlier, labels) is Ok {
            lemma_program_words_length(earlier, labels);
        }
        if all_encode(lines, labels) {
            assert forall|n: int|
                0 <= n < earlier.len() && kind_of(#[trigger] earlier[n])
                    == LineKind::Instruction implies instruction_word(earlier[n], labels) is Ok by {
                assert(earlier[n] == lines[n]);
            }
        }
        if program_words(lines, labels) is Ok {
            assert forall|n: int|
                0 <= n < lines.len() && kind_of(#[trigger] lines[n])
                    == LineKind::Instruction implies instruction_word(lines[n], labels) is Ok by {
                if n < earlier.len() {
                    assert(earlier[n] == lines[n]);
                }
            }
        }
    }
}

/// A program assembles exactly if the image has room for its instructions
/// and each of its instruction lines encodes with the program's own labels.
/// The image then holds the word of each instruction line at the line's
/// address, which is the number of instruction lines before it, and zero
/// from the end of the program on.
pub proof fn lemma_assembled_image(lines: Seq<Seq<Seq<char>>>)
    ensures
        assemble(lines) is Ok <==> instruction_count(lines) <= CAPACITY && all_encode(
            lines,
            label_table(lines),
        ),
        assemble(lines) is Ok ==> {
            let image = assemble(lines)->Ok_0;
            &&& image.len() == CAPACITY
            &&& forall|n: int|
                0 <= n < lines.len() && kind_of(#[trigger] lines[n]) == LineKind::Instruction
                    ==> instruction_count(lines.take(n)) < instruction_count(lines)
                    && instruction_word(lines[n], label_table(lines)) == Ok::<u16, AsmError>(
                    image[instruction_count(lines.take(n)) as int],
                )
            &&& forall|address: int|
                instruction_count(lines) <= address < CAPACITY ==> image[address] == 0
        },
{
    let labels = label_table(lines);
    lemma_program_words_ok(lines, labels);
    if assemble(lines) is Ok {
        lemma_program_words_length(lines, labels);
        assert forall|n: int|
            0 <= n < lines.len() && kind_of(#[trigger] lines[n])
                == LineKind::Instruction implies instruction_count(lines.take(n))
            < instruction_count(lines) && instruction_word(lines[n], labels) == Ok::<
            u16,
            AsmError,
        >(assemble(lines)->Ok_0[instruction_count(lines.take(n)) as int]) by {
            lemma_program_words_at(lines, labels, n);
        }
    }
}

/// The word of an instruction with two registers is the opcode in the
/// upper four bits, the first register in the next four and the second in
/// the four after those. This holds of `ADD`, `SUB`, `AND`, `OR`, `XOR`,
/// `MOV`, `SR` and `SL`, written in any case.
pub proof fn lemma_two_register_word(
    line: Seq<Seq<char>>,
    labels: Map<Seq<char>, u16>,
    mnemonic: Mnemonic,
    a: u16,
    b: u16,
)
    requires
        line.len() >= 3,
        spells(line[0], mnemonic),
        mnemonic == Mnemonic::Add || mnemonic == Mnemonic::Sub || mnemonic == Mnemonic::And
            || mnemonic == Mnemonic::Or || mnemonic == Mnemonic::Xor || mnemonic == Mnemonic::Mov
            || mnemonic == Mnemonic::Sr || mnemonic == Mnemonic::Sl,
        register_index(line[1]) == Some(a),
        register_index(line[2]) == Some(b),
    ensures
        instruction_word(line, labels) == Ok::<u16, AsmError>(
            (mnemonic.opcode() << 12) | (a << 8) | (b << 4),
        ),
{
    lemma_mnemonic_names(line[0], mnemonic);
}

/// A label that is defined on the line just before a `J` to it, and not
/// again further down, stands for the address of that `J`: the jump's word
/// holds its own address, not that of the label line.
pub proof fn lemma_label_before_jump(lines: Seq<Seq<Seq<char>>>, n: int, image: Seq<u16>)
    requires
        0 <= n,
        n + 1 < lines.len(),
        kind_of(lines[n]) == LineKind::Label,
        lines[n + 1].len() >= 2,
        spells(lines[n + 1][0], Mnemonic::J),
        lines[n + 1][1] == label_name(lines[n]),
        forall|m: int| n < m < lines.len() ==> !defines(lines, m, label_name(lines[n])),
        assemble(lines) == Ok::<Seq<u16>, Diagnostic>(image),
    ensures
        ({
            let address = instruction_count(lines.take(n + 1));
            &&& address < CAPACITY
            &&& label_table(lines)[label_name(lines[n])] == address
            &&& image[address as int] == 0xF000u16 | (address as u16)
        }),
{
    let name = label_name(lines[n]);
    let jump = lines[n + 1];
    let labels = label_table(lines);
    let address = instruction_count(lines.take(n + 1));
    lemma_instruction_count_step(lines, n);
    lemma_label_table_last_definition(lines, n, name);
    lemma_mnemonic_names(jump[0], Mnemonic::J);
    assert(kind_of(jump) == LineKind::Instruction) by {
        reveal_strlit("J");
        assert(to_ascii_upper(jump[0]).len() == 1);
        assert(to_ascii_upper(jump[0])[0] == to_ascii_upper("J"@)[0]);
    }
    lemma_program_words_length(lines, labels);
    lemma_program_words_at(lines, labels, n + 1);
    let target = address as u16;
    assert(0xFu16 << 12 | (target & 0x0FFF) == 0xF000u16 | target) by (bit_vector)
        requires
            target <= 32,
    ;
}

} // verus!
