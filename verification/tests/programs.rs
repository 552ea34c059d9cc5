use asm16::encoder::{compile, encode_program};
use asm16::error::{AsmError, Diagnostic};
use asm16::labels::{build_label_table, LabelTable};
use asm16::source::{classify, label_of, LineKind};
use asm16::tokenizer::processFile;

fn lines(source: &[&str]) -> Vec<Vec<String>> {
    source
        .iter()
        .map(|line| {
            if line.is_empty() {
                Vec::new()
            } else {
                line.split(' ').map(|token| token.to_string()).collect()
            }
        })
        .collect()
}

fn image(words: &[u16]) -> [u16; 32] {
    let mut image = [0u16; 32];
    image[..words.len()].copy_from_slice(words);
    image
}

fn failure(line: usize, error: AsmError) -> Diagnostic {
    Diagnostic { line, error }
}

#[test]
fn empty_program_is_all_zero() {
    assert_eq!(compile(Vec::new()), Ok([0u16; 32]));
}

#[test]
fn instructions_fill_the_image_in_order() {
    let program = lines(&["LDI R3 200", "ADD R1 R2", "NOP", "INV R5"]);
    assert_eq!(compile(program), Ok(image(&[0x23C8, 0x1120, 0x0000, 0x4500])));
}

#[test]
fn label_before_jump_is_the_address_of_the_jump() {
    let program = lines(&["NOP", "NOP", "here:", "J here"]);
    assert_eq!(compile(program), Ok(image(&[0x0000, 0x0000, 0xF002])));
}

#[test]
fn label_on_a_line_with_nop_then_jump() {
    let together = lines(&["loop: NOP", "J loop"]);
    assert_eq!(compile(together), Ok(image(&[0xF000])));
    let apart = lines(&["loop:", "NOP", "J loop"]);
    assert_eq!(compile(apart), Ok(image(&[0x0000, 0xF000])));
}

#[test]
fn label_on_the_first_line_is_address_zero() {
    let labels = build_label_table(&lines(&["start:", "NOP"]));
    assert_eq!(labels.resolve("start"), Some(0));
}

#[test]
fn labels_take_no_slot() {
    let program = lines(&["a:", "NOP", "b:", "c:", "NOP", "d:", "J a", "J b", "J c", "J d"]);
    assert_eq!(
        compile(program),
        Ok(image(&[0x0000, 0x0000, 0xF000, 0xF001, 0xF001, 0xF002]))
    );
}

#[test]
fn forward_references_resolve() {
    let program = lines(&["J end", "JZ R1 end", "NOP", "end:", "JLT R2 end"]);
    assert_eq!(compile(program), Ok(image(&[0xF003, 0xD103, 0x0000, 0xE203])));
}

#[test]
fn label_at_the_end_is_the_address_after_the_last_instruction() {
    let program = lines(&["J end", "end:"]);
    assert_eq!(compile(program), Ok(image(&[0xF001])));
}

#[test]
fn later_definition_of_a_label_wins() {
    let program = lines(&["x:", "J x", "NOP", "x:", "J x"]);
    assert_eq!(compile(program), Ok(image(&[0xF002, 0x0000, 0xF002])));
}

#[test]
fn blank_lines_are_passed_over() {
    let program = lines(&["", "NOP", "", "", "top:", "", "J top", ""]);
    assert_eq!(compile(program), Ok(image(&[0x0000, 0xF001])));
}

#[test]
fn whole_run_from_text() {
    let text = "LDI R1 5\nLDI R2 1\nloop:\nSUB R1 R2\nJZ R1 end\nJ loop\nend:\nOUT R1 0\n";
    assert_eq!(
        compile(processFile(text.to_string())),
        Ok(image(&[0x2105, 0x2201, 0x3120, 0xD105, 0xF002, 0xC100]))
    );
}

#[test]
fn unrecognized_mnemonic_fails_with_invalid_instruction() {
    assert_eq!(
        compile(processFile("FOO R1 R2".to_string())),
        Err(failure(1, AsmError::InvalidInstruction))
    );
}

#[test]
fn failures_carry_their_line() {
    assert_eq!(
        compile(lines(&["NOP", "", "x:", "ADD R1 R99"])),
        Err(failure(4, AsmError::InvalidRegister))
    );
    assert_eq!(
        compile(lines(&["NOP", "LDI R1 abc", "FOO"])),
        Err(failure(2, AsmError::MalformedImmediate))
    );
    assert_eq!(compile(lines(&["x:", "J y"])), Err(failure(2, AsmError::UnresolvedLabel)));
    assert_eq!(compile(lines(&["NOP", "NOP", "BAR"])), Err(failure(3, AsmError::InvalidInstruction)));
}

#[test]
fn the_first_failing_line_is_reported() {
    assert_eq!(
        compile(lines(&["ADD R1 R99", "FOO", "J nowhere"])),
        Err(failure(1, AsmError::InvalidRegister))
    );
    assert_eq!(
        compile(lines(&["NOP", "J nowhere", "FOO"])),
        Err(failure(2, AsmError::UnresolvedLabel))
    );
}

#[test]
fn a_line_that_starts_with_a_space_is_no_instruction() {
    assert_eq!(
        compile(processFile(" NOP".to_string())),
        Err(failure(1, AsmError::InvalidInstruction))
    );
    assert_eq!(
        compile(processFile("ADD  R1 R2".to_string())),
        Err(failure(1, AsmError::InvalidRegister))
    );
    assert_eq!(
        compile(processFile("\tNOP".to_string())),
        Err(failure(1, AsmError::InvalidInstruction))
    );
}

#[test]
fn thirty_two_instructions_fit() {
    let source = vec!["LDI R1 1"; 32];
    assert_eq!(compile(lines(&source)), Ok([0x2101u16; 32]));
}

#[test]
fn thirty_three_instructions_are_too_many() {
    let source = vec!["NOP"; 33];
    assert_eq!(compile(lines(&source)), Err(failure(33, AsmError::ProgramTooLarge)));
}

#[test]
fn too_large_is_reported_at_the_first_instruction_without_room() {
    let mut source = vec!["top:", ""];
    source.extend(vec!["NOP"; 32]);
    source.push("end:");
    source.push("");
    source.push("J top");
    source.push("NOP");
    assert_eq!(compile(lines(&source)), Err(failure(37, AsmError::ProgramTooLarge)));
}

#[test]
fn an_earlier_failure_comes_before_too_large() {
    let mut source = vec!["FOO"];
    source.extend(vec!["NOP"; 32]);
    assert_eq!(compile(lines(&source)), Err(failure(1, AsmError::InvalidInstruction)));
}

#[test]
fn an_instruction_without_room_fails_by_its_own_error_first() {
    let mut source = vec!["NOP"; 32];
    source.push("FOO");
    assert_eq!(compile(lines(&source)), Err(failure(33, AsmError::InvalidInstruction)));
    source[32] = "ADD R1 R16";
    assert_eq!(compile(lines(&source)), Err(failure(33, AsmError::InvalidRegister)));
    source[32] = "ADD R1 R15";
    assert_eq!(compile(lines(&source)), Err(failure(33, AsmError::ProgramTooLarge)));
}

#[test]
fn a_label_beyond_the_image_still_resolves() {
    let mut source = vec!["J end"];
    source.extend(vec!["NOP"; 32]);
    source.push("end:");
    assert_eq!(compile(lines(&source)), Err(failure(33, AsmError::ProgramTooLarge)));
    source.remove(1);
    let mut expected = [0u16; 32];
    expected[0] = 0xF020;
    assert_eq!(compile(lines(&source)), Ok(expected));
}

#[test]
fn labels_do_not_count_towards_the_capacity() {
    let mut source = Vec::new();
    for _ in 0..32 {
        source.push("l:");
        source.push("NOP");
        source.push("");
    }
    source.push("end:");
    assert_eq!(compile(lines(&source)), Ok([0u16; 32]));
}

#[test]
fn first_pass_counts_instruction_lines() {
    let labels = build_label_table(&lines(&["a:", "NOP", "NOP", "b:", "", "c:", "FOO", "d:"]));
    assert_eq!(labels.resolve("a"), Some(0));
    assert_eq!(labels.resolve("b"), Some(2));
    assert_eq!(labels.resolve("c"), Some(2));
    assert_eq!(labels.resolve("d"), Some(3));
    assert_eq!(labels.resolve("e"), None);
    assert_eq!(labels.resolve("a:"), None);
}

#[test]
fn first_pass_counts_beyond_the_image() {
    let mut source = vec!["NOP"; 40];
    source.push("l:");
    assert_eq!(build_label_table(&lines(&source)).resolve("l"), Some(40));
}

#[test]
fn first_pass_holds_counts_to_sixteen_bits() {
    let mut source = vec!["NOP"; 65534];
    source.extend(["a:", "NOP", "b:", "NOP", "c:", "NOP", "d:"]);
    let labels = build_label_table(&lines(&source));
    assert_eq!(labels.resolve("a"), Some(65534));
    assert_eq!(labels.resolve("b"), Some(65535));
    assert_eq!(labels.resolve("c"), Some(65535));
    assert_eq!(labels.resolve("d"), Some(65535));
}

#[test]
fn a_colon_alone_defines_the_empty_name() {
    let labels = build_label_table(&lines(&["NOP", ":"]));
    assert_eq!(labels.resolve(""), Some(1));
    let program = vec![
        vec!["NOP".to_string()],
        vec![":".to_string()],
        vec!["J".to_string(), String::new()],
    ];
    assert_eq!(compile(program), Ok(image(&[0x0000, 0xF001])));
}

#[test]
fn label_table_replaces_on_redefinition() {
    let mut table = LabelTable::new();
    assert_eq!(table.resolve("x"), None);
    table.define("x".to_string(), 3);
    table.define("y".to_string(), 4);
    assert_eq!(table.resolve("x"), Some(3));
    table.define("x".to_string(), 9);
    assert_eq!(table.resolve("x"), Some(9));
    assert_eq!(table.resolve("y"), Some(4));
    assert_eq!(table.resolve("X"), None);
}

#[test]
fn second_pass_uses_the_table_it_is_given() {
    let mut table = LabelTable::new();
    table.define("there".to_string(), 17);
    let program = lines(&["here:", "J there", "JZ R4 there"]);
    assert_eq!(encode_program(&program, &table), Ok(image(&[0xF011, 0xD411])));
    assert_eq!(
        encode_program(&lines(&["J here"]), &table),
        Err(failure(1, AsmError::UnresolvedLabel))
    );
}

#[test]
fn second_pass_checks_the_capacity_itself() {
    let mut source = vec!["NOP"; 32];
    source.push("NOP");
    assert_eq!(
        encode_program(&lines(&source), &LabelTable::new()),
        Err(failure(33, AsmError::ProgramTooLarge))
    );
    source[32] = "FOO";
    assert_eq!(
        encode_program(&lines(&source), &LabelTable::new()),
        Err(failure(33, AsmError::InvalidInstruction))
    );
    source[31] = "FOO";
    assert_eq!(
        encode_program(&lines(&source), &LabelTable::new()),
        Err(failure(32, AsmError::InvalidInstruction))
    );
}

#[test]
fn lines_are_told_apart_by_their_first_token() {
    assert_eq!(classify(&Vec::new()), LineKind::Blank);
    assert_eq!(classify(&vec!["loop:".to_string()]), LineKind::Label);
    assert_eq!(classify(&vec!["loop:".to_string(), "NOP".to_string()]), LineKind::Label);
    assert_eq!(classify(&vec![":".to_string()]), LineKind::Label);
    assert_eq!(classify(&vec!["NOP".to_string()]), LineKind::Instruction);
    assert_eq!(classify(&vec![String::new()]), LineKind::Instruction);
    assert_eq!(classify(&vec!["a:b".to_string()]), LineKind::Instruction);
    assert_eq!(classify(&vec!["NOP".to_string(), "x:".to_string()]), LineKind::Instruction);
}

#[test]
fn label_lines_define_their_first_token_without_the_colon() {
    assert_eq!(label_of(&vec!["loop:".to_string()]), Some("loop".to_string()));
    assert_eq!(label_of(&vec!["loop:".to_string(), "NOP".to_string()]), Some("loop".to_string()));
    assert_eq!(label_of(&vec!["a::".to_string()]), Some("a:".to_string()));
    assert_eq!(label_of(&vec![":".to_string()]), Some(String::new()));
    assert_eq!(label_of(&vec!["\u{3bb}:".to_string()]), Some("\u{3bb}".to_string()));
    assert_eq!(label_of(&vec!["NOP".to_string()]), None);
    assert_eq!(label_of(&vec!["NOP".to_string(), "x:".to_string()]), None);
    assert_eq!(label_of(&vec![String::new()]), None);
    assert_eq!(label_of(&Vec::new()), None);
}
