use asm16::tokenizer::{processFile, split_str, tokens};

fn owned(lines: &[&[&str]]) -> Vec<Vec<String>> {
    lines.iter().map(|line| line.iter().map(|token| token.to_string()).collect()).collect()
}

#[test]
fn one_line_is_split_at_spaces() {
    assert_eq!(processFile("ADD R1 R2".to_string()), owned(&[&["ADD", "R1", "R2"]]));
}

#[test]
fn lines_keep_their_order() {
    let text = "LDI R1 5\nloop:\nSUB R1 R2\nJZ R1 end\nJ loop\nend:\nNOP";
    assert_eq!(
        processFile(text.to_string()),
        owned(&[
            &["LDI", "R1", "5"],
            &["loop:"],
            &["SUB", "R1", "R2"],
            &["JZ", "R1", "end"],
            &["J", "loop"],
            &["end:"],
            &["NOP"],
        ])
    );
}

#[test]
fn empty_text_has_no_lines() {
    assert_eq!(processFile(String::new()), Vec::<Vec<String>>::new());
}

#[test]
fn final_line_feed_adds_no_line() {
    assert_eq!(processFile("NOP\n".to_string()), owned(&[&["NOP"]]));
    assert_eq!(processFile("NOP\nNOP\n".to_string()), owned(&[&["NOP"], &["NOP"]]));
}

#[test]
fn blank_lines_have_no_tokens() {
    assert_eq!(processFile("NOP\n\nNOP".to_string()), owned(&[&["NOP"], &[], &["NOP"]]));
    assert_eq!(processFile("\n".to_string()), owned(&[&[]]));
    assert_eq!(processFile("\n\n".to_string()), owned(&[&[], &[]]));
    assert_eq!(processFile("\nNOP".to_string()), owned(&[&[], &["NOP"]]));
}

#[test]
fn carriage_return_before_line_feed_is_dropped() {
    assert_eq!(processFile("NOP\r\nADD R1 R2\r\n".to_string()), owned(&[&["NOP"], &["ADD", "R1", "R2"]]));
    assert_eq!(processFile("\r\n".to_string()), owned(&[&[]]));
}

#[test]
fn carriage_return_without_line_feed_stays() {
    assert_eq!(processFile("NOP\r".to_string()), owned(&[&["NOP\r"]]));
    assert_eq!(processFile("NOP\r\nNOP\r".to_string()), owned(&[&["NOP"], &["NOP\r"]]));
    assert_eq!(processFile("A\rB\n".to_string()), owned(&[&["A\rB"]]));
}

#[test]
fn only_one_carriage_return_is_dropped() {
    assert_eq!(processFile("NOP\r\r\n".to_string()), owned(&[&["NOP\r"]]));
}

#[test]
fn repeated_spaces_give_empty_tokens() {
    assert_eq!(processFile("ADD  R1 R2".to_string()), owned(&[&["ADD", "", "R1", "R2"]]));
    assert_eq!(processFile(" NOP".to_string()), owned(&[&["", "NOP"]]));
    assert_eq!(processFile("NOP ".to_string()), owned(&[&["NOP", ""]]));
    assert_eq!(processFile(" ".to_string()), owned(&[&["", ""]]));
}

#[test]
fn tabs_are_not_separators() {
    assert_eq!(processFile("ADD\tR1 R2".to_string()), owned(&[&["ADD\tR1", "R2"]]));
    assert_eq!(processFile("\tNOP".to_string()), owned(&[&["\tNOP"]]));
}

#[test]
fn text_beyond_ascii_is_kept() {
    assert_eq!(processFile("J caf\u{e9}\n\u{3bb}: x".to_string()), owned(&[&["J", "caf\u{e9}"], &["\u{3bb}:", "x"]]));
}

#[test]
fn tokenizer_agrees_with_the_standard_library() {
    let texts = [
        "",
        "\n",
        "a",
        "a b\nc  d\n\n e \r\nf\r",
        "LDI R1 5\nloop:\n  SUB R1 R2\n\tJZ R1 end\nJ loop\nend: NOP\n",
        "\r\n\r\n",
        "x\n\ny\n\n",
    ];
    for text in texts {
        let expected: Vec<Vec<String>> = text
            .lines()
            .map(|line| {
                if line.is_empty() {
                    Vec::new()
                } else {
                    line.split(' ').map(|token| token.to_string()).collect()
                }
            })
            .collect();
        assert_eq!(processFile(text.to_string()), expected, "text {:?}", text);
    }
}

#[test]
fn split_cuts_at_every_separator() {
    assert_eq!(split_str("a,b,c", ','), vec!["a", "b", "c"]);
    assert_eq!(split_str("", ','), vec![""]);
    assert_eq!(split_str(",", ','), vec!["", ""]);
    assert_eq!(split_str(",a,,b,", ','), vec!["", "a", "", "b", ""]);
    assert_eq!(split_str("abc", ','), vec!["abc"]);
}

#[test]
fn split_pieces_join_to_the_text() {
    for text in ["", " ", "a b", "  a  b  ", "abc", "a b c d e"] {
        assert_eq!(split_str(text, ' ').join(" "), text);
    }
}

#[test]
fn tokens_of_one_line() {
    assert_eq!(tokens("JZ R1 end"), vec!["JZ", "R1", "end"]);
    assert_eq!(tokens(""), Vec::<String>::new());
    assert_eq!(tokens("NOP"), vec!["NOP"]);
}
