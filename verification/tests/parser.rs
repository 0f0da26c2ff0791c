use bmos::parser::{allowed_character, parse_command_line, separator};

fn reference(input: &str) -> nom::IResult<&str, Vec<&str>> {
    fn word(input: &str) -> nom::IResult<&str, &str> {
        nom::bytes::complete::take_while1(|c: char| {
            nom::character::is_alphanumeric(c as u8) || ".:/-_".contains(c)
        })(input)
    }
    fn double_quoted(input: &str) -> nom::IResult<&str, &str> {
        nom::sequence::delimited(
            nom::character::complete::char('"'),
            nom::bytes::complete::escaped(
                nom::bytes::complete::is_not("\\\""),
                '\\',
                nom::character::complete::char('"'),
            ),
            nom::character::complete::char('"'),
        )(input)
    }
    fn single_quoted(input: &str) -> nom::IResult<&str, &str> {
        nom::sequence::delimited(
            nom::character::complete::char('\''),
            nom::bytes::complete::escaped(
                nom::bytes::complete::is_not("\\\'"),
                '\\',
                nom::character::complete::char('\''),
            ),
            nom::character::complete::char('\''),
        )(input)
    }
    nom::multi::separated_list0(
        nom::character::complete::multispace1,
        nom::branch::alt((word, nom::branch::alt((double_quoted, single_quoted)))),
    )(input)
}

fn agrees(input: &str) {
    let (rest, words) = parse_command_line(input);
    assert_eq!(reference(input), Ok((rest, words)), "on {:?}", input);
}

#[test]
fn plain_words() {
    assert_eq!(parse_command_line("echo hello world"), ("", vec!["echo", "hello", "world"]));
    assert_eq!(parse_command_line("ls"), ("", vec!["ls"]));
    assert_eq!(parse_command_line("a.b:c/d-e_f 09AZaz"), ("", vec!["a.b:c/d-e_f", "09AZaz"]));
}

#[test]
fn empty_line_has_no_words() {
    assert_eq!(parse_command_line(""), ("", vec![]));
}

#[test]
fn separators_are_blank_tab_return_and_line_feed() {
    assert_eq!(parse_command_line("a \t\r\n b"), ("", vec!["a", "b"]));
    assert_eq!(parse_command_line("a\u{a0}b"), ("\u{a0}b", vec!["a"]));
    assert!(separator(' ') && separator('\t') && separator('\r') && separator('\n'));
    assert!(!separator('\u{b}') && !separator('a') && !separator('\u{a0}'));
}

#[test]
fn quoted_words_come_without_their_quotes() {
    assert_eq!(
        parse_command_line("command \"with args in quotes\" and also without quotes"),
        ("", vec!["command", "with args in quotes", "and", "also", "without", "quotes"])
    );
    assert_eq!(parse_command_line("echo 'a b' \"c d\""), ("", vec!["echo", "a b", "c d"]));
    assert_eq!(parse_command_line("'it is \"fine\"'"), ("", vec!["it is \"fine\""]));
}

#[test]
fn escapes_stay_in_the_word() {
    assert_eq!(parse_command_line(r#"echo "a\"b""#), ("", vec!["echo", r#"a\"b"#]));
    assert_eq!(parse_command_line(r"'a\'b'"), ("", vec![r"a\'b"]));
    assert_eq!(parse_command_line(r#""\"""#), ("", vec![r#"\""#]));
}

#[test]
fn what_is_no_word_is_left_over() {
    assert_eq!(parse_command_line("echo $HOME"), (" $HOME", vec!["echo"]));
    assert_eq!(parse_command_line("a,b"), (",b", vec!["a"]));
    assert_eq!(parse_command_line("!"), ("!", vec![]));
    assert_eq!(parse_command_line(" a"), (" a", vec![]));
    assert_eq!(parse_command_line("a "), (" ", vec!["a"]));
    assert_eq!(parse_command_line("a  "), ("  ", vec!["a"]));
}

#[test]
fn broken_quotes_are_left_over() {
    assert_eq!(parse_command_line("echo \"\""), (" \"\"", vec!["echo"]));
    assert_eq!(parse_command_line("''"), ("''", vec![]));
    assert_eq!(parse_command_line("echo \"open"), (" \"open", vec!["echo"]));
    assert_eq!(parse_command_line("\"a\\"), ("\"a\\", vec![]));
    assert_eq!(parse_command_line("\"a\\b\""), ("\"a\\b\"", vec![]));
    assert_eq!(parse_command_line("'a\\\"b'"), ("'a\\\"b'", vec![]));
    assert_eq!(parse_command_line("\"a\\\""), ("\"a\\\"", vec![]));
}

#[test]
fn words_need_a_separator_between_them() {
    assert_eq!(parse_command_line("a\"b\""), ("\"b\"", vec!["a"]));
    assert_eq!(parse_command_line("\"a\"b"), ("b", vec!["a"]));
    assert_eq!(parse_command_line("\"a\"'b'"), ("'b'", vec!["a"]));
}

#[test]
fn word_characters_go_by_their_lowest_byte() {
    assert!(allowed_character('a') && allowed_character('Z') && allowed_character('5'));
    assert!(allowed_character('.') && allowed_character('_') && allowed_character('/'));
    assert!(!allowed_character(' ') && !allowed_character('"') && !allowed_character('é'));
    assert!(!allowed_character('@') && !allowed_character('[') && !allowed_character('`') && !allowed_character('{'));
    // U+0141 ends in the byte of 'A', U+20AC in a byte that is no letter
    assert!(allowed_character('\u{141}'));
    assert!(!allowed_character('\u{20ac}'));
    assert_eq!(parse_command_line("\u{141}\u{161} x"), ("", vec!["\u{141}\u{161}", "x"]));
    assert_eq!(parse_command_line("a\u{20ac}"), ("\u{20ac}", vec!["a"]));
}

#[test]
fn agrees_with_the_combinators() {
    let pieces = ["a", "b1", " ", "\t", "\n", "\"", "'", "\\", "-", "$", "é", "\u{141}", "x y", "\\\"", "\\'"];
    for first in pieces {
        agrees(first);
        for second in pieces {
            for third in pieces {
                let line = format!("{}{}{}", first, second, third);
                agrees(&line);
                for fourth in ["\"", "'", "z", " w", "\\"] {
                    agrees(&format!("{}{}", line, fourth));
                    agrees(&format!("{}{}{}", fourth, line, fourth));
                }
            }
        }
    }
}
