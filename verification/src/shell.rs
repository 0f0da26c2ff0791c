use vstd::prelude::*;
use vstd::string::StrSliceExecFns;
use crate::builtins::{builtin_names, lines, table_entries, texts, BuiltinKind, BuiltinTable};
use crate::parser::{leftover, parse_command_line, word_texts};
use crate::text::chars_of;

verus! {

/// Whether a character is white space in the sense of Unicode, as
/// `char::is_whitespace` decides it.
pub uninterp spec fn white_space(c: char) -> bool;

/// Asks `char::is_whitespace` whether a character has the Unicode property
/// White_Space.
#[verifier::external_body]
fn is_whitespace(c: char) -> (white: bool)
    ensures
        white == white_space(c),
{
    c.is_whitespace()
}

/// Place of the first character that is not white space, or the length.
pub open spec fn trim_start(s: Seq<char>, from: int) -> int
    decreases s.len() - from,
{
    if 0 <= from < s.len() && white_space(s[from]) {
        trim_start(s, from + 1)
    } else {
        from
    }
}

/// Place after the last character before `to` that is not white space,
/// but not before `from`.
pub open spec fn trim_end(s: Seq<char>, from: int, to: int) -> int
    decreases to - from,
{
    if 0 <= from < to <= s.len() && white_space(s[to - 1]) {
        trim_end(s, from, to - 1)
    } else {
        to
    }
}

/// The text without the white space at its start and at its end.
pub open spec fn trimmed(s: Seq<char>) -> Seq<char> {
    s.subrange(trim_start(s, 0), trim_end(s, trim_start(s, 0), s.len() as int))
}

/// Removes the white space at both ends of a text.
pub fn trim<'a>(input: &'a str) -> (text: &'a str)
    ensures
        text@ == trimmed(input@),
{
    let chars = chars_of(input);
    let mut start: usize = 0;
    while start < chars.len() && is_whitespace(chars[start])
        invariant
            start <= chars@.len(),
            chars@ == input@,
            trim_start(input@, 0) == trim_start(input@, start as int),
        decreases chars@.len() - start,
    {
        start += 1;
    }
    let mut end: usize = chars.len();
    while start < end && is_whitespace(chars[end - 1])
        invariant
            start <= end <= chars@.len(),
            chars@ == input@,
            trim_end(input@, start as int, input@.len() as int) == trim_end(
                input@,
                start as int,
                end as int,
            ),
        decreases end,
    {
        end -= 1;
    }
    input.substring_char(start, end)
}

/// What a shell does with a line of input: it says what it prints to the
/// terminal, one text for each print.
pub trait Shell {
    /// Whether the shell can take this line.
    spec fn accepts(&self, input: Seq<char>) -> bool;

    /// The texts that the shell prints for this line.
    spec fn output(&self, input: Seq<char>) -> Seq<Seq<char>>;

    /// Whether the shell can take this line.
    fn can_process(&self, input: &str) -> (can: bool)
        ensures
            can == self.accepts(input@),
    ;

    /// Carries a line out and returns what it prints.
    fn process_input(&self, input: String) -> (printed: Vec<String>)
        requires
            self.accepts(input@),
        ensures
            lines(printed@) == self.output(input@),
    ;
}

/// The kernel's shell: it knows the builtin commands by name.
pub struct BmShell {
    pub builtins: BuiltinTable,
}

/// What the shell prints when the line is not a list of words.
pub open spec fn syntax_error() -> Seq<char> {
    "Invalid command syntax"@
}

/// What the shell prints when the first word names no command.
pub open spec fn not_found() -> Seq<char> {
    "Command not found."@
}

/// What a shell with these commands prints for a line: a complaint when the
/// trimmed line is not wholly a list of words or its first word names no
/// command, else what the command prints for the words after the first.
pub open spec fn shell_output(commands: Map<Seq<char>, BuiltinKind>, input: Seq<char>) -> Seq<
    Seq<char>,
> {
    let line = trimmed(input);
    let found = word_texts(line);
    if leftover(line).len() > 0 {
        seq![syntax_error()]
    } else if commands.contains_key(found[0]) {
        commands[found[0]].output(found.subrange(1, found.len() as int))
    } else {
        seq![not_found()]
    }
}

/// Whether a line has something to carry out or to complain of: it is not
/// blank.
pub open spec fn has_command(input: Seq<char>) -> bool {
    leftover(trimmed(input)).len() > 0 || word_texts(trimmed(input)).len() > 0
}

impl BmShell {
    /// A shell with the builtin commands.
    pub fn new() -> (shell: BmShell)
        ensures
            table_entries(shell.builtins) == builtin_names(),
    {
        BmShell { builtins: BuiltinTable::builtins() }
    }

    /// What the shell prints for a line it cannot parse.
    fn print_parse_error(&self) -> (printed: Vec<String>)
        ensures
            lines(printed@) == seq![syntax_error()],
    {
        let mut printed: Vec<String> = Vec::new();
        printed.push("Invalid command syntax".to_owned());
        assert(lines(printed@) =~= seq![syntax_error()]);
        printed
    }

    /// Carries a line out if it is not blank, and returns what it prints;
    /// a blank line is not for the shell.
    pub fn try_process_input(&self, input: String) -> (printed: Option<Vec<String>>)
        ensures
            printed is Some <==> has_command(input@),
            printed is Some ==> lines(printed.unwrap()@) == shell_output(
                table_entries(self.builtins),
                input@,
            ),
    {
        if self.can_process(input.as_str()) {
            Some(self.process_input(input))
        } else {
            None
        }
    }
}

impl Shell for BmShell {
    open spec fn accepts(&self, input: Seq<char>) -> bool {
        has_command(input)
    }

    open spec fn output(&self, input: Seq<char>) -> Seq<Seq<char>> {
        shell_output(table_entries(self.builtins), input)
    }

    fn can_process(&self, input: &str) -> (can: bool) {
        let (rest, command_line) = parse_command_line(trim(input));
        rest.unicode_len() > 0 || command_line.len() > 0
    }

    fn process_input(&self, input: String) -> (printed: Vec<String>) {
        let (rest, mut command_line) = parse_command_line(trim(input.as_str()));
        if rest.unicode_len() > 0 {
            return self.print_parse_error();
        }
        let ghost found = texts(command_line@);
        assert(found =~= word_texts(trimmed(input@)));
        let command = command_line.remove(0);
        let arguments = command_line;
        assert(texts(arguments@) =~= found.subrange(1, found.len() as int));
        match self.builtins.get(command) {
            Some(builtin) => builtin.execute(arguments),
            None => {
                let mut printed: Vec<String> = Vec::new();
                printed.push("Command not found.".to_owned());
                assert(lines(printed@) =~= seq![not_found()]);
                printed
            },
        }
    }
}

} // verus!
