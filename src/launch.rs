use vstd::prelude::*;
use vstd::string::StringExecFns;
use crate::catalog::{AppEntry, views};

verus! {

/// A program and its arguments.
pub struct CommandLine {
    pub program: String,
    pub args: Vec<String>,
}

/// The words of a text, as `str::split_whitespace` cuts them.
pub uninterp spec fn words_of(s: Seq<char>) -> Seq<Seq<char>>;

/// Relies on str::split_whitespace: the words of a text, in order, which depend on the
/// text alone; a text without words gives none.
#[verifier::external_body]
fn split_words(s: &str) -> (r: Vec<String>)
    ensures
        views(r@) == words_of(s@),
        s@.len() == 0 ==> r@.len() == 0,
{
    s.split_whitespace().map(|w| w.to_string()).collect()
}

/// The program and arguments that run `command`: through the terminal whose command
/// words are `terminal` when the entry needs one and there are such words (adding `-e`
/// after a lone program name), otherwise through `sh -c`.
pub open spec fn command_line(needs_terminal: bool, command: Seq<char>, terminal: Seq<Seq<char>>) -> (
    Seq<char>,
    Seq<Seq<char>>,
) {
    if needs_terminal && terminal.len() > 0 {
        let extra = if terminal.len() == 1 {
            seq!["-e"@]
        } else {
            Seq::empty()
        };
        (terminal[0], terminal.drop_first() + extra + seq![command])
    } else {
        ("sh"@, seq!["-c"@, command])
    }
}

/// The command line for an entry, given the words of the terminal setting.
pub fn command_for(entry: &AppEntry, terminal_words: &Vec<String>) -> (r: CommandLine)
    ensures
        (r.program@, views(r.args@)) == command_line(entry.terminal, entry.command@, views(
            terminal_words@,
        )),
{
    proof {
        reveal_strlit("-e");
        reveal_strlit("sh");
        reveal_strlit("-c");
    }
    if entry.terminal && terminal_words.len() > 0 {
        let mut args: Vec<String> = Vec::new();
        let mut i: usize = 1;
        while i < terminal_words.len()
            invariant
                1 <= i <= terminal_words@.len(),
                args@.len() == i - 1,
                forall|k: int| 0 <= k < args@.len() ==> args@[k]@ == terminal_words@[k + 1]@,
            decreases terminal_words@.len() - i,
        {
            let w = terminal_words[i].clone();
            args.push(w);
            i = i + 1;
        }
        assert(views(args@) =~= views(terminal_words@).drop_first());
        if terminal_words.len() == 1 {
            args.push(String::from_str("-e"));
        }
        args.push(entry.command.clone());
        let r = CommandLine { program: terminal_words[0].clone(), args };
        assert(views(r.args@) =~= command_line(entry.terminal, entry.command@, views(terminal_words@)).1);
        r
    } else {
        let mut args: Vec<String> = Vec::new();
        args.push(String::from_str("-c"));
        args.push(entry.command.clone());
        let r = CommandLine { program: String::from_str("sh"), args };
        assert(views(r.args@) =~= seq!["-c"@, entry.command@]);
        r
    }
}

/// The command line that launches an entry with the given terminal setting.
pub fn build_command(entry: &AppEntry, terminal: &str) -> (r: CommandLine)
    ensures
        (r.program@, views(r.args@)) == command_line(entry.terminal, entry.command@, words_of(
            terminal@,
        )),
{
    let words = split_words(terminal);
    command_for(entry, &words)
}

/// A command line as one line of text: the arguments follow the program, separated by
/// spaces, and an argument that holds a space stands in double quotes.
pub open spec fn shell_text(program: Seq<char>, args: Seq<Seq<char>>) -> Seq<char>
    decreases args.len(),
{
    if args.len() == 0 {
        program + " "@
    } else {
        let prev = shell_text(program, args.drop_last());
        let a = args.last();
        let quoted = if a.contains(' ') {
            "\""@ + a + "\""@
        } else {
            a
        };
        if args.len() == 1 {
            prev + quoted
        } else {
            prev + " "@ + quoted
        }
    }
}

fn has_space(s: &String) -> (r: bool)
    ensures
        r == s@.contains(' '),
{
    let n = s.as_str().unicode_len();
    let mut i: usize = 0;
    while i < n
        invariant
            n == s@.len(),
            i <= n,
            forall|k: int| 0 <= k < i ==> s@[k] != ' ',
        decreases n - i,
    {
        if s.as_str().get_char(i) == ' ' {
            return true;
        }
        i = i + 1;
    }
    false
}

/// The command line as one line of text, for the window manager to run.
pub fn shell_line(cmd: &CommandLine) -> (r: String)
    ensures
        r@ == shell_text(cmd.program@, views(cmd.args@)),
{
    proof {
        reveal_strlit(" ");
        reveal_strlit("\"");
    }
    let mut r = cmd.program.clone().concat(" ");
    let mut i: usize = 0;
    while i < cmd.args.len()
        invariant
            i <= cmd.args@.len(),
            r@ == shell_text(cmd.program@, views(cmd.args@).subrange(0, i as int)),
        decreases cmd.args@.len() - i,
    {
        let a = &cmd.args[i];
        if i > 0 {
            r = r.concat(" ");
        }
        if has_space(a) {
            r = r.concat("\"").concat(a.as_str()).concat("\"");
        } else {
            r = r.concat(a.as_str());
        }
        proof {
            let s = views(cmd.args@).subrange(0, i + 1);
            assert(s.drop_last() =~= views(cmd.args@).subrange(0, i as int));
            assert(s.last() == a@);
        }
        i = i + 1;
    }
    assert(views(cmd.args@).subrange(0, i as int) =~= views(cmd.args@));
    r
}

/// The line that print mode writes for a chosen command: the terminal setting before
/// it when the entry needs a terminal.
pub fn print_line(needs_terminal: bool, terminal: &str, command: &str) -> (r: String)
    ensures
        r@ == if needs_terminal {
            terminal@ + " "@ + command@
        } else {
            command@
        },
{
    proof {
        reveal_strlit(" ");
    }
    if needs_terminal {
        String::from_str(terminal).concat(" ").concat(command)
    } else {
        String::from_str(command)
    }
}

} // verus!
