//! Command lines of the SSH management shell.
use vstd::prelude::*;
use vstd::string::StrSliceExecFns;

verus! {

/// Whether `c` has Unicode's `White_Space` property: tab, line feed,
/// vertical tab, form feed, carriage return, space, next line, no-break space,
/// Ogham space mark, the spaces U+2000 to U+200A, line and paragraph
/// separators, narrow no-break space, medium mathematical space and
/// ideographic space.
pub open spec fn unicode_white_space(c: char) -> bool {
    let v = c as u32;
    ||| 0x09 <= v <= 0x0d
    ||| v == 0x20
    ||| v == 0x85
    ||| v == 0xa0
    ||| v == 0x1680
    ||| 0x2000 <= v <= 0x200a
    ||| v == 0x2028
    ||| v == 0x2029
    ||| v == 0x202f
    ||| v == 0x205f
    ||| v == 0x3000
}

/// Whether `c` is whitespace, as `char::is_whitespace` answers.
pub fn is_whitespace(c: char) -> (white: bool)
    ensures
        white == unicode_white_space(c),
{
    let v = c as u32;
    (0x09 <= v && v <= 0x0d) || v == 0x20 || v == 0x85 || v == 0xa0 || v == 0x1680 || (0x2000
        <= v && v <= 0x200a) || v == 0x2028 || v == 0x2029 || v == 0x202f || v == 0x205f || v
        == 0x3000
}

/// `s` without its leading whitespace.
pub open spec fn trim_start(s: Seq<char>) -> Seq<char>
    decreases s.len(),
{
    if s.len() > 0 && unicode_white_space(s[0]) {
        trim_start(s.drop_first())
    } else {
        s
    }
}

/// `s` without its trailing whitespace.
pub open spec fn trim_end(s: Seq<char>) -> Seq<char>
    decreases s.len(),
{
    if s.len() > 0 && unicode_white_space(s.last()) {
        trim_end(s.drop_last())
    } else {
        s
    }
}

/// `s` without leading and trailing whitespace.
pub open spec fn spec_trim(s: Seq<char>) -> Seq<char> {
    trim_end(trim_start(s))
}

/// A management command, as text.
pub enum CommandView {
    Help,
    Status,
    Echo(Seq<char>),
    Exit,
    Unknown(Seq<char>),
}

/// A command understood by the small SSH management shell.
///
/// The variants borrow text from the input line.
#[derive(Debug, PartialEq, Eq)]
pub enum SshCommand<'a> {
    Help,
    Status,
    Echo(&'a str),
    Exit,
    Unknown(&'a str),
}

impl<'a> View for SshCommand<'a> {
    type V = CommandView;

    open spec fn view(&self) -> CommandView {
        match *self {
            SshCommand::Help => CommandView::Help,
            SshCommand::Status => CommandView::Status,
            SshCommand::Echo(text) => CommandView::Echo(text@),
            SshCommand::Exit => CommandView::Exit,
            SshCommand::Unknown(text) => CommandView::Unknown(text@),
        }
    }
}

/// `prefix` begins `s`.
pub open spec fn starts_with(s: Seq<char>, prefix: Seq<char>) -> bool {
    prefix.len() <= s.len() && s.subrange(0, prefix.len() as int) == prefix
}

/// The command that the line `line` asks for.
pub open spec fn spec_parse_command(line: Seq<char>) -> CommandView {
    let t = spec_trim(line);
    if t == "help"@ {
        CommandView::Help
    } else if t == "status"@ {
        CommandView::Status
    } else if t == "exit"@ || t == "logout"@ {
        CommandView::Exit
    } else if t == "echo"@ {
        CommandView::Echo(Seq::empty())
    } else if starts_with(t, "echo "@) {
        CommandView::Echo(t.skip("echo "@.len() as int))
    } else {
        CommandView::Unknown(t)
    }
}

pub(crate) fn str_equals(a: &str, b: &str) -> (equal: bool)
    ensures
        equal == (a@ == b@),
{
    let n = a.unicode_len();
    if n != b.unicode_len() {
        return false;
    }
    let mut i: usize = 0;
    while i < n
        invariant
            n == a@.len(),
            n == b@.len(),
            i <= n,
            forall|j: int| 0 <= j < i ==> a@[j] == b@[j],
        decreases n - i,
    {
        if a.get_char(i) != b.get_char(i) {
            return false;
        }
        i = i + 1;
    }
    assert(a@ =~= b@);
    true
}

fn str_starts_with(s: &str, prefix: &str) -> (found: bool)
    ensures
        found == starts_with(s@, prefix@),
{
    let n = prefix.unicode_len();
    if n > s.unicode_len() {
        return false;
    }
    let mut i: usize = 0;
    while i < n
        invariant
            n == prefix@.len(),
            n <= s@.len(),
            i <= n,
            forall|j: int| 0 <= j < i ==> s@[j] == prefix@[j],
        decreases n - i,
    {
        if s.get_char(i) != prefix.get_char(i) {
            assert(s@.subrange(0, n as int)[i as int] != prefix@[i as int]);
            return false;
        }
        i = i + 1;
    }
    assert(s@.subrange(0, n as int) =~= prefix@);
    true
}

/// `line` without leading and trailing whitespace.
pub fn trim(line: &str) -> (trimmed: &str)
    ensures
        trimmed@ == spec_trim(line@),
{
    let n = line.unicode_len();
    let mut start: usize = 0;
    assert(line@.subrange(0, n as int) =~= line@);
    while start < n && is_whitespace(line.get_char(start))
        invariant
            n == line@.len(),
            start <= n,
            trim_start(line@) == trim_start(line@.subrange(start as int, n as int)),
        decreases n - start,
    {
        assert(line@.subrange(start as int, n as int).drop_first() =~= line@.subrange(
            start + 1,
            n as int,
        ));
        start = start + 1;
    }
    assert(trim_start(line@) == line@.subrange(start as int, n as int));
    let mut end: usize = n;
    while end > start && is_whitespace(line.get_char(end - 1))
        invariant
            n == line@.len(),
            start <= end <= n,
            trim_end(line@.subrange(start as int, n as int)) == trim_end(
                line@.subrange(start as int, end as int),
            ),
        decreases end - start,
    {
        assert(line@.subrange(start as int, end as int).drop_last() =~= line@.subrange(
            start as int,
            end - 1,
        ));
        end = end - 1;
    }
    line.substring_char(start, end)
}

/// Parse one command line received through SSH.
pub fn parse_ssh_command(line: &str) -> (command: SshCommand<'_>)
    ensures
        command@ == spec_parse_command(line@),
{
    let line = trim(line);
    if str_equals(line, "help") {
        SshCommand::Help
    } else if str_equals(line, "status") {
        SshCommand::Status
    } else if str_equals(line, "exit") || str_equals(line, "logout") {
        SshCommand::Exit
    } else if str_equals(line, "echo") {
        let empty = line.substring_char(0, 0);
        assert(empty@ =~= Seq::<char>::empty());
        SshCommand::Echo(empty)
    } else if str_starts_with(line, "echo ") {
        let skip = "echo ".unicode_len();
        let n = line.unicode_len();
        let text = line.substring_char(skip, n);
        assert(text@ =~= line@.skip("echo "@.len() as int));
        SshCommand::Echo(text)
    } else {
        SshCommand::Unknown(line)
    }
}

} // verus!
