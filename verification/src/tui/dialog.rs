use vstd::prelude::*;
use vstd::string::StrSliceExecFns;
use crate::text::{pad_spec, pad_to_width, push_char};
use crate::tui::omnibox::command::{NUM_OMNIBOX_COMMANDS, command_table, omnibox_command};

verus! {

/// The title and text of a dialog.
#[derive(Debug, PartialEq, Eq)]
pub struct DialogText {
    pub title: String,
    pub content: String,
}

/// A notice: the message, under the given title or "Notice".
pub fn show_notice(msg: String, title: Option<String>) -> (r: DialogText)
    ensures
        r.content@ == msg@,
        r.title@ == (match title {
            Some(t) => t@,
            None => "Notice"@,
        }),
{
    let title = match title {
        Some(t) => t,
        None => "Notice".to_owned(),
    };
    DialogText { title, content: msg }
}

/// The ASCII characters of a string, in order.
pub open spec fn ascii_only(s: Seq<char>) -> Seq<char>
    decreases s.len(),
{
    if s.len() == 0 {
        Seq::empty()
    } else if (s.last() as u32) < 128 {
        ascii_only(s.drop_last()).push(s.last())
    } else {
        ascii_only(s.drop_last())
    }
}

/// One line of the help: the command name padded to 15 characters, then
/// its description without non-ASCII characters.
pub open spec fn help_line(name: Seq<char>, desc: Seq<char>) -> Seq<char> {
    pad_spec(name, 15) + ": "@ + ascii_only(desc)
}

/// The help lines of the first `k` commands, each ended by a newline but
/// the last.
pub open spec fn help_text(k: int) -> Seq<char>
    decreases k,
{
    if k <= 0 {
        Seq::empty()
    } else if k == 1 {
        help_line(command_table()[0].0, command_table()[0].1)
    } else {
        help_text(k - 1) + "\n"@ + help_line(command_table()[k - 1].0, command_table()[k - 1].1)
    }
}

fn ascii_chars(s: &str) -> (r: String)
    ensures
        r@ == ascii_only(s@),
{
    let n = s.unicode_len();
    let mut r = String::new();
    let mut i: usize = 0;
    while i < n
        invariant
            n == s@.len(),
            0 <= i <= n,
            r@ == ascii_only(s@.take(i as int)),
        decreases n - i,
    {
        let c = s.get_char(i);
        assert(s@.take(i + 1).drop_last() =~= s@.take(i as int));
        assert(s@.take(i + 1).last() == c);
        if (c as u32) < 128 {
            push_char(&mut r, c);
        }
        i = i + 1;
    }
    assert(s@.take(n as int) =~= s@);
    r
}

/// The help dialog: every command with its description.
pub fn show_help() -> (r: DialogText)
    ensures
        r.title@ == "Help"@,
        r.content@ == help_text(command_table().len() as int),
{
    let mut content = String::new();
    let mut i: usize = 0;
    while i < NUM_OMNIBOX_COMMANDS
        invariant
            0 <= i <= NUM_OMNIBOX_COMMANDS,
            content@ == help_text(i as int),
        decreases NUM_OMNIBOX_COMMANDS - i,
    {
        let (name, desc, _) = omnibox_command(i);
        if i > 0 {
            content.append("\n");
        }
        let padded = pad_to_width(name.to_owned(), 15);
        content.append(padded.as_str());
        content.append(": ");
        let d = ascii_chars(desc);
        content.append(d.as_str());
        i = i + 1;
    }
    DialogText { title: "Help".to_owned(), content }
}

} // verus!
