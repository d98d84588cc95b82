//! The text of the lines and of the files that are written.

use vstd::prelude::*;
use crate::text::push_all;

verus! {

/// `text` between two double quotes.
pub open spec fn quoted(text: Seq<char>) -> Seq<char> {
    seq!['"'] + text + seq!['"']
}

/// The line that hands the option `name` with `value` to a tool: a slash,
/// the name, a colon, and the value between double quotes.
pub open spec fn option_line(name: Seq<char>, value: Seq<char>) -> Seq<char> {
    seq!['/'] + name + seq![':'] + quoted(value)
}

/// The text of a file that holds `lines`, each followed by a line feed.
pub open spec fn file_text(lines: Seq<Seq<char>>) -> Seq<char>
    decreases lines.len(),
{
    if lines.len() == 0 {
        Seq::empty()
    } else {
        file_text(lines.drop_last()) + lines.last() + seq!['\n']
    }
}

/// Puts `text` between double quotes, whatever it holds.
pub fn quote(text: &[char]) -> (line: String)
    ensures
        line@ == quoted(text@),
{
    let mut line = String::new();
    line.push('"');
    push_all(&mut line, text);
    line.push('"');
    proof {
        assert(line@ =~= quoted(text@));
    }
    line
}

/// Writes the option `name` with `value` as one line.
pub fn format_option(name: &[char], value: &[char]) -> (line: String)
    ensures
        line@ == option_line(name@, value@),
{
    let mut line = String::new();
    line.push('/');
    push_all(&mut line, name);
    line.push(':');
    line.push('"');
    push_all(&mut line, value);
    line.push('"');
    proof {
        assert(line@ =~= option_line(name@, value@));
    }
    line
}

/// Writes `lines` as the text of one file, a line feed after each.
pub fn render(lines: &Vec<String>) -> (text: String)
    ensures
        text@ == file_text(lines.deep_view()),
{
    let mut text = String::new();
    let mut i: usize = 0;
    while i < lines.len()
        invariant
            i <= lines.len(),
            text@ == file_text(lines.deep_view().take(i as int)),
        decreases lines.len() - i,
    {
        proof {
            let done = lines.deep_view().take(i as int);
            let next = lines.deep_view().take(i + 1);
            assert(next.drop_last() =~= done);
            assert(next.last() == lines[i as int]@);
        }
        text.append(lines[i].as_str());
        text.push('\n');
        i += 1;
    }
    proof {
        assert(lines.deep_view().take(i as int) =~= lines.deep_view());
    }
    text
}

} // verus!
