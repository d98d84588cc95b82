//! Splitting a command line into its words.

use vstd::prelude::*;

verus! {

/// What a left-to-right scan of a command line has seen so far.
pub struct Scan {
    /// The words that are complete, in the order in which they ended.
    pub tokens: Seq<Seq<char>>,
    /// The characters of the word that is still open.
    pub current: Seq<char>,
    /// Whether the scan stands inside a pair of double quotes.
    pub quoted: bool,
    /// Whether the character before was a backslash that escapes the next one.
    pub escaping: bool,
}

impl Scan {
    /// The state before the first character.
    pub open spec fn start() -> Scan {
        Scan { tokens: Seq::empty(), current: Seq::empty(), quoted: false, escaping: false }
    }

    /// The complete words, followed by the open word unless it is empty.
    pub open spec fn flushed(self) -> Seq<Seq<char>> {
        if self.current.len() > 0 {
            self.tokens.push(self.current)
        } else {
            self.tokens
        }
    }

    /// The state after one more character.
    ///
    /// Outside quotes a space ends the open word and a double quote ends it and
    /// opens a quoted one. Inside quotes a backslash makes the next character
    /// literal, and a double quote that is not escaped ends the quoted word.
    /// Every other character joins the open word.
    pub open spec fn step(self, c: char) -> Scan {
        if self.quoted {
            if c == '\\' && !self.escaping {
                Scan { escaping: true, ..self }
            } else if c == '"' && !self.escaping {
                Scan { tokens: self.flushed(), current: Seq::empty(), quoted: false, ..self }
            } else {
                Scan { current: self.current.push(c), escaping: false, ..self }
            }
        } else if c == ' ' {
            Scan { tokens: self.flushed(), current: Seq::empty(), ..self }
        } else if c == '"' {
            Scan { tokens: self.flushed(), current: Seq::empty(), quoted: true, ..self }
        } else {
            Scan { current: self.current.push(c), ..self }
        }
    }

    /// The state after all of `text`, read from this state on.
    pub open spec fn run(self, text: Seq<char>) -> Scan
        decreases text.len(),
    {
        if text.len() == 0 {
            self
        } else {
            self.run(text.drop_last()).step(text.last())
        }
    }
}

/// The words of `line`: what the scan has collected when the line ends.
pub open spec fn tokenize(line: Seq<char>) -> Seq<Seq<char>> {
    Scan::start().run(line).flushed()
}

/// Whether `c` may stand in a word that needs no quoting.
pub open spec fn is_plain(c: char) -> bool {
    c != ' ' && c != '"'
}

/// Whether `word` survives an unquoted scan as one word: not empty, and
/// without a space or a double quote.
pub open spec fn is_plain_word(word: Seq<char>) -> bool {
    word.len() > 0 && forall|i: int| 0 <= i < word.len() ==> is_plain(#[trigger] word[i])
}

/// The words of `tokens` with one space between neighbours.
pub open spec fn join_with_spaces(tokens: Seq<Seq<char>>) -> Seq<char>
    decreases tokens.len(),
{
    if tokens.len() == 0 {
        Seq::empty()
    } else if tokens.len() == 1 {
        tokens[0]
    } else {
        join_with_spaces(tokens.drop_last()) + seq![' '] + tokens.last()
    }
}

/// Whether `c` is taken literally inside quotes only behind a backslash.
pub open spec fn needs_escape(c: char) -> bool {
    c == '"' || c == '\\'
}

/// `word` as it stands inside quotes: with a backslash before each double
/// quote and each backslash.
pub open spec fn escaped(word: Seq<char>) -> Seq<char>
    decreases word.len(),
{
    if word.len() == 0 {
        Seq::empty()
    } else if needs_escape(word.last()) {
        escaped(word.drop_last()).push('\\').push(word.last())
    } else {
        escaped(word.drop_last()).push(word.last())
    }
}

/// `word` written as one quoted word.
pub open spec fn written(word: Seq<char>) -> Seq<char> {
    seq!['"'] + escaped(word) + seq!['"']
}

/// The words of `tokens`, each written as a quoted word, with one space
/// between neighbours.
pub open spec fn join_written(tokens: Seq<Seq<char>>) -> Seq<char>
    decreases tokens.len(),
{
    if tokens.len() == 0 {
        Seq::empty()
    } else if tokens.len() == 1 {
        written(tokens[0])
    } else {
        join_written(tokens.drop_last()) + seq![' '] + written(tokens.last())
    }
}

/// Reading one more character is one step of the scan.
pub proof fn lemma_run_push(state: Scan, text: Seq<char>, c: char)
    ensures
        state.run(text.push(c)) == state.run(text).step(c),
{
    assert(text.push(c).drop_last() =~= text);
}

/// Reading two texts one after the other is reading their concatenation.
pub proof fn lemma_run_concat(state: Scan, first: Seq<char>, second: Seq<char>)
    ensures
        state.run(first + second) == state.run(first).run(second),
    decreases second.len(),
{
    if second.len() == 0 {
        assert(first + second =~= first);
    } else {
        lemma_run_concat(state, first, second.drop_last());
        assert((first + second).drop_last() =~= first + second.drop_last());
    }
}

/// Outside quotes a run of plain characters only grows the open word.
pub proof fn lemma_run_plain(state: Scan, word: Seq<char>)
    requires
        !state.quoted,
        forall|i: int| 0 <= i < word.len() ==> is_plain(#[trigger] word[i]),
    ensures
        state.run(word) == (Scan { current: state.current + word, ..state }),
    decreases word.len(),
{
    if word.len() == 0 {
        assert(state.current + word =~= state.current);
    } else {
        lemma_run_plain(state, word.drop_last());
        assert(is_plain(word[word.len() - 1]));
        assert((state.current + word.drop_last()).push(word.last()) =~= state.current + word);
    }
}

/// No word that a scan completes is empty.
pub proof fn lemma_run_keeps_tokens_nonempty(state: Scan, text: Seq<char>)
    requires
        forall|i: int| 0 <= i < state.tokens.len() ==> (#[trigger] state.tokens[i]).len() > 0,
    ensures
        forall|i: int|
            0 <= i < state.run(text).tokens.len() ==> (#[trigger] state.run(text).tokens[i]).len()
                > 0,
    decreases text.len(),
{
    if text.len() > 0 {
        lemma_run_keeps_tokens_nonempty(state, text.drop_last());
        let before = state.run(text.drop_last());
        let after = state.run(text);
        assert(after == before.step(text.last()));
        assert forall|i: int| 0 <= i < after.tokens.len() implies (#[trigger] after.tokens[i]).len()
            > 0 by {
            if i < before.tokens.len() {
                assert(after.tokens[i] == before.tokens[i]);
            } else {
                assert(after.tokens[i] == before.current);
            }
        }
    }
}

/// Empty segments leave no trace: every word of a line has at least one
/// character, whatever the line holds.
pub proof fn lemma_tokens_nonempty(line: Seq<char>)
    ensures
        forall|i: int| 0 <= i < tokenize(line).len() ==> (#[trigger] tokenize(line)[i]).len() > 0,
{
    lemma_run_keeps_tokens_nonempty(Scan::start(), line);
}

/// A scan that has collected a word, or part of one, keeps at least one word.
proof fn lemma_run_keeps_words(state: Scan, text: Seq<char>)
    requires
        state.flushed().len() > 0,
    ensures
        state.run(text).flushed().len() > 0,
    decreases text.len(),
{
    if text.len() > 0 {
        lemma_run_keeps_words(state, text.drop_last());
    }
}

/// A line that holds any character but a space, a double quote or a
/// backslash has at least one word.
pub proof fn lemma_text_makes_a_token(line: Seq<char>, at: int)
    requires
        0 <= at < line.len(),
        line[at] != ' ',
        line[at] != '"',
        line[at] != '\\',
    ensures
        tokenize(line).len() > 0,
{
    let head = line.take(at + 1);
    let tail = line.skip(at + 1);
    assert(head.drop_last() =~= line.take(at));
    assert(head.last() == line[at]);
    let reached = Scan::start().run(head);
    assert(reached.current.len() > 0);
    lemma_run_concat(Scan::start(), head, tail);
    assert(head + tail =~= line);
    lemma_run_keeps_words(reached, tail);
}

/// Where a scan of plain words joined by single spaces stands at the end: all
/// words but the last are complete, the last is still open.
proof fn lemma_scan_of_joined(tokens: Seq<Seq<char>>)
    requires
        tokens.len() > 0,
        forall|i: int| 0 <= i < tokens.len() ==> is_plain_word(#[trigger] tokens[i]),
    ensures
        Scan::start().run(join_with_spaces(tokens)) == (Scan {
            tokens: tokens.drop_last(),
            current: tokens.last(),
            quoted: false,
            escaping: false,
        }),
    decreases tokens.len(),
{
    let start = Scan::start();
    let last = tokens.last();
    assert(is_plain_word(tokens[tokens.len() - 1]));
    if tokens.len() == 1 {
        lemma_run_plain(start, last);
        assert(start.current + last =~= last);
        assert(tokens.drop_last() =~= Seq::<Seq<char>>::empty());
    } else {
        let init = tokens.drop_last();
        assert forall|i: int| 0 <= i < init.len() implies is_plain_word(#[trigger] init[i]) by {
            assert(init[i] == tokens[i]);
        }
        lemma_scan_of_joined(init);
        let joined = join_with_spaces(init);
        let at_space = start.run(joined).step(' ');
        lemma_run_push(start, joined, ' ');
        assert(joined.push(' ') =~= joined + seq![' ']);
        assert(init.drop_last().push(init.last()) =~= init);
        lemma_run_concat(start, joined + seq![' '], last);
        lemma_run_plain(at_space, last);
        assert(at_space.current + last =~= last);
    }
}

/// Joining and splitting cancel: words that hold no space and no double quote
/// and are not empty, joined by single spaces, split into the same words.
pub proof fn lemma_join_then_tokenize(tokens: Seq<Seq<char>>)
    requires
        forall|i: int| 0 <= i < tokens.len() ==> is_plain_word(#[trigger] tokens[i]),
    ensures
        tokenize(join_with_spaces(tokens)) == tokens,
{
    if tokens.len() == 0 {
        assert(tokenize(join_with_spaces(tokens)) =~= tokens);
    } else {
        lemma_scan_of_joined(tokens);
        assert(is_plain_word(tokens[tokens.len() - 1]));
        assert(tokens.drop_last().push(tokens.last()) =~= tokens);
    }
}

/// Inside quotes an escaped word only grows the open word, by the word as it
/// was before escaping.
pub proof fn lemma_run_escaped(state: Scan, word: Seq<char>)
    requires
        state.quoted,
        !state.escaping,
    ensures
        state.run(escaped(word)) == (Scan { current: state.current + word, ..state }),
    decreases word.len(),
{
    if word.len() == 0 {
        assert(state.current + word =~= state.current);
    } else {
        let init = word.drop_last();
        let c = word.last();
        lemma_run_escaped(state, init);
        assert((state.current + init).push(c) =~= state.current + word);
        if needs_escape(c) {
            lemma_run_push(state, escaped(init), '\\');
            lemma_run_push(state, escaped(init).push('\\'), c);
        } else {
            lemma_run_push(state, escaped(init), c);
        }
    }
}

/// Outside quotes a written word is read as that word: it joins the complete
/// words, behind the word that was open, and leaves no word open.
pub proof fn lemma_run_written(state: Scan, word: Seq<char>)
    requires
        !state.quoted,
        !state.escaping,
        word.len() > 0,
    ensures
        state.run(written(word)) == (Scan {
            tokens: state.flushed().push(word),
            current: Seq::empty(),
            quoted: false,
            escaping: false,
        }),
{
    let opened = state.step('"');
    let open_quote = seq!['"'];
    assert(state.run(open_quote) == opened) by {
        lemma_run_push(state, Seq::empty(), '"');
        assert(Seq::<char>::empty().push('"') =~= open_quote);
    }
    lemma_run_concat(state, open_quote, escaped(word));
    lemma_run_escaped(opened, word);
    assert(opened.current + word =~= word);
    lemma_run_push(state, open_quote + escaped(word), '"');
    assert((open_quote + escaped(word)).push('"') =~= written(word));
}

/// Where a scan of written words stands at the end: all words are complete
/// and none is open.
proof fn lemma_scan_of_written(tokens: Seq<Seq<char>>)
    requires
        forall|i: int| 0 <= i < tokens.len() ==> (#[trigger] tokens[i]).len() > 0,
    ensures
        Scan::start().run(join_written(tokens)) == (Scan {
            tokens,
            current: Seq::empty(),
            quoted: false,
            escaping: false,
        }),
    decreases tokens.len(),
{
    let start = Scan::start();
    if tokens.len() == 0 {
        assert(tokens =~= Seq::<Seq<char>>::empty());
    } else if tokens.len() == 1 {
        lemma_run_written(start, tokens[0]);
        assert(start.flushed().push(tokens[0]) =~= tokens);
    } else {
        let init = tokens.drop_last();
        let last = tokens.last();
        assert forall|i: int| 0 <= i < init.len() implies (#[trigger] init[i]).len() > 0 by {
            assert(init[i] == tokens[i]);
        }
        lemma_scan_of_written(init);
        let joined = join_written(init);
        lemma_run_push(start, joined, ' ');
        assert(joined.push(' ') =~= joined + seq![' ']);
        let at_space = start.run(joined + seq![' ']);
        lemma_run_concat(start, joined + seq![' '], written(last));
        lemma_run_written(at_space, last);
        assert(at_space.flushed().push(last) =~= tokens);
    }
}

/// Quoting loses nothing: words that are not empty, whatever characters they
/// hold, each written between quotes with its double quotes and backslashes
/// escaped, split into the same words.
pub proof fn lemma_write_then_tokenize(tokens: Seq<Seq<char>>)
    requires
        forall|i: int| 0 <= i < tokens.len() ==> (#[trigger] tokens[i]).len() > 0,
    ensures
        tokenize(join_written(tokens)) == tokens,
{
    lemma_scan_of_written(tokens);
}

/// Appends `word` to `args` unless it is empty.
fn flush_word(args: &mut Vec<String>, word: String)
    ensures
        final(args).deep_view() == (if word@.len() > 0 {
            old(args).deep_view().push(word@)
        } else {
            old(args).deep_view()
        }),
{
    if !word.as_str().is_empty() {
        args.push(word);
        assert(args.deep_view() =~= old(args).deep_view().push(word@));
    } else {
        assert(args.deep_view() =~= old(args).deep_view());
    }
}

/// Splits a command line into its words.
///
/// Spaces outside double quotes separate words. A double quote opens or
/// closes a quoted word; inside one, a backslash makes the next character
/// literal. Words without characters are dropped.
pub fn parse_quotes(s: &str) -> (args: Vec<String>)
    ensures
        args.deep_view() == tokenize(s@),
        forall|i: int| 0 <= i < args.len() ==> (#[trigger] args[i])@.len() > 0,
{
    let mut args: Vec<String> = Vec::new();
    let mut in_string = false;
    let mut escaping = false;
    let mut current_str = String::new();

    proof {
        assert(args.deep_view() =~= Seq::<Seq<char>>::empty());
    }
    for x in it: s.chars()
        invariant
            it.seq() == s@,
            Scan::start().run(s@.take(it.index() as int)) == (Scan {
                tokens: args.deep_view(),
                current: current_str@,
                quoted: in_string,
                escaping,
            }),
    {
        proof {
            let seen = s@.take(it.index() as int);
            assert(s@.take(it.index() + 1) =~= seen.push(x));
            lemma_run_push(Scan::start(), seen, x);
        }
        if in_string {
            if x == '\\' && !escaping {
                escaping = true;
            } else if x == '"' && !escaping {
                flush_word(&mut args, current_str);
                current_str = String::new();
                in_string = false;
            } else {
                current_str.push(x);
                escaping = false;
            }
        } else if x == ' ' {
            flush_word(&mut args, current_str);
            current_str = String::new();
        } else if x == '"' {
            flush_word(&mut args, current_str);
            in_string = true;
            current_str = String::new();
        } else {
            current_str.push(x);
        }
    }

    flush_word(&mut args, current_str);
    proof {
        assert(s@.take(s@.len() as int) =~= s@);
        lemma_tokens_nonempty(s@);
        assert forall|i: int| 0 <= i < args.len() implies (#[trigger] args[i])@.len() > 0 by {
            assert(tokenize(s@)[i] == args[i]@);
        }
    }
    args
}

} // verus!
