//! Child process manager: what the library decides about the user's web application
//! process (the spawning and signalling themselves are done by the caller).
use vstd::prelude::*;
use crate::text::{char_is_whitespace, chars_of, is_white_space, string_from, string_of, words};

verus! {

/// Why a startup command cannot be run: it holds no word.
pub const EMPTY_COMMAND_MESSAGE: &'static str = "empty startup command";

/// Why a startup command cannot be run: a quote is left open or the command ends in a
/// backslash.
pub const UNTERMINATED_COMMAND_MESSAGE: &'static str = "unterminated quote or escape in startup command";

/// Seconds a web application gets to exit after the termination signal before it is
/// killed.
pub const SHUTDOWN_GRACE_SECONDS: u64 = 5;

/// A program to run with its arguments.
#[derive(Debug)]
pub struct CommandLine {
    pub program: String,
    pub args: Vec<String>,
}

/// The texts of a list of strings.
pub open spec fn strings_view(v: Seq<String>) -> Seq<Seq<char>> {
    v.map_values(|s: String| s@)
}

/// Which quotes the command reader is inside.
#[derive(Debug, Clone, Copy, PartialEq, Eq, Structural)]
pub enum QuoteMode {
    Plain,
    Single,
    Double,
}

/// Where a shell-style reading of a command stands: the words finished so far, the
/// word being read, whether a word has begun (a quoted empty word counts), the quotes
/// it is inside, and whether the previous character was an escaping backslash.
#[verifier::ext_equal]
pub struct ShellScan {
    pub words: Seq<Seq<char>>,
    pub current: Seq<char>,
    pub in_word: bool,
    pub quote: QuoteMode,
    pub escaped: bool,
}

/// Nothing read yet.
pub open spec fn shell_start() -> ShellScan {
    ShellScan {
        words: Seq::empty(),
        current: Seq::empty(),
        in_word: false,
        quote: QuoteMode::Plain,
        escaped: false,
    }
}

/// A character that a backslash escapes inside double quotes.
pub open spec fn escapable_in_double_quotes(c: char) -> bool {
    c == '"' || c == '\\' || c == '$' || c == '`'
}

/// Reading one more character, as a POSIX shell splits words: white space outside
/// quotes ends a word; single quotes keep everything up to the next single quote;
/// double quotes keep everything up to the next double quote, where a backslash escapes
/// only `"`, `\`, `$` and `` ` ``; outside quotes a backslash takes the next character
/// as it is.
pub open spec fn shell_step(st: ShellScan, c: char) -> ShellScan {
    if st.escaped {
        if st.quote == QuoteMode::Double {
            if escapable_in_double_quotes(c) {
                ShellScan { current: st.current.push(c), escaped: false, ..st }
            } else {
                ShellScan { current: st.current.push('\\').push(c), escaped: false, ..st }
            }
        } else {
            ShellScan { current: st.current.push(c), escaped: false, in_word: true, ..st }
        }
    } else if st.quote == QuoteMode::Single {
        if c == '\'' {
            ShellScan { quote: QuoteMode::Plain, ..st }
        } else {
            ShellScan { current: st.current.push(c), ..st }
        }
    } else if st.quote == QuoteMode::Double {
        if c == '"' {
            ShellScan { quote: QuoteMode::Plain, ..st }
        } else if c == '\\' {
            ShellScan { escaped: true, ..st }
        } else {
            ShellScan { current: st.current.push(c), ..st }
        }
    } else if c == '\\' {
        ShellScan { escaped: true, in_word: true, ..st }
    } else if c == '\'' {
        ShellScan { quote: QuoteMode::Single, in_word: true, ..st }
    } else if c == '"' {
        ShellScan { quote: QuoteMode::Double, in_word: true, ..st }
    } else if is_white_space(c) {
        if st.in_word {
            ShellScan { words: st.words.push(st.current), current: Seq::empty(), in_word: false, ..st }
        } else {
            st
        }
    } else {
        ShellScan { current: st.current.push(c), in_word: true, ..st }
    }
}

/// The reading after all of `s`.
pub open spec fn shell_run(s: Seq<char>) -> ShellScan
    decreases s.len(),
{
    if s.len() == 0 {
        shell_start()
    } else {
        shell_step(shell_run(s.drop_last()), s.last())
    }
}

/// The words of a command as a shell splits them, or `None` when a quote is left open
/// or the command ends in a backslash.
pub open spec fn shell_words(s: Seq<char>) -> Option<Seq<Seq<char>>> {
    let st = shell_run(s);
    if st.quote != QuoteMode::Plain || st.escaped {
        None
    } else if st.in_word {
        Some(st.words.push(st.current))
    } else {
        Some(st.words)
    }
}

/// The reading that the reader's variables stand for.
pub open spec fn scan_of(
    words: Seq<Vec<char>>,
    current: Seq<char>,
    in_word: bool,
    quote: QuoteMode,
    escaped: bool,
) -> ShellScan {
    ShellScan { words: words.map_values(|w: Vec<char>| w@), current, in_word, quote, escaped }
}

/// Split a command into words as a shell does.
fn shell_split(command: &str) -> (r: Option<Vec<Vec<char>>>)
    ensures
        match r {
            Some(ws) => shell_words(command@) == Some(ws@.map_values(|w: Vec<char>| w@)),
            None => shell_words(command@) is None,
        },
{
    let cs = chars_of(command);
    let mut words: Vec<Vec<char>> = Vec::new();
    let mut current: Vec<char> = Vec::new();
    let mut in_word = false;
    let mut quote = QuoteMode::Plain;
    let mut escaped = false;
    let mut i: usize = 0;
    assert(cs@.take(0) =~= Seq::<char>::empty());
    assert(scan_of(words@, current@, in_word, quote, escaped) =~= shell_start());
    while i < cs.len()
        invariant
            0 <= i <= cs.len(),
            cs@ == command@,
            scan_of(words@, current@, in_word, quote, escaped) == shell_run(cs@.take(i as int)),
        decreases cs.len() - i,
    {
        let c = cs[i];
        let ghost before = scan_of(words@, current@, in_word, quote, escaped);
        assert(cs@.take(i + 1).drop_last() =~= cs@.take(i as int));
        assert(cs@.take(i + 1).last() == c);
        if escaped {
            if quote == QuoteMode::Double {
                if c == '"' || c == '\\' || c == '$' || c == '`' {
                    current.push(c);
                } else {
                    current.push('\\');
                    current.push(c);
                }
            } else {
                current.push(c);
                in_word = true;
            }
            escaped = false;
        } else if quote == QuoteMode::Single {
            if c == '\'' {
                quote = QuoteMode::Plain;
            } else {
                current.push(c);
            }
        } else if quote == QuoteMode::Double {
            if c == '"' {
                quote = QuoteMode::Plain;
            } else if c == '\\' {
                escaped = true;
            } else {
                current.push(c);
            }
        } else if c == '\\' {
            escaped = true;
            in_word = true;
        } else if c == '\'' {
            quote = QuoteMode::Single;
            in_word = true;
        } else if c == '"' {
            quote = QuoteMode::Double;
            in_word = true;
        } else if char_is_whitespace(c) {
            if in_word {
                let word = current;
                current = Vec::new();
                words.push(word);
                in_word = false;
                assert(words@.map_values(|w: Vec<char>| w@) =~= before.words.push(word@));
            }
        } else {
            current.push(c);
            in_word = true;
        }
        assert(scan_of(words@, current@, in_word, quote, escaped) =~= shell_step(before, c));
        i += 1;
    }
    assert(cs@.take(cs.len() as int) =~= cs@);
    if quote != QuoteMode::Plain || escaped {
        return None;
    }
    if in_word {
        let ghost before = words@.map_values(|w: Vec<char>| w@);
        let ghost last = current@;
        words.push(current);
        assert(words@.map_values(|w: Vec<char>| w@) =~= before.push(last));
    }
    Some(words)
}

/// Split a startup command into the program and its arguments as a shell splits words
/// (white space separates them; quotes and backslashes keep characters together); a
/// command with no word, or with an open quote or a trailing backslash, is refused.
pub fn split_command(command: &str) -> (r: Result<CommandLine, String>)
    ensures
        match shell_words(command@) {
            None => r matches Err(e) && e@ == UNTERMINATED_COMMAND_MESSAGE@,
            Some(ws) => if ws.len() == 0 {
                r matches Err(e) && e@ == EMPTY_COMMAND_MESSAGE@
            } else {
                r matches Ok(c) && c.program@ == ws[0] && strings_view(c.args@) == ws.drop_first()
            },
        },
{
    let parts = match shell_split(command) {
        Some(p) => p,
        None => return Err(string_from(UNTERMINATED_COMMAND_MESSAGE)),
    };
    let ghost ws = parts@.map_values(|w: Vec<char>| w@);
    if parts.len() == 0 {
        return Err(string_from(EMPTY_COMMAND_MESSAGE));
    }
    let program = string_of(&parts[0]);
    let mut args: Vec<String> = Vec::new();
    let mut i: usize = 1;
    while i < parts.len()
        invariant
            1 <= i <= parts.len(),
            ws == parts@.map_values(|w: Vec<char>| w@),
            strings_view(args@) == ws.subrange(1, i as int),
        decreases parts.len() - i,
    {
        assert(ws[i as int] == parts@[i as int]@);
        let ghost before = strings_view(args@);
        let word = string_of(&parts[i]);
        args.push(word);
        assert(strings_view(args@) =~= before.push(word@));
        assert(ws.subrange(1, i + 1) =~= ws.subrange(1, i as int).push(ws[i as int]));
        i += 1;
        assert(strings_view(args@) =~= ws.subrange(1, i as int));
    }
    assert(ws.subrange(1, parts.len() as int) =~= ws.drop_first());
    Ok(CommandLine { program, args })
}

/// Without quote or backslash characters, the reading stays outside quotes and the
/// words read so far are the white-space-separated runs.
proof fn lemma_shell_run_plain(s: Seq<char>)
    requires
        forall|i: int| 0 <= i < s.len() ==> #[trigger] s[i] != '\'' && s[i] != '"' && s[i] != '\\',
    ensures
        shell_run(s).quote == QuoteMode::Plain,
        !shell_run(s).escaped,
        shell_run(s).in_word == (s.len() > 0 && !is_white_space(s.last())),
        !shell_run(s).in_word ==> shell_run(s).current.len() == 0,
        words(s) == (if shell_run(s).in_word {
            shell_run(s).words.push(shell_run(s).current)
        } else {
            shell_run(s).words
        }),
    decreases s.len(),
{
    if s.len() > 0 {
        let prev = s.drop_last();
        assert forall|i: int| 0 <= i < prev.len() implies #[trigger] prev[i] != '\'' && prev[i] != '"'
            && prev[i] != '\\' by {
            assert(prev[i] == s[i]);
        }
        lemma_shell_run_plain(prev);
        let st = shell_run(prev);
        let c = s.last();
        assert(c == s[s.len() - 1]);
        if s.len() > 1 {
            assert(s[s.len() - 2] == prev.last());
        }
        if !is_white_space(c) && st.in_word {
            let before = st.words.push(st.current);
            assert(before.update(before.len() - 1, before.last().push(c)) =~= st.words.push(
                st.current.push(c),
            ));
        }
        if !is_white_space(c) && !st.in_word {
            assert(st.current.push(c) =~= seq![c]);
        }
    }
}

/// A command with no quote or backslash characters is split exactly at white space:
/// its words are the runs of other characters, in order (as `str::split_whitespace`
/// gives them).
pub proof fn law_unquoted_command_splits_at_white_space(s: Seq<char>)
    requires
        forall|i: int| 0 <= i < s.len() ==> #[trigger] s[i] != '\'' && s[i] != '"' && s[i] != '\\',
    ensures
        shell_words(s) == Some(words(s)),
{
    lemma_shell_run_plain(s);
}

/// A single-quoted text is one word holding exactly the text between the quotes.
pub proof fn law_single_quotes_keep_text(t: Seq<char>)
    requires
        forall|i: int| 0 <= i < t.len() ==> #[trigger] t[i] != '\'',
    ensures
        shell_words(seq!['\''] + t + seq!['\'']) == Some(seq![t]),
{
    let s = seq!['\''] + t + seq!['\''];
    let n = t.len() as int;
    lemma_single_quoted_prefix(t, n + 1);
    assert(s.take(n + 2) =~= s);
    assert(s.take(n + 2).drop_last() =~= s.take(n + 1));
    assert(s.last() == '\'');
    assert(t.take(n) =~= t);
    assert(Seq::<Seq<char>>::empty().push(t) =~= seq![t]);
}

/// Reading the opening quote and the first characters of a single-quoted text.
proof fn lemma_single_quoted_prefix(t: Seq<char>, k: int)
    requires
        forall|i: int| 0 <= i < t.len() ==> #[trigger] t[i] != '\'',
        1 <= k <= t.len() + 1,
    ensures
        ({
            let st = shell_run((seq!['\''] + t + seq!['\'']).take(k));
            st.quote == QuoteMode::Single && !st.escaped && st.in_word && st.words.len() == 0
                && st.current == t.take(k - 1)
        }),
    decreases k,
{
    let s = seq!['\''] + t + seq!['\''];
    if k == 1 {
        assert(s.take(1).drop_last() =~= Seq::<char>::empty());
        assert(s.take(1).last() == '\'');
        assert(t.take(0) =~= Seq::<char>::empty());
        assert(shell_run(Seq::<char>::empty()) == shell_start());
        assert(shell_run(s.take(1)) == shell_step(shell_start(), '\''));
    } else {
        lemma_single_quoted_prefix(t, k - 1);
        assert(s.take(k).drop_last() =~= s.take(k - 1));
        assert(s[k - 1] == t[k - 2]);
        assert(s.take(k).last() == t[k - 2]);
        let c = t[k - 2];
        assert(c != '\'');
        assert(shell_run(s.take(k)) == shell_step(shell_run(s.take(k - 1)), c));
        assert(t.take(k - 1) =~= t.take(k - 2).push(t[k - 2]));
    }
}

/// A double-quoted text without backslashes is one word holding exactly the text between
/// the quotes.
pub proof fn law_double_quotes_keep_text(t: Seq<char>)
    requires
        forall|i: int| 0 <= i < t.len() ==> #[trigger] t[i] != '"' && t[i] != '\\',
    ensures
        shell_words(seq!['"'] + t + seq!['"']) == Some(seq![t]),
{
    let s = seq!['"'] + t + seq!['"'];
    let n = t.len() as int;
    lemma_double_quoted_prefix(t, n + 1);
    assert(s.take(n + 2) =~= s);
    assert(s.take(n + 2).drop_last() =~= s.take(n + 1));
    assert(s.last() == '"');
    assert(t.take(n) =~= t);
    assert(Seq::<Seq<char>>::empty().push(t) =~= seq![t]);
}

/// Reading the opening quote and the first characters of a double-quoted text.
proof fn lemma_double_quoted_prefix(t: Seq<char>, k: int)
    requires
        forall|i: int| 0 <= i < t.len() ==> #[trigger] t[i] != '"' && t[i] != '\\',
        1 <= k <= t.len() + 1,
    ensures
        ({
            let st = shell_run((seq!['"'] + t + seq!['"']).take(k));
            st.quote == QuoteMode::Double && !st.escaped && st.in_word && st.words.len() == 0
                && st.current == t.take(k - 1)
        }),
    decreases k,
{
    let s = seq!['"'] + t + seq!['"'];
    if k == 1 {
        assert(s.take(1).drop_last() =~= Seq::<char>::empty());
        assert(s.take(1).last() == '"');
        assert(t.take(0) =~= Seq::<char>::empty());
        assert(shell_run(Seq::<char>::empty()) == shell_start());
        assert(shell_run(s.take(1)) == shell_step(shell_start(), '"'));
    } else {
        lemma_double_quoted_prefix(t, k - 1);
        assert(s.take(k).drop_last() =~= s.take(k - 1));
        assert(s[k - 1] == t[k - 2]);
        assert(s.take(k).last() == t[k - 2]);
        let c = t[k - 2];
        assert(c != '"' && c != '\\');
        assert(shell_run(s.take(k)) == shell_step(shell_run(s.take(k - 1)), c));
        assert(t.take(k - 1) =~= t.take(k - 2).push(t[k - 2]));
    }
}

} // verus!
