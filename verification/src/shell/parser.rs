//! The command-line parser: whitespace-separated arguments with single
//! and double quotes.

use crate::text::{from_chars, texts, to_chars};
use vstd::prelude::*;

verus! {

/// Unicode white space, as `str::trim` strips it.
pub open spec fn is_whitespace(c: char) -> bool {
    ||| c == ' '
    ||| '\t' <= c <= '\r'
    ||| c == '\u{85}'
    ||| c == '\u{A0}'
    ||| c == '\u{1680}'
    ||| '\u{2000}' <= c <= '\u{200A}'
    ||| c == '\u{2028}'
    ||| c == '\u{2029}'
    ||| c == '\u{202F}'
    ||| c == '\u{205F}'
    ||| c == '\u{3000}'
}

/// `s` without its leading white space.
pub open spec fn trim_start(s: Seq<char>) -> Seq<char>
    decreases s.len(),
{
    if s.len() > 0 && is_whitespace(s[0]) {
        trim_start(s.drop_first())
    } else {
        s
    }
}

/// `s` without its trailing white space.
pub open spec fn trim_end(s: Seq<char>) -> Seq<char>
    decreases s.len(),
{
    if s.len() > 0 && is_whitespace(s.last()) {
        trim_end(s.drop_last())
    } else {
        s
    }
}

/// `s` without leading and trailing white space.
pub open spec fn trim(s: Seq<char>) -> Seq<char> {
    trim_end(trim_start(s))
}

/// State of the parser between two characters.
pub struct Lexer {
    /// Arguments completed so far.
    pub args: Seq<Seq<char>>,
    /// The argument being read.
    pub current: Seq<char>,
    /// Inside quotes: the character that opened them and closes them.
    pub quote: Option<char>,
}

/// A quote character.
pub open spec fn is_quote(c: char) -> bool {
    c == '"' || c == '\''
}

/// A separator between arguments.
pub open spec fn is_blank(c: char) -> bool {
    c == ' ' || c == '\t'
}

impl Lexer {
    /// The parser before the first character.
    pub open spec fn start() -> Lexer {
        Lexer { args: Seq::empty(), current: Seq::empty(), quote: None }
    }

    /// The parser after one more character. Quotes are dropped and
    /// switch quoting on and off; outside quotes a blank ends the current
    /// argument, if any; every other character joins the current
    /// argument.
    pub open spec fn feed(self, c: char) -> Lexer {
        match self.quote {
            Some(q) => if c == q {
                Lexer { quote: None, ..self }
            } else {
                Lexer { current: self.current.push(c), ..self }
            },
            None => if is_quote(c) {
                Lexer { quote: Some(c), ..self }
            } else if is_blank(c) {
                if self.current.len() > 0 {
                    Lexer { args: self.args.push(self.current), current: Seq::empty(), ..self }
                } else {
                    self
                }
            } else {
                Lexer { current: self.current.push(c), ..self }
            },
        }
    }

    /// The parser after the characters of `s`.
    pub open spec fn run(s: Seq<char>) -> Lexer
        decreases s.len(),
    {
        if s.len() == 0 {
            Lexer::start()
        } else {
            Lexer::run(s.drop_last()).feed(s.last())
        }
    }

    /// The arguments at the end of the line: an unfinished argument
    /// counts, also inside quotes that were never closed.
    pub open spec fn finish(self) -> Seq<Seq<char>> {
        if self.current.len() > 0 {
            self.args.push(self.current)
        } else {
            self.args
        }
    }
}

/// The arguments of the command line `s`.
pub open spec fn parse(s: Seq<char>) -> Seq<Seq<char>> {
    Lexer::run(s).finish()
}

/// A line of blanks has no arguments.
pub proof fn lemma_blank_line(s: Seq<char>)
    requires
        forall|i: int| 0 <= i < s.len() ==> is_blank(#[trigger] s[i]),
    ensures
        Lexer::run(s) == Lexer::start(),
        parse(s).len() == 0,
    decreases s.len(),
{
    if s.len() > 0 {
        let head = s.drop_last();
        assert forall|i: int| 0 <= i < head.len() implies is_blank(#[trigger] head[i]) by {
            assert(head[i] == s[i]);
        }
        lemma_blank_line(head);
        assert(is_blank(s[s.len() - 1]));
    }
}

/// Whether `c` is Unicode white space.
pub fn is_space(c: char) -> (r: bool)
    ensures
        r == is_whitespace(c),
{
    c == ' ' || ('\t' <= c && c <= '\r') || c == '\u{85}' || c == '\u{A0}' || c == '\u{1680}' || (
    '\u{2000}' <= c && c <= '\u{200A}') || c == '\u{2028}' || c == '\u{2029}' || c == '\u{202F}'
        || c == '\u{205F}' || c == '\u{3000}'
}

proof fn lemma_trim_start_skip(s: Seq<char>, n: int)
    requires
        0 <= n <= s.len(),
        forall|i: int| 0 <= i < n ==> is_whitespace(s[i]),
    ensures
        trim_start(s) == trim_start(s.skip(n)),
    decreases n,
{
    if n == 0 {
        assert(s.skip(0) =~= s);
    } else {
        assert(s.drop_first().skip(n - 1) =~= s.skip(n));
        lemma_trim_start_skip(s.drop_first(), n - 1);
    }
}

proof fn lemma_trim_end_take(s: Seq<char>, n: int)
    requires
        0 <= n <= s.len(),
        forall|i: int| n <= i < s.len() ==> is_whitespace(s[i]),
    ensures
        trim_end(s) == trim_end(s.take(n)),
    decreases s.len() - n,
{
    if n == s.len() {
        assert(s.take(n) =~= s);
    } else {
        assert(s.drop_last().take(n) =~= s.take(n));
        lemma_trim_end_take(s.drop_last(), n);
    }
}

/// The characters of `line` without leading and trailing white space.
pub fn trimmed(line: &str) -> (out: Vec<char>)
    ensures
        out@ == trim(line@),
{
    let chars = to_chars(line);
    let mut from: usize = 0;
    while from < chars.len() && is_space(chars[from])
        invariant
            from <= chars.len(),
            forall|i: int| 0 <= i < from ==> is_whitespace(chars@[i]),
        decreases chars.len() - from,
    {
        from += 1;
    }
    let mut to: usize = chars.len();
    while to > from && is_space(chars[to - 1])
        invariant
            from <= to <= chars.len(),
            forall|i: int| to <= i < chars.len() ==> is_whitespace(chars@[i]),
        decreases to,
    {
        to -= 1;
    }
    let mut out: Vec<char> = Vec::new();
    let mut i: usize = from;
    while i < to
        invariant
            from <= i <= to <= chars.len(),
            out@ == chars@.subrange(from as int, i as int),
        decreases to - i,
    {
        out.push(chars[i]);
        proof {
            assert(chars@.subrange(from as int, i + 1) =~= chars@.subrange(from as int, i as int).push(
                chars@[i as int],
            ));
        }
        i += 1;
    }
    proof {
        let rest = chars@.skip(from as int);
        lemma_trim_start_skip(chars@, from as int);
        assert(trim_start(rest) == rest) by {
            if rest.len() > 0 {
                assert(rest[0] == chars@[from as int]);
            }
        }
        lemma_trim_end_take(rest, to - from);
        assert(rest.take(to - from) =~= chars@.subrange(from as int, to as int));
        assert(trim_end(out@) == out@) by {
            if out@.len() > 0 {
                assert(out@.last() == chars@[to - 1]);
            }
        }
    }
    out
}

/// The arguments of the characters `line`.
pub fn parse_chars(line: &Vec<char>) -> (args: Vec<String>)
    ensures
        texts(args@) == parse(line@),
{
    let mut args: Vec<String> = Vec::new();
    let mut current: Vec<char> = Vec::new();
    let mut in_quotes = false;
    let mut quote_char = ' ';
    let mut i: usize = 0;
    proof {
        assert(line@.take(0) =~= Seq::<char>::empty());
        assert(texts(args@) =~= Lexer::start().args);
    }
    while i < line.len()
        invariant
            i <= line.len(),
            texts(args@) == Lexer::run(line@.take(i as int)).args,
            current@ == Lexer::run(line@.take(i as int)).current,
            in_quotes == (Lexer::run(line@.take(i as int)).quote is Some),
            in_quotes ==> Lexer::run(line@.take(i as int)).quote == Some(quote_char),
        decreases line.len() - i,
    {
        let c = line[i];
        let ghost before = Lexer::run(line@.take(i as int));
        proof {
            assert(line@.take(i + 1).drop_last() =~= line@.take(i as int));
            assert(Lexer::run(line@.take(i + 1)) == before.feed(c));
        }
        if in_quotes {
            if c == quote_char {
                in_quotes = false;
            } else {
                current.push(c);
            }
        } else if c == '"' || c == '\'' {
            in_quotes = true;
            quote_char = c;
        } else if c == ' ' || c == '\t' {
            if current.len() > 0 {
                let ghost old_args = args@;
                let word = from_chars(&current, 0, current.len());
                proof {
                    assert(current@.subrange(0, current@.len() as int) =~= current@);
                }
                args.push(word);
                current = Vec::new();
                proof {
                    assert(texts(args@) =~= texts(old_args).push(word@));
                }
            }
        } else {
            current.push(c);
        }
        i += 1;
    }
    proof {
        assert(line@.take(line@.len() as int) =~= line@);
    }
    if current.len() > 0 {
        let ghost old_args = args@;
        let word = from_chars(&current, 0, current.len());
        proof {
            assert(current@.subrange(0, current@.len() as int) =~= current@);
        }
        args.push(word);
        proof {
            assert(texts(args@) =~= texts(old_args).push(word@));
        }
    }
    args
}

/// Splits a command line into arguments at blanks (space and tab).
/// Blanks between a pair of matching quotes belong to the argument, the
/// quotes themselves do not; quotes left open run to the end of the line.
pub fn parse_args(cmd_line: &str) -> (args: Vec<String>)
    ensures
        texts(args@) == parse(cmd_line@),
{
    let chars = to_chars(cmd_line);
    parse_chars(&chars)
}

} // verus!
