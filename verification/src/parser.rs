//! Splitting an input line into words and classifying the words as a command.

use vstd::prelude::*;
use crate::text::{is_whitespace_char, words, lemma_words_push, join_spaced, join_from, copy_from, is_word};

verus! {

/// One input line, classified.
#[derive(Debug, PartialEq, Eq)]
pub enum CommandKind {
    /// Leave the shell.
    Exit,
    /// Print `display_string`.
    Echo { display_string: String },
    /// Say what kind of command `command_name` is.
    Type { command_name: String },
    /// Print the working directory.
    Pwd,
    /// Change the working directory to `directory`.
    Cd { directory: String },
    /// Run `program` with `args`; `args` does not hold the program's name.
    External { program: String, args: Vec<String> },
    /// The line held no word.
    NotFound,
}

/// What a [`CommandKind`] stands for, over sequences of characters.
pub enum Command {
    Exit,
    Echo { text: Seq<char> },
    Type { name: Seq<char> },
    Pwd,
    Cd { target: Seq<char> },
    External { program: Seq<char>, args: Seq<Seq<char>> },
    NotFound,
}

impl View for CommandKind {
    type V = Command;

    open spec fn view(&self) -> Command {
        match self {
            CommandKind::Exit => Command::Exit,
            CommandKind::Echo { display_string } => Command::Echo { text: display_string@ },
            CommandKind::Type { command_name } => Command::Type { name: command_name@ },
            CommandKind::Pwd => Command::Pwd,
            CommandKind::Cd { directory } => Command::Cd { target: directory@ },
            CommandKind::External { program, args } => Command::External {
                program: program@,
                args: words(args@),
            },
            CommandKind::NotFound => Command::NotFound,
        }
    }
}

/// The state of the splitter after some prefix of a line.
pub struct Lexer {
    /// The words completed so far, in order.
    pub done: Seq<Seq<char>>,
    /// The characters of the word being built.
    pub word: Seq<char>,
    /// The quote character that opened the literal span the splitter is in,
    /// if it is in one.
    pub quote: Option<char>,
}

/// The two characters that open and close a literal span.
pub open spec fn is_quote(c: char) -> bool {
    c == '\'' || c == '"'
}

/// The state before any character has been read.
pub open spec fn lex_start() -> Lexer {
    Lexer { done: Seq::empty(), word: Seq::empty(), quote: None }
}

/// What holds of every state that the splitter reaches: no completed word is
/// empty, and a literal span was opened by one of the two quotes.
pub open spec fn well_formed(s: Lexer) -> bool {
    &&& forall|i: int| 0 <= i < s.done.len() ==> (#[trigger] s.done[i]).len() > 0
    &&& s.quote matches Some(q) ==> is_quote(q)
}

/// The effect of one character on the splitter; `white` says whether the
/// character is white space.
///
/// Inside a literal span only the character that opened it is special: it
/// closes the span. Every other character, white space and the other quote
/// included, is copied. Outside a span a quote opens one, white space ends the
/// word being built if it holds anything, and every other character is copied.
/// Opening or closing a span never ends a word.
pub open spec fn lex_step(s: Lexer, c: char, white: bool) -> Lexer {
    match s.quote {
        Some(q) => if c == q {
            Lexer { quote: None, ..s }
        } else {
            Lexer { word: s.word.push(c), ..s }
        },
        None => if is_quote(c) {
            Lexer { quote: Some(c), ..s }
        } else if white {
            if s.word.len() > 0 {
                Lexer { done: s.done.push(s.word), word: Seq::empty(), quote: None }
            } else {
                s
            }
        } else {
            Lexer { word: s.word.push(c), ..s }
        },
    }
}

/// The state that the splitter reaches from `s` by reading `rest`.
pub open spec fn lex_from(s: Lexer, rest: Seq<char>) -> Lexer
    decreases rest.len(),
{
    if rest.len() == 0 {
        s
    } else {
        lex_step(lex_from(s, rest.drop_last()), rest.last(), is_whitespace_char(rest.last()))
    }
}

/// The state of the splitter after all of `line`.
pub open spec fn lex(line: Seq<char>) -> Lexer {
    lex_from(lex_start(), line)
}

/// What is emitted at the end of the line: the completed words, and after
/// them the word being built if it holds anything or if a literal span was
/// left open.
pub open spec fn lex_finish(s: Lexer) -> Seq<Seq<char>> {
    if s.word.len() > 0 || s.quote is Some {
        s.done.push(s.word)
    } else {
        s.done
    }
}

/// The words of a line.
pub open spec fn tokens_of(line: Seq<char>) -> Seq<Seq<char>> {
    lex_finish(lex(line))
}

/// A splitter at work: the words completed so far, the word being built,
/// and the quote that opened the literal span it is in, if any.
pub struct Splitter {
    /// The words completed so far, in order.
    pub args: Vec<String>,
    /// The word being built.
    pub word: String,
    /// The quote that opened the literal span being read, if any.
    pub quote: Option<char>,
}

impl View for Splitter {
    type V = Lexer;

    open spec fn view(&self) -> Lexer {
        Lexer { done: words(self.args@), word: self.word@, quote: self.quote }
    }
}

impl Splitter {
    /// A splitter that has read nothing.
    pub fn new() -> (s: Splitter)
        ensures
            s@ == lex_start(),
            well_formed(s@),
    {
        let s = Splitter { args: Vec::new(), word: String::new(), quote: None };
        assert(words(s.args@) =~= Seq::<Seq<char>>::empty());
        s
    }

    /// Reads one character; `white` says whether it is white space.
    pub fn feed(self, c: char, white: bool) -> (next: Splitter)
        ensures
            next@ == lex_step(self@, c, white),
            well_formed(self@) ==> well_formed(next@),
    {
        proof {
            if well_formed(self@) {
                lemma_step_keeps_well_formed(self@, c, white);
            }
        }
        let Splitter { mut args, mut word, mut quote } = self;
        match quote {
            Some(q) => {
                if c == q {
                    quote = None;
                } else {
                    word.push(c);
                }
            },
            None => {
                if c == '\'' || c == '"' {
                    quote = Some(c);
                } else if white {
                    if !word.as_str().is_empty() {
                        proof {
                            lemma_words_push(args@, word);
                        }
                        args.push(word);
                        word = String::new();
                    }
                } else {
                    word.push(c);
                }
            },
        }
        Splitter { args, word, quote }
    }

    /// Ends the line and gives its words.
    pub fn finish(self) -> (args: Vec<String>)
        ensures
            words(args@) == lex_finish(self@),
    {
        let Splitter { mut args, word, quote } = self;
        if !word.as_str().is_empty() || quote.is_some() {
            proof {
                lemma_words_push(args@, word);
            }
            args.push(word);
        }
        args
    }
}

/// Splits a line into its words.
pub fn split_args(line: &str) -> (args: Vec<String>)
    ensures
        words(args@) == tokens_of(line@),
{
    let mut splitter = Splitter::new();
    assert(line@.take(0) =~= Seq::<char>::empty());
    for c in it: line.chars()
        invariant
            it.seq() == line@,
            splitter@ == lex(line@.take(it.index())),
    {
        proof {
            assert(line@.take(it.index() + 1).drop_last() =~= line@.take(it.index()));
            assert(line@.take(it.index() + 1).last() == c);
        }
        let white = c.is_whitespace();
        splitter = splitter.feed(c, white);
    }
    assert(line@.take(line@.len() as int) =~= line@);
    splitter.finish()
}

/// Whether no character of `text` is `c`.
pub open spec fn free_of(text: Seq<char>, c: char) -> bool {
    forall|i: int| 0 <= i < text.len() ==> text[i] != c
}

/// Whether `text` holds neither white space nor a quote.
pub open spec fn is_plain(text: Seq<char>) -> bool {
    forall|i: int|
        0 <= i < text.len() ==> !is_quote(#[trigger] text[i]) && !is_whitespace_char(text[i])
}

/// Whether `text` holds white space only.
pub open spec fn is_blank(text: Seq<char>) -> bool {
    forall|i: int|
        0 <= i < text.len() ==> !is_quote(#[trigger] text[i]) && is_whitespace_char(text[i])
}

/// A step from a well-formed state leads to a well-formed state.
pub proof fn lemma_step_keeps_well_formed(s: Lexer, c: char, white: bool)
    requires
        well_formed(s),
    ensures
        well_formed(lex_step(s, c, white)),
{
}

/// Reading one character is one step.
pub proof fn lemma_lex_one(s: Lexer, c: char)
    ensures
        lex_from(s, seq![c]) == lex_step(s, c, is_whitespace_char(c)),
{
    assert(seq![c].drop_last() =~= Seq::<char>::empty());
    assert(lex_from(s, seq![c].drop_last()) == s);
}

/// Reading two texts one after the other is reading the second from where
/// the first ended.
pub proof fn lemma_lex_concat(s: Lexer, a: Seq<char>, b: Seq<char>)
    ensures
        lex_from(s, a + b) == lex_from(lex_from(s, a), b),
    decreases b.len(),
{
    if b.len() == 0 {
        assert(a + b =~= a);
    } else {
        assert((a + b).drop_last() =~= a + b.drop_last());
        lemma_lex_concat(s, a, b.drop_last());
    }
}

/// Inside a literal span every character but the one that opened it is
/// copied to the word being built, white space and the other quote included,
/// and nothing else changes.
pub proof fn lemma_span_is_copied(s: Lexer, q: char, body: Seq<char>)
    requires
        s.quote == Some(q),
        free_of(body, q),
    ensures
        lex_from(s, body) == (Lexer { word: s.word + body, ..s }),
    decreases body.len(),
{
    if body.len() == 0 {
        assert(s.word + body =~= s.word);
    } else {
        lemma_span_is_copied(s, q, body.drop_last());
        assert(s.word + body =~= (s.word + body.drop_last()).push(body.last()));
    }
}

/// Outside a literal span, characters that are neither white space nor
/// quotes are copied to the word being built, and nothing else changes.
pub proof fn lemma_plain_is_copied(s: Lexer, run: Seq<char>)
    requires
        s.quote is None,
        is_plain(run),
    ensures
        lex_from(s, run) == (Lexer { word: s.word + run, ..s }),
    decreases run.len(),
{
    if run.len() == 0 {
        assert(s.word + run =~= s.word);
    } else {
        lemma_plain_is_copied(s, run.drop_last());
        assert(!is_quote(run[run.len() - 1]));
        assert(s.word + run =~= (s.word + run.drop_last()).push(run.last()));
    }
}

/// Outside a literal span, a run of white space ends the word being built,
/// once: a word that holds something is completed, and no empty word is
/// made, however long the run.
pub proof fn lemma_blank_ends_word(s: Lexer, run: Seq<char>)
    requires
        s.quote is None,
        is_blank(run),
    ensures
        lex_from(s, run) == if run.len() > 0 && s.word.len() > 0 {
            Lexer { done: s.done.push(s.word), word: Seq::empty(), quote: None }
        } else {
            s
        },
    decreases run.len(),
{
    if run.len() > 0 {
        lemma_blank_ends_word(s, run.drop_last());
        assert(!is_quote(run[run.len() - 1]));
    }
}

/// The words completed so far are never touched again: reading on from a
/// state with more completed words in front gives the same state with those
/// words in front.
pub proof fn lemma_done_is_kept(front: Seq<Seq<char>>, s: Lexer, rest: Seq<char>)
    ensures
        lex_from(Lexer { done: front + s.done, ..s }, rest) == (Lexer {
            done: front + lex_from(s, rest).done,
            ..lex_from(s, rest)
        }),
    decreases rest.len(),
{
    if rest.len() > 0 {
        lemma_done_is_kept(front, s, rest.drop_last());
        let t = lex_from(s, rest.drop_last());
        assert((front + t.done).push(t.word) =~= front + t.done.push(t.word));
    }
}

/// A line of white space only, the empty line included, has no word.
pub proof fn lemma_blank_line_has_no_word(line: Seq<char>)
    requires
        is_blank(line),
    ensures
        tokens_of(line) == Seq::<Seq<char>>::empty(),
{
    lemma_blank_ends_word(lex_start(), line);
}

/// A line that holds something, but neither white space nor a quote, is one
/// word: itself.
pub proof fn lemma_plain_line_is_one_word(line: Seq<char>)
    requires
        line.len() > 0,
        is_plain(line),
    ensures
        tokens_of(line) == seq![line],
{
    lemma_plain_is_copied(lex_start(), line);
    assert(Seq::<char>::empty() + line =~= line);
    assert(Seq::<Seq<char>>::empty().push(line) =~= seq![line]);
}

/// A literal span adds its body to the word being built and does nothing
/// else. After any text that ends outside a span, a quote, a body free of
/// that quote and the same quote again leave the splitter where it was, with
/// the body appended to the word: the quotes are dropped, the body is kept
/// character by character, and no word is ended. So a span right after a
/// word, or after another span, goes into the same word.
pub proof fn lemma_closed_span_extends_word(before: Seq<char>, q: char, body: Seq<char>)
    requires
        lex(before).quote is None,
        is_quote(q),
        free_of(body, q),
    ensures
        lex(before + seq![q] + body + seq![q]) == (Lexer {
            word: lex(before).word + body,
            ..lex(before)
        }),
{
    let s0 = lex(before);
    let s1 = Lexer { quote: Some(q), ..s0 };
    lemma_lex_concat(lex_start(), before, seq![q]);
    lemma_lex_one(s0, q);
    lemma_lex_concat(lex_start(), before + seq![q], body);
    lemma_span_is_copied(s1, q, body);
    lemma_lex_concat(lex_start(), before + seq![q] + body, seq![q]);
    lemma_lex_one(Lexer { word: s0.word + body, ..s1 }, q);
}

/// A literal span that the line leaves open still gives a word: the word
/// being built with the span's body appended, be it empty.
pub proof fn lemma_open_span_is_emitted(before: Seq<char>, q: char, body: Seq<char>)
    requires
        lex(before).quote is None,
        is_quote(q),
        free_of(body, q),
    ensures
        tokens_of(before + seq![q] + body) == lex(before).done.push(lex(before).word + body),
{
    let s0 = lex(before);
    let s1 = Lexer { quote: Some(q), ..s0 };
    lemma_lex_concat(lex_start(), before, seq![q]);
    lemma_lex_one(s0, q);
    lemma_lex_concat(lex_start(), before + seq![q], body);
    lemma_span_is_copied(s1, q, body);
}

/// White space outside a literal span separates: the words of a line that
/// has white space at a place outside any span are the words before that
/// place followed by the words after it.
pub proof fn lemma_white_space_separates(before: Seq<char>, w: char, after: Seq<char>)
    requires
        lex(before).quote is None,
        is_whitespace_char(w),
        !is_quote(w),
    ensures
        tokens_of(before + seq![w] + after) == tokens_of(before) + tokens_of(after),
{
    let s0 = lex(before);
    let front = tokens_of(before);
    let fresh = Lexer { done: front, word: Seq::empty(), quote: None };
    lemma_lex_concat(lex_start(), before, seq![w]);
    lemma_lex_one(s0, w);
    if s0.word.len() == 0 {
        assert(s0.word =~= Seq::<char>::empty());
    }
    assert(lex(before + seq![w]) == fresh);
    lemma_lex_concat(lex_start(), before + seq![w], after);
    assert(front + lex_start().done =~= front);
    lemma_done_is_kept(front, lex_start(), after);
    let t = lex(after);
    assert((front + t.done).push(t.word) =~= front + t.done.push(t.word));
}

/// Every state that a line leads to is well formed.
pub proof fn lemma_lex_is_well_formed(line: Seq<char>)
    ensures
        well_formed(lex(line)),
    decreases line.len(),
{
    if line.len() > 0 {
        lemma_lex_is_well_formed(line.drop_last());
        lemma_step_keeps_well_formed(
            lex(line.drop_last()),
            line.last(),
            is_whitespace_char(line.last()),
        );
    }
}

/// No word of a line is empty, but for the last one where the line leaves a
/// literal span open.
pub proof fn lemma_words_hold_something(line: Seq<char>, i: int)
    requires
        0 <= i < tokens_of(line).len(),
        i + 1 < tokens_of(line).len() || lex(line).quote is None,
    ensures
        tokens_of(line)[i].len() > 0,
{
    lemma_lex_is_well_formed(line);
}

/// The command that a sequence of words stands for. The first rule that
/// fits decides:
///
/// 1. a first word `exit`, whatever follows: [`Command::Exit`];
/// 2. a first word `echo`: [`Command::Echo`] of the other words joined by
///    single spaces;
/// 3. exactly two words, the first `type`: [`Command::Type`] of the second;
/// 4. the one word `pwd`: [`Command::Pwd`];
/// 5. exactly two words, the first `cd`: [`Command::Cd`] of the second;
/// 6. no word: [`Command::NotFound`];
/// 7. anything else: [`Command::External`], the first word the program and
///    the others its arguments.
///
/// So `type`, `pwd` and `cd` with any other number of words are external
/// commands of that name.
pub open spec fn classify_spec(tokens: Seq<Seq<char>>) -> Command {
    if tokens.len() > 0 && tokens[0] == "exit"@ {
        Command::Exit
    } else if tokens.len() > 0 && tokens[0] == "echo"@ {
        Command::Echo { text: join_spaced(tokens.skip(1)) }
    } else if tokens.len() == 2 && tokens[0] == "type"@ {
        Command::Type { name: tokens[1] }
    } else if tokens.len() == 1 && tokens[0] == "pwd"@ {
        Command::Pwd
    } else if tokens.len() == 2 && tokens[0] == "cd"@ {
        Command::Cd { target: tokens[1] }
    } else if tokens.len() == 0 {
        Command::NotFound
    } else {
        Command::External { program: tokens[0], args: tokens.skip(1) }
    }
}

/// An external command holds every word of the line once: the first as the
/// program, the others, in order, as its arguments, the program not among
/// them again.
pub proof fn lemma_external_holds_all_words(tokens: Seq<Seq<char>>)
    requires
        classify_spec(tokens) is External,
    ensures
        tokens.len() > 0,
        classify_spec(tokens) == (Command::External { program: tokens[0], args: tokens.skip(1) }),
        seq![tokens[0]] + tokens.skip(1) == tokens,
{
    assert(seq![tokens[0]] + tokens.skip(1) =~= tokens);
}

/// A line is found to be no command at all exactly when it has no word.
pub proof fn lemma_not_found_is_no_word(tokens: Seq<Seq<char>>)
    ensures
        classify_spec(tokens) is NotFound <==> tokens.len() == 0,
{
}

/// The five built-in words differ from one another.
proof fn lemma_builtin_words_differ()
    ensures
        "exit"@ != "echo"@,
        "type"@ != "exit"@,
        "type"@ != "echo"@,
        "pwd"@ != "exit"@,
        "pwd"@ != "echo"@,
        "pwd"@ != "type"@,
        "cd"@ != "exit"@,
        "cd"@ != "echo"@,
        "cd"@ != "type"@,
        "cd"@ != "pwd"@,
{
    reveal_strlit("exit");
    reveal_strlit("echo");
    reveal_strlit("type");
    reveal_strlit("pwd");
    reveal_strlit("cd");
    assert("pwd"@.len() == 3 && "cd"@.len() == 2 && "type"@.len() == 4);
    assert("exit"@[1] == 'x' && "echo"@[1] == 'c');
    assert("type"@[0] == 't' && "exit"@[0] == 'e' && "echo"@[0] == 'e');
}

/// `type`, `pwd` and `cd` are built-ins only with the number of words they
/// are defined for: `type` and `cd` with exactly one more, `pwd` alone. With
/// any other number the line is an external command of that name.
pub proof fn lemma_wrong_arity_is_external(tokens: Seq<Seq<char>>)
    requires
        tokens.len() > 0,
        (tokens[0] == "type"@ && tokens.len() != 2) || (tokens[0] == "pwd"@ && tokens.len() != 1)
            || (tokens[0] == "cd"@ && tokens.len() != 2),
    ensures
        classify_spec(tokens) == (Command::External { program: tokens[0], args: tokens.skip(1) }),
{
    lemma_builtin_words_differ();
}

/// Classifies a sequence of words as a command.
pub fn classify(tokens: &Vec<String>) -> (cmd: CommandKind)
    ensures
        cmd@ == classify_spec(words(tokens@)),
{
    let n: usize = tokens.len();
    if n == 0 {
        return CommandKind::NotFound;
    }
    let first = &tokens[0];
    if is_word(first, "exit") {
        CommandKind::Exit
    } else if is_word(first, "echo") {
        CommandKind::Echo { display_string: join_from(tokens, 1) }
    } else if n == 2 && is_word(first, "type") {
        CommandKind::Type { command_name: tokens[1].clone() }
    } else if n == 1 && is_word(first, "pwd") {
        CommandKind::Pwd
    } else if n == 2 && is_word(first, "cd") {
        CommandKind::Cd { directory: tokens[1].clone() }
    } else {
        CommandKind::External { program: first.clone(), args: copy_from(tokens, 1) }
    }
}

impl CommandKind {
    /// Reads one line as a command: splits it into words and classifies them.
    pub fn parse(line: &str) -> (cmd: CommandKind)
        ensures
            cmd@ == classify_spec(tokens_of(line@)),
    {
        let parts = split_args(line);
        classify(&parts)
    }
}

} // verus!
