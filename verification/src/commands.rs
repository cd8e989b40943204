//! Command parsing. Commands are plain text behind a prefix character.
//!
//! Full names: `.new .abort .session .model .thinking`
//! Short aliases: `.n .a .s .m .t`
//!
//! A slash cannot be the prefix in a chat that keeps slashes for its own
//! commands, so the default is a dot.

use crate::text;
use vstd::prelude::*;

verus! {

/// A command of the user.
#[derive(Debug, Clone, PartialEq, Eq)]
pub enum Command {
    New,
    Abort,
    Session,
    Model(Option<String>),
    Thinking(Option<String>),
}

/// What a [`Command`] says.
pub enum CommandView {
    New,
    Abort,
    Session,
    Model(Option<Seq<char>>),
    Thinking(Option<Seq<char>>),
}

impl View for Command {
    type V = CommandView;

    open spec fn view(&self) -> CommandView {
        match *self {
            Command::New => CommandView::New,
            Command::Abort => CommandView::Abort,
            Command::Session => CommandView::Session,
            Command::Model(arg) => CommandView::Model(text::optional(arg)),
            Command::Thinking(arg) => CommandView::Thinking(text::optional(arg)),
        }
    }
}

/// What a message is.
#[derive(Debug, Clone, PartialEq, Eq)]
pub enum ParseResult {
    Command(Command),
    /// Starts with the prefix but is not a known command.
    Unknown,
    /// Plain message text.
    NotCommand,
}

/// What a [`ParseResult`] says.
pub enum ParseView {
    Command(CommandView),
    Unknown,
    NotCommand,
}

impl View for ParseResult {
    type V = ParseView;

    open spec fn view(&self) -> ParseView {
        match *self {
            ParseResult::Command(c) => ParseView::Command(c@),
            ParseResult::Unknown => ParseView::Unknown,
            ParseResult::NotCommand => ParseView::NotCommand,
        }
    }
}

/// How many characters of `s` stand before its first white space.
pub open spec fn word_len(s: Seq<char>) -> nat
    decreases s.len(),
{
    if s.len() == 0 || text::white(s[0]) {
        0
    } else {
        1 + word_len(s.drop_first())
    }
}

/// The word that `s` begins with.
pub open spec fn first_word(s: Seq<char>) -> Seq<char> {
    s.take(word_len(s) as int)
}

/// What follows the first word of `s`, where anything but white space does.
pub open spec fn argument(s: Seq<char>) -> Option<Seq<char>> {
    if word_len(s) < s.len() {
        text::non_empty(text::trim(s.skip((word_len(s) + 1) as int)))
    } else {
        None
    }
}

/// The command that the small letters `word` name, with `arg` behind it.
pub open spec fn named(word: Seq<char>, arg: Option<Seq<char>>) -> ParseView {
    if word == "new"@ || word == "n"@ {
        ParseView::Command(CommandView::New)
    } else if word == "abort"@ || word == "a"@ {
        ParseView::Command(CommandView::Abort)
    } else if word == "session"@ || word == "s"@ {
        ParseView::Command(CommandView::Session)
    } else if word == "model"@ || word == "m"@ {
        ParseView::Command(CommandView::Model(arg))
    } else if word == "thinking"@ || word == "t"@ {
        ParseView::Command(CommandView::Thinking(arg))
    } else {
        ParseView::Unknown
    }
}

/// What the message `content` is, where commands begin with `prefix`.
pub open spec fn parsed(content: Seq<char>, prefix: char) -> ParseView {
    let message = text::trim(content);
    if message.len() == 0 || message[0] != prefix {
        ParseView::NotCommand
    } else {
        let body = message.drop_first();
        named(text::lower(first_word(body)), argument(body))
    }
}

/// Parse a message. `prefix` is the command prefix; a message that does not
/// start with it is plain text. The command word is read without regard to
/// ASCII case.
pub fn parse(content: &str, prefix: char) -> (r: ParseResult)
    ensures
        r@ == parsed(content@, prefix),
{
    let chars = text::chars_of(content);
    let (from, to) = text::trim_range(&chars, 0, chars.len());
    let ghost message = text::trim(content@);
    assert(chars@.subrange(0, chars@.len() as int) =~= content@);
    assert(message == chars@.subrange(from as int, to as int));
    if from == to || chars[from] != prefix {
        return ParseResult::NotCommand;
    }
    let ghost body = message.drop_first();
    let start: usize = from + 1;
    assert(body =~= chars@.subrange(start as int, to as int));
    let mut end: usize = start;
    assert(body.skip(0) =~= body);
    while end < to && !text::is_white(chars[end])
        invariant
            start <= end <= to <= chars@.len(),
            body =~= chars@.subrange(start as int, to as int),
            word_len(body) == end - start + word_len(body.skip(end - start)),
        decreases to - end,
    {
        let ghost k = end - start;
        assert(body.skip(k)[0] == chars@[end as int]);
        assert(body.skip(k).drop_first() =~= body.skip(k + 1));
        end = end + 1;
    }
    assert(word_len(body.skip(end - start)) == 0) by {
        if end < to {
            assert(body.skip(end - start)[0] == chars@[end as int]);
        }
    }
    let arg: Option<String> = if end < to {
        let (arg_from, arg_to) = text::trim_range(&chars, end + 1, to);
        assert(chars@.subrange(end + 1, to as int) =~= body.skip(end - start + 1));
        if arg_from < arg_to {
            Some(text::text_of(&chars, arg_from, arg_to))
        } else {
            None
        }
    } else {
        None
    };
    assert(text::optional(arg) == argument(body));
    let word = text::lowered(&chars, start, end);
    assert(chars@.subrange(start as int, end as int) =~= first_word(body));
    let w = word.as_str();
    if text::same(w, "new") || text::same(w, "n") {
        ParseResult::Command(Command::New)
    } else if text::same(w, "abort") || text::same(w, "a") {
        ParseResult::Command(Command::Abort)
    } else if text::same(w, "session") || text::same(w, "s") {
        ParseResult::Command(Command::Session)
    } else if text::same(w, "model") || text::same(w, "m") {
        ParseResult::Command(Command::Model(arg))
    } else if text::same(w, "thinking") || text::same(w, "t") {
        ParseResult::Command(Command::Thinking(arg))
    } else {
        ParseResult::Unknown
    }
}

// ── What holds of every message ───────────────────────────────────────

/// White space around a message does not change what it is.
pub proof fn law_outer_space_ignored(content: Seq<char>, prefix: char)
    ensures
        parsed(text::trim(content), prefix) == parsed(content, prefix),
{
    text::lemma_trim_twice(content);
}

proof fn lemma_word_len(word: Seq<char>, rest: Seq<char>)
    requires
        forall|i: int| 0 <= i < word.len() ==> !text::white(#[trigger] word[i]),
        rest.len() == 0 || text::white(rest[0]),
    ensures
        word_len(word + rest) == word.len(),
    decreases word.len(),
{
    if word.len() == 0 {
        assert(word + rest =~= rest);
    } else {
        assert((word + rest)[0] == word[0]);
        assert((word + rest).drop_first() =~= word.drop_first() + rest);
        lemma_word_len(word.drop_first(), rest);
    }
}

/// A message made of the prefix, a word, and what stands behind the word is
/// the command that the word names in small letters; its argument is what
/// stands behind, without the white space around it.
pub proof fn law_command_form(prefix: char, word: Seq<char>, rest: Seq<char>)
    requires
        !text::white(prefix),
        forall|i: int| 0 <= i < word.len() ==> !text::white(#[trigger] word[i]),
        rest.len() == 0 || text::white(rest[0]),
    ensures
        parsed(seq![prefix] + word + rest, prefix) == named(
            text::lower(word),
            text::non_empty(text::trim(rest)),
        ),
{
    let head = seq![prefix] + word;
    let content = head + rest;
    let kept = text::trim_end(rest);
    text::lemma_trim_end(rest);
    let cut_off = rest.skip(kept.len() as int);
    assert(rest =~= kept + cut_off);
    // The message keeps its head, since neither the prefix nor the word is white space.
    assert(text::trim_start(content) == content);
    let message = head + kept;
    assert(text::trim(content) == message) by {
        assert(content =~= message + cut_off);
        text::lemma_trim_end_append(message, cut_off);
        assert(message.last() == if kept.len() > 0 {
            kept.last()
        } else {
            head.last()
        });
    }
    let body = message.drop_first();
    assert(body =~= word + kept);
    assert(kept.len() > 0 ==> kept[0] == rest[0]);
    lemma_word_len(word, kept);
    assert(first_word(body) =~= word);
    if kept.len() > 0 {
        assert(body.skip((word.len() + 1) as int) =~= kept.skip(1));
        assert(kept =~= kept.take(1) + kept.skip(1));
        text::lemma_trim_prepend(kept.take(1), kept.skip(1));
        text::lemma_trim_append(kept, cut_off);
        assert(text::trim(rest) == text::trim(kept.skip(1)));
    } else {
        text::lemma_trim_append(kept, cut_off);
        assert(text::trim(rest) == text::trim(kept));
        assert(text::trim(kept) =~= Seq::<char>::empty());
    }
}

/// The case of the letters of the command word does not matter.
pub proof fn law_case_ignored(prefix: char, one: Seq<char>, other: Seq<char>, rest: Seq<char>)
    requires
        !text::white(prefix),
        forall|i: int| 0 <= i < one.len() ==> !text::white(#[trigger] one[i]),
        rest.len() == 0 || text::white(rest[0]),
        text::lower(one) == text::lower(other),
    ensures
        parsed(seq![prefix] + one + rest, prefix) == parsed(seq![prefix] + other + rest, prefix),
{
    assert(one.len() == text::lower(one).len());
    assert(other.len() == text::lower(other).len());
    assert forall|i: int| 0 <= i < other.len() implies !text::white(#[trigger] other[i]) by {
        assert(text::lower(one)[i] == text::lower(other)[i]);
        assert(one.len() == other.len());
        assert(text::lower(one)[i] == text::lower_char(one[i]));
        assert(text::lower(other)[i] == text::lower_char(other[i]));
        assert(!text::white(one[i]));
    }
    law_command_form(prefix, one, rest);
    law_command_form(prefix, other, rest);
}

/// Each short alias names the same command as the full name.
pub proof fn law_aliases(arg: Option<Seq<char>>)
    ensures
        named("n"@, arg) == named("new"@, arg),
        named("a"@, arg) == named("abort"@, arg),
        named("s"@, arg) == named("session"@, arg),
        named("m"@, arg) == named("model"@, arg),
        named("t"@, arg) == named("thinking"@, arg),
        named("new"@, arg) == ParseView::Command(CommandView::New),
        named("abort"@, arg) == ParseView::Command(CommandView::Abort),
        named("session"@, arg) == ParseView::Command(CommandView::Session),
        named("model"@, arg) == ParseView::Command(CommandView::Model(arg)),
        named("thinking"@, arg) == ParseView::Command(CommandView::Thinking(arg)),
{
    reveal_strlit("new");
    reveal_strlit("abort");
    reveal_strlit("session");
    reveal_strlit("model");
    reveal_strlit("thinking");
    reveal_strlit("n");
    reveal_strlit("a");
    reveal_strlit("s");
    reveal_strlit("m");
    reveal_strlit("t");
    assert("n"@[0] == 'n' && "a"@[0] == 'a' && "s"@[0] == 's' && "m"@[0] == 'm' && "t"@[0] == 't');
    assert("new"@.len() == 3 && "abort"@.len() == 5 && "session"@.len() == 7 && "model"@.len() == 5
        && "thinking"@.len() == 8);
    assert("abort"@[0] == 'a' && "model"@[0] == 'm');
}

/// A message is plain text exactly where it does not begin with the prefix,
/// once the white space around it is left out.
pub proof fn law_plain_text(content: Seq<char>, prefix: char)
    ensures
        parsed(content, prefix) is NotCommand <==> (text::trim(content).len() == 0 || text::trim(
            content,
        )[0] != prefix),
{
}

/// Behind the prefix stands the name of a command or its first letter, in any
/// case; what follows it is the argument, without the white space around it.
/// Any other word is unknown.
pub proof fn law_each_command(prefix: char, word: Seq<char>, rest: Seq<char>)
    requires
        !text::white(prefix),
        forall|i: int| 0 <= i < word.len() ==> !text::white(#[trigger] word[i]),
        rest.len() == 0 || text::white(rest[0]),
    ensures
        ({
            let message = parsed(seq![prefix] + word + rest, prefix);
            let name = text::lower(word);
            let arg = if text::trim(rest).len() == 0 {
                None
            } else {
                Some(text::trim(rest))
            };
            &&& (name == "new"@ || name == "n"@) <==> message == ParseView::Command(
                CommandView::New,
            )
            &&& (name == "abort"@ || name == "a"@) <==> message == ParseView::Command(
                CommandView::Abort,
            )
            &&& (name == "session"@ || name == "s"@) <==> message == ParseView::Command(
                CommandView::Session,
            )
            &&& (name == "model"@ || name == "m"@) <==> message == ParseView::Command(
                CommandView::Model(arg),
            )
            &&& (name == "thinking"@ || name == "t"@) <==> message == ParseView::Command(
                CommandView::Thinking(arg),
            )
            &&& message is Unknown <==> name != "new"@ && name != "n"@ && name != "abort"@ && name
                != "a"@ && name != "session"@ && name != "s"@ && name != "model"@ && name != "m"@
                && name != "thinking"@ && name != "t"@
        }),
{
    let arg = text::non_empty(text::trim(rest));
    law_command_form(prefix, word, rest);
    law_aliases(arg);
    law_aliases(None);
}

/// What the reading of a message says is what it is.
pub proof fn law_parse_view(r: ParseResult)
    ensures
        match (r, r@) {
            (ParseResult::NotCommand, ParseView::NotCommand) => true,
            (ParseResult::Unknown, ParseView::Unknown) => true,
            (ParseResult::Command(Command::New), ParseView::Command(v)) => v is New,
            (ParseResult::Command(Command::Abort), ParseView::Command(v)) => v is Abort,
            (ParseResult::Command(Command::Session), ParseView::Command(v)) => v is Session,
            (ParseResult::Command(Command::Model(arg)), ParseView::Command(v)) => v
                == CommandView::Model(text::optional(arg)),
            (ParseResult::Command(Command::Thinking(arg)), ParseView::Command(v)) => v
                == CommandView::Thinking(text::optional(arg)),
            _ => false,
        },
{
}

} // verus!
