//! The text protocol of the control surface.
//!
//! A message is split at white space into words. The first word names a
//! command and the second, if there is one, is its argument. Reading the
//! argument as a number and writing a number out as text are left to the
//! caller: [`parse`] hands the argument back as text, [`handle`] takes it as
//! the bit pattern that the caller read from it, and gives the threshold back
//! as a bit pattern to be written out.

use vstd::prelude::*;
use crate::store::ParameterStore;

verus! {

/// Whether the character is white space: one of the 25 characters that
/// Unicode marks as White_Space.
pub open spec fn is_space(c: char) -> bool {
    let n = c as u32;
    ||| 0x09 <= n <= 0x0d
    ||| n == 0x20
    ||| n == 0x85
    ||| n == 0xa0
    ||| n == 0x1680
    ||| 0x2000 <= n <= 0x200a
    ||| n == 0x2028
    ||| n == 0x2029
    ||| n == 0x202f
    ||| n == 0x205f
    ||| n == 0x3000
}

/// The first position at or after `from` that holds no white space, or the
/// length of the text where there is none.
pub open spec fn skip_spaces(text: Seq<char>, from: int) -> int
    decreases text.len() - from,
{
    if from < 0 || from >= text.len() {
        text.len() as int
    } else if is_space(text[from]) {
        skip_spaces(text, from + 1)
    } else {
        from
    }
}

/// The first position at or after `from` that holds white space, or the length
/// of the text where there is none.
pub open spec fn skip_word(text: Seq<char>, from: int) -> int
    decreases text.len() - from,
{
    if from < 0 || from >= text.len() {
        text.len() as int
    } else if is_space(text[from]) {
        from
    } else {
        skip_word(text, from + 1)
    }
}

/// The first word of the text that starts at or after `from`: the longest run
/// of characters other than white space that follows the white space at
/// `from`. It is empty exactly where only white space is left.
pub open spec fn word_at(text: Seq<char>, from: int) -> Seq<char> {
    let start = skip_spaces(text, from);
    text.subrange(start, skip_word(text, start))
}

/// The first word of the text, or the empty sequence.
pub open spec fn first_word(text: Seq<char>) -> Seq<char> {
    word_at(text, 0)
}

/// The second word of the text, or the empty sequence.
pub open spec fn second_word(text: Seq<char>) -> Seq<char> {
    word_at(text, skip_word(text, skip_spaces(text, 0)))
}

/// What `skip_spaces` finds: only white space lies between `from` and the
/// result, and the result is the end of the text or holds no white space.
pub proof fn lemma_skip_spaces(text: Seq<char>, from: int)
    requires
        0 <= from <= text.len(),
    ensures
        from <= skip_spaces(text, from) <= text.len(),
        forall|i: int| from <= i < skip_spaces(text, from) ==> is_space(#[trigger] text[i]),
        skip_spaces(text, from) < text.len() ==> !is_space(text[skip_spaces(text, from)]),
    decreases text.len() - from,
{
    if from < text.len() && is_space(text[from]) {
        lemma_skip_spaces(text, from + 1);
    }
}

/// What `skip_word` finds: no white space lies between `from` and the result,
/// and the result is the end of the text or holds white space.
pub proof fn lemma_skip_word(text: Seq<char>, from: int)
    requires
        0 <= from <= text.len(),
    ensures
        from <= skip_word(text, from) <= text.len(),
        forall|i: int| from <= i < skip_word(text, from) ==> !is_space(#[trigger] text[i]),
        skip_word(text, from) < text.len() ==> is_space(text[skip_word(text, from)]),
    decreases text.len() - from,
{
    if from < text.len() && !is_space(text[from]) {
        lemma_skip_word(text, from + 1);
    }
}

/// A word holds no white space, and it is empty only where nothing but white
/// space is left in the text.
pub proof fn lemma_word_at(text: Seq<char>, from: int)
    requires
        0 <= from <= text.len(),
    ensures
        forall|i: int| 0 <= i < word_at(text, from).len() ==> !is_space(
            #[trigger] word_at(text, from)[i],
        ),
        word_at(text, from).len() == 0 <==> skip_spaces(text, from) == text.len(),
{
    let start = skip_spaces(text, from);
    lemma_skip_spaces(text, from);
    lemma_skip_word(text, start);
    assert forall|i: int| 0 <= i < word_at(text, from).len() implies !is_space(
        #[trigger] word_at(text, from)[i],
    ) by {
        assert(word_at(text, from)[i] == text[start + i]);
    }
}

/// The commands of the protocol.
#[derive(Clone, Copy, Debug, PartialEq, Eq, Structural)]
pub enum CommandName {
    /// `getThreshold`: asks for the threshold.
    GetThreshold,
    /// `setThreshold`: replaces the threshold by the argument.
    SetThreshold,
    /// Any other first word, and a message without words.
    Other,
}

/// The command that a word names. The names are matched letter for letter.
pub open spec fn command_named(word: Seq<char>) -> CommandName {
    if word == "getThreshold"@ {
        CommandName::GetThreshold
    } else if word == "setThreshold"@ {
        CommandName::SetThreshold
    } else {
        CommandName::Other
    }
}

/// A message split into its command and the text of its argument.
#[derive(Clone, Copy, Debug)]
pub struct Request<'a> {
    /// The command that the first word names.
    pub name: CommandName,
    /// The second word, empty where the message has none.
    pub argument: &'a str,
}

impl<'a> Request<'a> {
    /// The command of this request, given the number that the caller read
    /// from the argument's text (`None` where the text is no number). An empty
    /// argument is never a number.
    pub fn with_number(&self, number: Option<u32>) -> (command: Command)
        ensures
            command.name == self.name,
            command.argument == if self.argument@.len() == 0 {
                None
            } else {
                number
            },
    {
        if self.argument.is_empty() {
            Command { name: self.name, argument: None }
        } else {
            Command { name: self.name, argument: number }
        }
    }
}

/// A command with its argument read as a number.
#[derive(Clone, Copy, Debug, PartialEq, Eq, Structural)]
pub struct Command {
    pub name: CommandName,
    /// The bit pattern of the number that the argument's text stands for, or
    /// `None` where the text stands for no number.
    pub argument: Option<u32>,
}

/// The answer to a command.
#[derive(Clone, Copy, Debug, PartialEq, Eq, Structural)]
pub enum Reply {
    /// The empty text.
    Empty,
    /// The decimal text of the number with this bit pattern.
    Threshold(u32),
}

/// The threshold that the store holds after the command: the argument of a
/// `setThreshold` that has one, and the threshold before in every other case.
pub open spec fn threshold_after(threshold: u32, command: Command) -> u32 {
    match (command.name, command.argument) {
        (CommandName::SetThreshold, Some(value)) => value,
        _ => threshold,
    }
}

/// The answer to the command: the threshold for `getThreshold`, the empty text
/// for every other command.
pub open spec fn reply_to(threshold: u32, command: Command) -> Reply {
    match command.name {
        CommandName::GetThreshold => Reply::Threshold(threshold),
        _ => Reply::Empty,
    }
}

/// The two names are different words, and every word but these two names the
/// command `Other`.
pub proof fn lemma_command_named(word: Seq<char>)
    ensures
        command_named("getThreshold"@) == CommandName::GetThreshold,
        command_named("setThreshold"@) == CommandName::SetThreshold,
        command_named(word) == CommandName::Other <==> word != "getThreshold"@ && word
            != "setThreshold"@,
{
    reveal_strlit("getThreshold");
    reveal_strlit("setThreshold");
    assert("getThreshold"@[0] != "setThreshold"@[0]);
}

/// A `setThreshold` whose argument is no number changes nothing and is answered
/// with the empty text.
pub proof fn lemma_set_without_number(threshold: u32)
    ensures
        threshold_after(
            threshold,
            Command { name: CommandName::SetThreshold, argument: None },
        ) == threshold,
        reply_to(threshold, Command { name: CommandName::SetThreshold, argument: None })
            == Reply::Empty,
{
}

/// A command that is neither of the two named ones changes nothing and is
/// answered with the empty text, whatever its argument.
pub proof fn lemma_other_command(threshold: u32, argument: Option<u32>)
    ensures
        threshold_after(threshold, Command { name: CommandName::Other, argument }) == threshold,
        reply_to(threshold, Command { name: CommandName::Other, argument }) == Reply::Empty,
{
}

/// `getThreshold` changes nothing, whatever its argument, and after a
/// `setThreshold` with a number it answers with that number.
pub proof fn lemma_get_after_set(threshold: u32, value: u32, argument: Option<u32>)
    ensures
        threshold_after(threshold, Command { name: CommandName::GetThreshold, argument })
            == threshold,
        reply_to(
            threshold_after(
                threshold,
                Command { name: CommandName::SetThreshold, argument: Some(value) },
            ),
            Command { name: CommandName::GetThreshold, argument },
        ) == Reply::Threshold(value),
{
}

/// A message of white space alone, the empty one included, has no words: it
/// names no command and has no argument. A message of one word has no
/// argument.
pub proof fn lemma_missing_words(text: Seq<char>)
    ensures
        skip_spaces(text, 0) == text.len() ==> first_word(text).len() == 0 && second_word(
            text,
        ).len() == 0 && command_named(first_word(text)) == CommandName::Other,
        skip_spaces(text, skip_word(text, skip_spaces(text, 0))) == text.len() ==> second_word(
            text,
        ).len() == 0,
{
    reveal_strlit("getThreshold");
    reveal_strlit("setThreshold");
    lemma_skip_spaces(text, 0);
    let start = skip_spaces(text, 0);
    lemma_skip_word(text, start);
    let end = skip_word(text, start);
    lemma_word_at(text, 0);
    lemma_word_at(text, end);
}

/// Tells whether the character is white space.
pub fn space(c: char) -> (r: bool)
    ensures
        r == is_space(c),
{
    let n: u32 = c as u32;
    (0x09 <= n && n <= 0x0d) || n == 0x20 || n == 0x85 || n == 0xa0 || n == 0x1680 || (0x2000 <= n
        && n <= 0x200a) || n == 0x2028 || n == 0x2029 || n == 0x202f || n == 0x205f || n == 0x3000
}

/// The characters of a string, in order.
fn chars_of(text: &str) -> (chars: Vec<char>)
    ensures
        chars@ == text@,
{
    let mut chars: Vec<char> = Vec::new();
    for c in it: text.chars()
        invariant
            it.seq() == text@,
            chars@ == text@.take(it.index() as int),
    {
        chars.push(c);
    }
    chars
}

/// Computes [`skip_spaces`].
fn spaces_end(chars: &Vec<char>, from: usize) -> (end: usize)
    requires
        from <= chars.len(),
    ensures
        end == skip_spaces(chars@, from as int),
        from <= end <= chars.len(),
{
    let mut at: usize = from;
    while at < chars.len() && space(chars[at])
        invariant
            from <= at <= chars.len(),
            skip_spaces(chars@, from as int) == skip_spaces(chars@, at as int),
        decreases chars.len() - at,
    {
        at = at + 1;
    }
    at
}

/// Computes [`skip_word`].
fn word_end(chars: &Vec<char>, from: usize) -> (end: usize)
    requires
        from <= chars.len(),
    ensures
        end == skip_word(chars@, from as int),
        from <= end <= chars.len(),
{
    let mut at: usize = from;
    while at < chars.len() && !space(chars[at])
        invariant
            from <= at <= chars.len(),
            skip_word(chars@, from as int) == skip_word(chars@, at as int),
        decreases chars.len() - at,
    {
        at = at + 1;
    }
    at
}

/// Tells whether the characters from `start` up to `end` spell the word.
fn spells(chars: &Vec<char>, start: usize, end: usize, word: &str) -> (r: bool)
    requires
        start <= end <= chars.len(),
    ensures
        r == (chars@.subrange(start as int, end as int) == word@),
{
    let letters = chars_of(word);
    if letters.len() != end - start {
        return false;
    }
    let ghost run = chars@.subrange(start as int, end as int);
    let mut i: usize = 0;
    while i < letters.len()
        invariant
            start <= end <= chars.len(),
            letters.len() == end - start,
            run == chars@.subrange(start as int, end as int),
            letters@ == word@,
            i <= letters.len(),
            forall|j: int| 0 <= j < i ==> run[j] == letters@[j],
        decreases letters.len() - i,
    {
        if chars[start + i] != letters[i] {
            assert(run[i as int] != word@[i as int]);
            return false;
        }
        i = i + 1;
    }
    assert(run =~= word@);
    true
}

/// Splits a message into its command and the text of its argument. Words past
/// the second are ignored.
pub fn parse<'a>(message: &'a str) -> (request: Request<'a>)
    ensures
        request.name == command_named(first_word(message@)),
        request.argument@ == second_word(message@),
{
    let chars = chars_of(message);
    let start = spaces_end(&chars, 0);
    let end = word_end(&chars, start);
    let name = if spells(&chars, start, end, "getThreshold") {
        CommandName::GetThreshold
    } else if spells(&chars, start, end, "setThreshold") {
        CommandName::SetThreshold
    } else {
        CommandName::Other
    };
    let argument_start = spaces_end(&chars, end);
    let argument_end = word_end(&chars, argument_start);
    Request { name, argument: message.substring_char(argument_start, argument_end) }
}

/// Carries out a command on the store and answers it.
///
/// `getThreshold` answers with the threshold and changes nothing.
/// `setThreshold` stores its argument where it has one, leaves the store as it
/// is where it has none, and answers with the empty text either way. Any other
/// command changes nothing and is answered with the empty text.
pub fn handle(store: &mut ParameterStore, command: Command) -> (reply: Reply)
    ensures
        final(store)@.threshold == threshold_after(old(store)@.threshold, command),
        reply == reply_to(old(store)@.threshold, command),
{
    match command.name {
        CommandName::GetThreshold => Reply::Threshold(store.read().threshold),
        CommandName::SetThreshold => {
            if let Some(value) = command.argument {
                store.write(value);
            }
            Reply::Empty
        },
        CommandName::Other => Reply::Empty,
    }
}

} // verus!
