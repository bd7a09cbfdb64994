//! Command routing: the command table, the first-match rule on triggers,
//! and the decision taken for one event's content.

use crate::text::{begins_with, characters, has_prefix, rest_from, trim_from, trimmed};
use vstd::prelude::*;
use vstd::string::*;

verus! {

/// What a command runs. `B` is a handler of event and state, `X` one that
/// also takes the text behind the trigger; the library carries both without
/// looking inside.
pub enum FunctorType<B, X> {
    Basic(B),
    Extra(X),
}

/// A registered command.
pub struct Command<B, X> {
    pub trigger: String,
    pub description: Option<String>,
    pub functor: FunctorType<B, X>,
}

impl<B, X> Command<B, X> {
    /// A command without a description.
    pub fn new(trigger: &str, functor: FunctorType<B, X>) -> (r: Self)
        ensures
            r.trigger@ == trigger@,
            r.description is None,
            r.functor == functor,
    {
        Command { trigger: String::from_str(trigger), description: None, functor }
    }

    /// The command with the given description.
    pub fn desc(self, description: &str) -> (r: Self)
        ensures
            r.trigger == self.trigger,
            r.functor == self.functor,
            r.description is Some,
            r.description->0@ == description@,
    {
        Command {
            trigger: self.trigger,
            description: Some(String::from_str(description)),
            functor: self.functor,
        }
    }
}

/// The triggers of a command table, in registration order.
pub open spec fn triggers<B, X>(commands: Seq<Command<B, X>>) -> Seq<Seq<char>> {
    Seq::new(commands.len(), |i: int| commands[i].trigger@)
}

/// Command `i` is the first whose trigger `content` begins with.
pub open spec fn first_match(table: Seq<Seq<char>>, content: Seq<char>, i: int) -> bool {
    &&& 0 <= i < table.len()
    &&& has_prefix(content, table[i])
    &&& forall|j: int| 0 <= j < i ==> !has_prefix(content, #[trigger] table[j])
}

/// `content` begins with no trigger of the table.
pub open spec fn no_match(table: Seq<Seq<char>>, content: Seq<char>) -> bool {
    forall|j: int| 0 <= j < table.len() ==> !has_prefix(content, #[trigger] table[j])
}

/// Where two commands both match a content, the one registered earlier is
/// selected, never the later one; so at most one command is selected.
pub proof fn earlier_command_wins(table: Seq<Seq<char>>, content: Seq<char>, a: int, i: int)
    requires
        0 <= a < table.len(),
        has_prefix(content, table[a]),
        first_match(table, content, i),
    ensures
        i <= a,
        !no_match(table, content),
        first_match(table, content, a) ==> i == a,
{
}

/// Of two commands registered one after the other, a content that begins
/// with the trigger of the first selects the first, whatever the trigger of
/// the second is.
pub proof fn first_of_two_wins(a: Seq<char>, b: Seq<char>, content: Seq<char>)
    requires
        has_prefix(content, a),
    ensures
        first_match(seq![a, b], content, 0),
        !first_match(seq![a, b], content, 1),
{
    assert(seq![a, b][0] == a);
}

/// The command that the content selects: the first in registration order
/// whose trigger the content begins with, or none.
pub fn select<B, X>(commands: &Vec<Command<B, X>>, content: &str) -> (r: Option<usize>)
    ensures
        match r {
            Some(i) => first_match(triggers(commands@), content@, i as int),
            None => no_match(triggers(commands@), content@),
        },
{
    let text = characters(content);
    let mut i: usize = 0;
    while i < commands.len()
        invariant
            text@ == content@,
            i <= commands@.len(),
            forall|j: int| 0 <= j < i ==> !has_prefix(content@, #[trigger] triggers(commands@)[j]),
        decreases commands@.len() - i,
    {
        if begins_with(&text, &characters(commands[i].trigger.as_str())) {
            return Some(i);
        }
        i += 1;
    }
    None
}

/// What to do with one event's content.
#[derive(Debug, Clone, PartialEq, Eq)]
pub enum Dispatch {
    /// No command matches: the event is not for this bot.
    Ignore,
    /// Run the basic handler of the command at `index`.
    Basic { index: usize },
    /// Run the extra handler of the command at `index` on `text`.
    Extra { index: usize, text: String },
}

/// The text that an extra handler receives: what follows the trigger,
/// without the white space around it.
pub open spec fn extra_text(content: Seq<char>, trigger: Seq<char>) -> Seq<char> {
    trimmed(rest_from(content, trigger.len() as int))
}

/// `d` is the decision for `content` under the command table: ignore it
/// where no trigger matches; else the first matching command decides, its
/// kind says what runs, and an extra handler gets the trimmed rest.
pub open spec fn routes<B, X>(commands: Seq<Command<B, X>>, content: Seq<char>, d: Dispatch)
    -> bool {
    match d {
        Dispatch::Ignore => no_match(triggers(commands), content),
        Dispatch::Basic { index } => first_match(triggers(commands), content, index as int)
            && commands[index as int].functor is Basic,
        Dispatch::Extra { index, text } => first_match(triggers(commands), content, index as int)
            && commands[index as int].functor is Extra && text@ == extra_text(
            content,
            commands[index as int].trigger@,
        ),
    }
}

/// Routes a content through the command table.
pub fn dispatch<B, X>(commands: &Vec<Command<B, X>>, content: &str) -> (d: Dispatch)
    ensures
        routes(commands@, content@, d),
{
    match select(commands, content) {
        None => Dispatch::Ignore,
        Some(index) => {
            let command = &commands[index];
            match &command.functor {
                FunctorType::Basic(_) => Dispatch::Basic { index },
                FunctorType::Extra(_) => {
                    let n: usize = command.trigger.as_str().unicode_len();
                    Dispatch::Extra { index, text: trim_from(&characters(content), n) }
                },
            }
        },
    }
}

/// One line of the command list: the trigger, and behind a colon and a
/// space the description where there is one.
pub open spec fn help_line<B, X>(command: Command<B, X>) -> Seq<char> {
    match command.description {
        Some(d) => command.trigger@ + seq![':', ' '] + d@ + seq!['\n'],
        None => command.trigger@ + seq!['\n'],
    }
}

/// The lines of the first `n` commands.
pub open spec fn help_lines<B, X>(commands: Seq<Command<B, X>>, n: int) -> Seq<char>
    decreases n,
{
    if n <= 0 {
        Seq::empty()
    } else {
        help_lines(commands, n - 1) + help_line(commands[n - 1])
    }
}

/// The text that the help command answers with: the bot's description
/// where it has one,
/// then one line for each command in registration order.
pub open spec fn help_text<B, X>(about: Option<String>, commands: Seq<Command<B, X>>) -> Seq<
    char,
> {
    match about {
        Some(a) => a@ + seq!['\n', '\n'] + help_lines(commands, commands.len() as int),
        None => help_lines(commands, commands.len() as int),
    }
}

/// Writes the text that the help command answers with.
pub fn help_command<B, X>(about: &Option<String>, commands: &Vec<Command<B, X>>) -> (r: String)
    ensures
        r@ == help_text(*about, commands@),
{
    let mut out = String::new();
    match about {
        Some(a) => {
            out.append(a.as_str());
            out.append("\n\n");
            proof {
                reveal_strlit("\n\n");
                assert("\n\n"@ =~= seq!['\n', '\n']);
            }
        },
        None => {},
    }
    let ghost head = out@;
    let mut i: usize = 0;
    while i < commands.len()
        invariant
            i <= commands@.len(),
            out@ == head + help_lines(commands@, i as int),
        decreases commands@.len() - i,
    {
        let command = &commands[i];
        let ghost before = out@;
        out.append(command.trigger.as_str());
        match &command.description {
            Some(d) => {
                out.append(": ");
                out.append(d.as_str());
                proof {
                    reveal_strlit(": ");
                    assert(": "@ =~= seq![':', ' ']);
                }
            },
            None => {},
        }
        out.append("\n");
        proof {
            reveal_strlit("\n");
            assert("\n"@ =~= seq!['\n']);
            assert(out@ =~= before + help_line(commands@[i as int]));
            assert(out@ =~= head + help_lines(commands@, i + 1));
        }
        i += 1;
    }
    assert(out@ =~= help_text(*about, commands@));
    out
}

} // verus!
