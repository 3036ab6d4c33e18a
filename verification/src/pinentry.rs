//! The dialog with an Assuan `pinentry`, which collects the master password.

use vstd::prelude::*;

use crate::config::{Config, ConfigModel, VaultConfig, VaultConfigModel};
use crate::paths::{file_name, file_name_of, shown};
use crate::secret::{duplicate_optional, optional_text, Secret};
use crate::text::{
    after_prefix, contains_text, find_from, has_prefix, join2, join3, lowercase, same_text,
    strip_prefix, texts, to_lower,
};

verus! {

/// The program that shows the dialog: the one in the settings, if it is not empty.
pub open spec fn pinentry_program(config: ConfigModel) -> Seq<char> {
    match config.pinentry_program {
        Some(program) if program.len() > 0 => program,
        _ => "pinentry"@,
    }
}

/// The file that is unlocked, as the dialog names it.
pub open spec fn shown_file(vault: VaultConfigModel) -> Seq<char> {
    match file_name_of(vault.path) {
        Some(name) => shown(name),
        None => vault.name,
    }
}

/// What is asked of the program, in order. Its answer to the last is the password.
pub open spec fn prompt_commands(vault: VaultConfigModel) -> Seq<Seq<char>> {
    seq![
        "SETTITLE Omarkey — "@ + vault.name,
        "SETDESC Unlock the KeePass vault ("@ + shown_file(vault) + ")"@,
        "SETPROMPT "@ + vault.name + ":"@,
        "GETPIN"@,
    ]
}

/// An error of the program, which is `low` in lower case, says that the user turned
/// the dialog away: by its number or in words.
pub open spec fn is_cancellation(error: Seq<char>, low: Seq<char>) -> bool {
    find_from(error, "83886179"@, 0) is Some || find_from(low, "cancel"@, 0) is Some
}

/// What the daemon makes of an error of the program, which is `low` in lower case.
pub open spec fn prompt_error(error: Seq<char>, low: Seq<char>) -> Seq<char> {
    if is_cancellation(error, low) {
        "cancelled"@
    } else {
        "pinentry error: "@ + error
    }
}

/// Where a dialog stands.
pub enum Heard {
    /// The program has yet to answer command `at`, and has given `pin` for it.
    More(nat, Option<Seq<char>>),
    /// The password.
    Got(Seq<char>),
    /// Why there is none.
    Failed(Seq<char>),
}

/// Where a dialog of `count` commands stands after another line of the program,
/// if it stood at command `at` with `pin`.
pub open spec fn heard(count: nat, at: nat, pin: Option<Seq<char>>, line: Seq<char>) -> Heard {
    match after_prefix(line, "D "@) {
        Some(data) => Heard::More(at, Some(data)),
        None => if line == "OK"@ || has_prefix(line, "OK "@) {
            if at + 1 < count {
                Heard::More(at + 1, None)
            } else {
                match pin {
                    Some(pin) => Heard::Got(pin),
                    None => Heard::Failed("pinentry returned no PIN"@),
                }
            }
        } else {
            match after_prefix(line, "ERR "@) {
                Some(error) => Heard::Failed(prompt_error(error, lowercase(error))),
                None => Heard::More(at, pin),
            }
        },
    }
}

/// Where a dialog stands after some lines of the program.
pub open spec fn conversation(
    count: nat,
    at: nat,
    pin: Option<Seq<char>>,
    lines: Seq<Seq<char>>,
) -> Heard
    decreases lines.len(),
{
    if lines.len() == 0 {
        Heard::More(at, pin)
    } else {
        match heard(count, at, pin, lines[0]) {
            Heard::More(at, pin) => conversation(count, at, pin, lines.skip(1)),
            end => end,
        }
    }
}

/// A dialog in progress.
#[derive(Debug)]
pub struct Prompt {
    commands: Vec<String>,
    at: usize,
    pin: Option<Secret>,
}

/// Where a dialog in progress stands.
pub struct PromptModel {
    pub commands: Seq<Seq<char>>,
    pub at: nat,
    pub pin: Option<Seq<char>>,
}

impl View for Prompt {
    type V = PromptModel;

    closed spec fn view(&self) -> PromptModel {
        PromptModel {
            commands: texts(self.commands@),
            at: self.at as nat,
            pin: optional_text(self.pin),
        }
    }
}

/// What the daemon does next in a dialog.
#[derive(Debug)]
pub enum PromptStep {
    /// Wait for another line.
    Wait,
    /// Send this command.
    Send(String),
    /// The password has been given.
    Done(Secret),
    /// There is no password, and why.
    Failed(String),
}

/// The program to run for the dialog.
pub fn program(config: &Config) -> (program: String)
    ensures
        program@ == pinentry_program(config@),
{
    match &config.pinentry_program {
        Some(program) => if program.as_str().is_empty() {
            "pinentry".to_owned()
        } else {
            program.clone()
        },
        None => "pinentry".to_owned(),
    }
}

/// What the daemon makes of an error of the program, which is `low` in lower case.
pub fn read_error(error: &str, low: &str) -> (message: String)
    ensures
        message@ == prompt_error(error@, low@),
{
    if contains_text(error, "83886179") || contains_text(low, "cancel") {
        "cancelled".to_owned()
    } else {
        join2("pinentry error: ", error)
    }
}

impl Prompt {
    #[verifier::type_invariant]
    spec fn talking(self) -> bool {
        self.at < self.commands.len()
    }

    /// The dialog that asks for the master password of `vault`.
    pub fn new(vault: &VaultConfig) -> (prompt: Prompt)
        ensures
            prompt@ == (PromptModel { commands: prompt_commands(vault@), at: 0, pin: None }),
    {
        let file: String = match file_name(&vault.path) {
            Some(name) => name.display(),
            None => vault.name.clone(),
        };
        let mut commands: Vec<String> = Vec::new();
        commands.push(join2("SETTITLE Omarkey — ", vault.name.as_str()));
        commands.push(join3("SETDESC Unlock the KeePass vault (", file.as_str(), ")"));
        commands.push(join3("SETPROMPT ", vault.name.as_str(), ":"));
        commands.push("GETPIN".to_owned());
        assert(texts(commands@) =~= prompt_commands(vault@));
        Prompt { commands, at: 0, pin: None }
    }

    /// The command that the program has to answer.
    pub fn command(&self) -> (command: &str)
        ensures
            self@.at < self@.commands.len(),
            command@ == self@.commands[self@.at as int],
    {
        proof {
            use_type_invariant(self);
        }
        self.commands[self.at].as_str()
    }

    /// Takes in another line of the program.
    pub fn hear(&mut self, line: &str) -> (step: PromptStep)
        ensures
            final(self)@.commands == old(self)@.commands,
            match heard(old(self)@.commands.len(), old(self)@.at, old(self)@.pin, line@) {
                Heard::More(at, pin) => {
                    &&& final(self)@.at == at
                    &&& final(self)@.pin == pin
                    &&& match step {
                        PromptStep::Wait => at == old(self)@.at,
                        PromptStep::Send(command) => at != old(self)@.at && at
                            < old(self)@.commands.len() && command@ == old(
                            self,
                        )@.commands[at as int],
                        _ => false,
                    }
                },
                Heard::Got(pin) => step matches PromptStep::Done(secret) && secret@ == pin,
                Heard::Failed(why) => step matches PromptStep::Failed(message) && message@ == why,
            },
    {
        proof {
            use_type_invariant(&*self);
        }
        if let Some(data) = strip_prefix(line, "D ") {
            self.pin = Some(Secret::new(data));
            return PromptStep::Wait;
        }
        if same_text(line, "OK") || strip_prefix(line, "OK ").is_some() {
            if self.at + 1 < self.commands.len() {
                self.at = self.at + 1;
                self.pin = None;
                return PromptStep::Send(self.commands[self.at].clone());
            }
            return match duplicate_optional(&self.pin) {
                Some(pin) => PromptStep::Done(pin),
                None => PromptStep::Failed("pinentry returned no PIN".to_owned()),
            };
        }
        match strip_prefix(line, "ERR ") {
            Some(error) => {
                let low: String = to_lower(error.as_str());
                PromptStep::Failed(read_error(error.as_str(), low.as_str()))
            },
            None => PromptStep::Wait,
        }
    }

    /// What the daemon does when the program ends the dialog of its own accord.
    pub fn closed(&self) -> (why: String)
        ensures
            why@ == "pinentry closed unexpectedly"@,
    {
        "pinentry closed unexpectedly".to_owned()
    }
}

/// A program that agrees to everything and gives a password for the last command
/// makes the daemon take exactly that password.
pub proof fn law_password_is_collected(vault: VaultConfigModel, pin: Seq<char>)
    ensures
        conversation(
            prompt_commands(vault).len(),
            0,
            None,
            seq!["OK"@, "OK"@, "OK"@, "D "@ + pin, "OK"@],
        ) == Heard::Got(pin),
{
    reveal_strlit("OK");
    reveal_strlit("D ");
    reveal_with_fuel(conversation, 6);
    assert("OK"@.take(2)[0] == 'O');
    assert("D "@[0] == 'D');
    assert(after_prefix("OK"@, "D "@) is None);
    let lines = seq!["OK"@, "OK"@, "OK"@, "D "@ + pin, "OK"@];
    assert(("D "@ + pin).take(2) =~= "D "@);
    assert(("D "@ + pin).skip(2) =~= pin);
    assert(lines.skip(1) =~= seq!["OK"@, "OK"@, "D "@ + pin, "OK"@]);
    assert(lines.skip(1).skip(1) =~= seq!["OK"@, "D "@ + pin, "OK"@]);
    assert(lines.skip(1).skip(1).skip(1) =~= seq!["D "@ + pin, "OK"@]);
    assert(lines.skip(1).skip(1).skip(1).skip(1) =~= seq!["OK"@]);
}

/// A password counts only for the command that it answers: one that comes before
/// the last command was sent is forgotten.
pub proof fn law_early_password_is_forgotten(
    count: nat,
    at: nat,
    pin: Option<Seq<char>>,
    line: Seq<char>,
)
    requires
        at + 1 < count,
    ensures
        match heard(count, at, pin, line) {
            Heard::More(next, kept) => next != at ==> next == at + 1 && kept is None,
            Heard::Got(_) => false,
            Heard::Failed(_) => true,
        },
{
}

/// A program that reports a cancellation makes the daemon give up as cancelled,
/// wherever the dialog stands.
pub proof fn law_cancellation_ends_the_dialog(
    count: nat,
    at: nat,
    pin: Option<Seq<char>>,
    error: Seq<char>,
)
    requires
        is_cancellation(error, lowercase(error)),
    ensures
        heard(count, at, pin, "ERR "@ + error) == Heard::Failed("cancelled"@),
{
    reveal_strlit("ERR ");
    reveal_strlit("OK");
    reveal_strlit("OK ");
    reveal_strlit("D ");
    let line = "ERR "@ + error;
    assert(line.take(4) =~= "ERR "@);
    assert(line.skip(4) =~= error);
    assert(line[0] == 'E');
    assert("OK"@[0] == 'O');
    assert(line.take(3)[0] == 'E');
    assert(line.take(2)[0] == 'E');
}

} // verus!
