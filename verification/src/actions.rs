//! Output side: put a secret on the Wayland clipboard (`wl-copy`) or type it
//! (`wtype`). Values are always handed over on standard input, never as a process
//! argument.

use vstd::prelude::*;

use crate::duration::Duration;
use crate::entry::{token_models, CopyField, CopyFieldModel, TypeToken, TypeTokenModel, TypeTokenRef};
use crate::ipc::{event_model, Event, EventModel, IpcError, IpcErrorModel};
use crate::secret::{optional_text, Secret};
use crate::text::{join2, join3, optional_string, texts};

verus! {

// ---------------------------------------------------------------- commands

/// A process to run: its arguments are there for all to see, its input is not.
#[derive(Debug)]
pub struct Invocation {
    pub program: String,
    pub args: Vec<String>,
    /// What goes to the standard input, if anything does.
    pub input: Option<Secret>,
}

/// What a process is run with.
pub struct InvocationModel {
    pub program: Seq<char>,
    pub args: Seq<Seq<char>>,
    pub input: Option<Seq<char>>,
}

impl View for Invocation {
    type V = InvocationModel;

    open spec fn view(&self) -> InvocationModel {
        InvocationModel {
            program: self.program@,
            args: texts(self.args@),
            input: optional_text(self.input),
        }
    }
}

/// The process that puts a text on the clipboard.
pub open spec fn copy_command(value: Seq<char>, primary: bool) -> InvocationModel {
    InvocationModel {
        program: "wl-copy"@,
        args: if primary {
            seq!["--primary"@]
        } else {
            Seq::empty()
        },
        input: Some(value),
    }
}

/// The process that reads the clipboard.
pub open spec fn paste_command() -> InvocationModel {
    InvocationModel { program: "wl-paste"@, args: seq!["--no-newline"@], input: None }
}

/// The process that clears the clipboard.
pub open spec fn clear_command() -> InvocationModel {
    InvocationModel { program: "wl-copy"@, args: seq!["--clear"@], input: None }
}

/// The process that looks for a program on the search path.
pub open spec fn which_command(program: Seq<char>) -> InvocationModel {
    InvocationModel { program: "sh"@, args: seq!["-c"@, "command -v "@ + program], input: None }
}

/// The process that puts `value` on the clipboard.
pub fn wl_copy(value: &Secret, primary: bool) -> (command: Invocation)
    ensures
        command@ == copy_command(value@, primary),
{
    let mut args: Vec<String> = Vec::new();
    if primary {
        args.push("--primary".to_owned());
    }
    let command = Invocation {
        program: "wl-copy".to_owned(),
        args,
        input: Some(value.duplicate()),
    };
    assert(command@.args =~= copy_command(value@, primary).args);
    command
}

/// The process that reads the clipboard.
pub fn wl_paste() -> (command: Invocation)
    ensures
        command@ == paste_command(),
{
    let mut args: Vec<String> = Vec::new();
    args.push("--no-newline".to_owned());
    let command = Invocation { program: "wl-paste".to_owned(), args, input: None };
    assert(command@.args =~= paste_command().args);
    command
}

/// The process that clears the clipboard.
pub fn wl_clear() -> (command: Invocation)
    ensures
        command@ == clear_command(),
{
    let mut args: Vec<String> = Vec::new();
    args.push("--clear".to_owned());
    let command = Invocation { program: "wl-copy".to_owned(), args, input: None };
    assert(command@.args =~= clear_command().args);
    command
}

/// The process that looks for `program` on the search path.
pub fn which(program: &str) -> (command: Invocation)
    ensures
        command@ == which_command(program@),
{
    let mut args: Vec<String> = Vec::new();
    args.push("-c".to_owned());
    args.push(join2("command -v ", program));
    let command = Invocation { program: "sh".to_owned(), args, input: None };
    assert(command@.args =~= which_command(program@).args);
    command
}

/// The arguments of the process that fills the clipboard do not depend on the
/// secret: it goes to the standard input, and there alone.
pub proof fn law_copy_arguments_hide_the_secret(a: Seq<char>, b: Seq<char>, primary: bool)
    ensures
        copy_command(a, primary).program == copy_command(b, primary).program,
        copy_command(a, primary).args == copy_command(b, primary).args,
        copy_command(a, primary).input == Some(a),
{
}

// ---------------------------------------------------------------- clipboard

/// The clipboard, as the daemon uses it.
#[derive(Debug)]
pub struct Clipboard {
    /// Every copy bumps this. A scheduled wipe only fires if it still owns the
    /// latest generation, so a newer copy silently supersedes an older wipe.
    generation: u64,
}

impl View for Clipboard {
    type V = u64;

    /// The generation of the latest copy.
    closed spec fn view(&self) -> u64 {
        self.generation
    }
}

/// The generation that follows another.
pub open spec fn next_generation(generation: u64) -> u64 {
    ((generation + 1) % 0x1_0000_0000_0000_0000) as u64
}

/// A wipe of the clipboard that has been scheduled.
#[derive(Debug)]
pub struct PendingWipe {
    pub generation: u64,
    pub uuid: String,
    pub field: String,
    pub value: Secret,
    pub after: Duration,
}

/// What a scheduled wipe says.
pub struct PendingWipeModel {
    pub generation: u64,
    pub uuid: Seq<char>,
    pub field: Seq<char>,
    pub value: Seq<char>,
    pub after: nat,
}

impl View for PendingWipe {
    type V = PendingWipeModel;

    open spec fn view(&self) -> PendingWipeModel {
        PendingWipeModel {
            generation: self.generation,
            uuid: self.uuid@,
            field: self.field@,
            value: self.value@,
            after: self.after@,
        }
    }
}

/// A wipe that may have been scheduled.
pub open spec fn wipe_model(wipe: Option<PendingWipe>) -> Option<PendingWipeModel> {
    match wipe {
        Some(wipe) => Some(wipe@),
        None => None,
    }
}

/// The wipe that a copy schedules: none if the delay is zero.
pub open spec fn scheduled_wipe(
    generation: u64,
    uuid: Seq<char>,
    field: CopyFieldModel,
    value: Seq<char>,
    clear_after: nat,
) -> Option<PendingWipeModel> {
    if clear_after == 0 {
        None
    } else {
        Some(PendingWipeModel { generation, uuid, field: field.name(), value, after: clear_after })
    }
}

/// What a scheduled wipe does next.
#[derive(Debug, Clone, Copy, PartialEq, Eq, Structural)]
pub enum WipeStep {
    ReadClipboard,
    ClearClipboard,
    Leave,
}

impl PendingWipeModel {
    /// What the wipe does when its time has come, if `latest` is the generation
    /// of the latest copy.
    pub open spec fn due(self, latest: u64) -> WipeStep {
        if latest == self.generation {
            WipeStep::ReadClipboard
        } else {
            WipeStep::Leave
        }
    }

    /// What the wipe does once the clipboard has been read, if it could be.
    pub open spec fn checked(self, pasted: Option<Seq<char>>) -> WipeStep {
        if pasted == Some(self.value) {
            WipeStep::ClearClipboard
        } else {
            WipeStep::Leave
        }
    }

    /// What is announced once the clipboard has been cleared, if it could be.
    pub open spec fn announced(self, cleared: bool) -> Option<EventModel> {
        if cleared {
            Some(EventModel::ClipboardCleared { uuid: self.uuid, field: self.field })
        } else {
            None
        }
    }
}

impl Clipboard {
    /// A clipboard on which nothing has been put.
    pub fn new() -> (clipboard: Clipboard)
        ensures
            clipboard@ == 0,
    {
        Clipboard { generation: 0 }
    }

    /// Notes that `value` has been put on the clipboard, and schedules its wipe
    /// unless `clear_after` is zero.
    pub fn copy(&mut self, uuid: &str, field: &CopyField, value: Secret, clear_after: Duration) -> (
    wipe: Option<PendingWipe>)
        ensures
            final(self)@ == next_generation(old(self)@),
            wipe_model(wipe) == scheduled_wipe(
                next_generation(old(self)@),
                uuid@,
                field@,
                value@,
                clear_after@,
            ),
    {
        let generation: u64 = self.generation.wrapping_add(1);
        self.generation = generation;
        if clear_after.is_zero() {
            return None;
        }
        Some(
            PendingWipe {
                generation,
                uuid: uuid.to_owned(),
                field: field.as_str(),
                value,
                after: clear_after,
            },
        )
    }

    /// What a scheduled wipe does when its time has come.
    pub fn wipe_due(&self, wipe: &PendingWipe) -> (step: WipeStep)
        ensures
            step == wipe@.due(self@),
    {
        if self.generation == wipe.generation {
            WipeStep::ReadClipboard
        } else {
            WipeStep::Leave
        }
    }
}

impl PendingWipe {
    /// What the wipe does once the clipboard has been read: it is cleared only if
    /// it still holds exactly what was put there.
    pub fn wipe_checked(&self, pasted: &Option<Secret>) -> (step: WipeStep)
        ensures
            step == self@.checked(optional_text(*pasted)),
    {
        match pasted {
            Some(current) => if current.same_as(&self.value) {
                WipeStep::ClearClipboard
            } else {
                WipeStep::Leave
            },
            None => WipeStep::Leave,
        }
    }

    /// What is announced once the clipboard has been cleared.
    pub fn wipe_announced(&self, cleared: bool) -> (event: Option<Event>)
        ensures
            event_model(event) == self@.announced(cleared),
    {
        if cleared {
            Some(
                Event::ClipboardCleared { uuid: self.uuid.clone(), field: self.field.clone() },
            )
        } else {
            None
        }
    }
}

/// The generation after so many further copies.
pub open spec fn generation_after(generation: u64, copies: nat) -> u64
    decreases copies,
{
    if copies == 0 {
        generation
    } else {
        next_generation(generation_after(generation, (copies - 1) as nat))
    }
}

/// Generations count the copies, round the range of the counter.
proof fn lemma_generation_counts(generation: u64, copies: nat)
    ensures
        generation_after(generation, copies) == (generation + copies)
            % 0x1_0000_0000_0000_0000,
    decreases copies,
{
    if copies > 0 {
        lemma_generation_counts(generation, (copies - 1) as nat);
        let before = generation + copies - 1;
        assert((before % 0x1_0000_0000_0000_0000 + 1) % 0x1_0000_0000_0000_0000 == (before + 1)
            % 0x1_0000_0000_0000_0000) by (nonlinear_arith);
    }
}

/// A newer copy supersedes an older wipe, and without a newer copy the wipe goes
/// on to read the clipboard. The counter comes round after 2^64 copies, so fewer
/// than that are looked at.
pub proof fn law_newer_copy_supersedes_wipe(wipe: PendingWipeModel, copies: nat)
    requires
        copies < 0x1_0000_0000_0000_0000,
    ensures
        wipe.due(generation_after(wipe.generation, copies)) == if copies == 0 {
            WipeStep::ReadClipboard
        } else {
            WipeStep::Leave
        },
{
    lemma_generation_counts(wipe.generation, copies);
    let g = wipe.generation as int;
    let n = copies as int;
    let m = 0x1_0000_0000_0000_0000int;
    if copies > 0 {
        if g + n < m {
            assert((g + n) % m == g + n);
        } else {
            assert((g + n) % m == g + n - m);
        }
    }
}

/// A wipe clears nothing but what the daemon put on the clipboard, and is
/// announced only once the clipboard has been cleared.
pub proof fn law_wipe_clears_own_value_only(wipe: PendingWipeModel, pasted: Option<Seq<char>>)
    ensures
        wipe.checked(pasted) == WipeStep::ClearClipboard <==> pasted == Some(wipe.value),
        wipe.announced(false) is None,
        wipe.announced(true) == Some(
            EventModel::ClipboardCleared { uuid: wipe.uuid, field: wipe.field },
        ),
{
}

/// A copy is wiped unless the delay is zero, and what is announced of the wipe
/// does not depend on the secret.
pub proof fn law_wipe_is_scheduled_and_keeps_the_secret(
    generation: u64,
    uuid: Seq<char>,
    field: CopyFieldModel,
    a: Seq<char>,
    b: Seq<char>,
    clear_after: nat,
    cleared: bool,
)
    ensures
        match (
            scheduled_wipe(generation, uuid, field, a, clear_after),
            scheduled_wipe(generation, uuid, field, b, clear_after),
        ) {
            (Some(x), Some(y)) => clear_after > 0 && x.announced(cleared) == y.announced(cleared),
            (None, None) => clear_after == 0,
            _ => false,
        },
{
}

// ---------------------------------------------------------------- typing

/// One step of typing: a process to run, or a pause.
#[derive(Debug)]
pub enum TypeStep {
    Run(Invocation),
    Sleep(Duration),
}

/// What a step of typing does.
pub enum TypeStepModel {
    Run(InvocationModel),
    Sleep(nat),
}

impl View for TypeStep {
    type V = TypeStepModel;

    open spec fn view(&self) -> TypeStepModel {
        match self {
            TypeStep::Run(command) => TypeStepModel::Run(command@),
            TypeStep::Sleep(span) => TypeStepModel::Sleep(span@),
        }
    }
}

/// How a token is typed: text goes to the standard input of `wtype`, a key is
/// named in its arguments, a delay is a pause.
pub open spec fn typed(token: TypeTokenModel) -> TypeStepModel {
    match token {
        TypeTokenModel::Text(text) => TypeStepModel::Run(
            InvocationModel { program: "wtype"@, args: seq!["-s"@, "12"@, "-"@], input: Some(text) },
        ),
        TypeTokenModel::Key(key) => TypeStepModel::Run(
            InvocationModel { program: "wtype"@, args: seq!["-k"@, key], input: None },
        ),
        TypeTokenModel::Delay(span) => TypeStepModel::Sleep(span),
    }
}

/// How a token is typed.
pub fn type_token(token: &TypeToken) -> (step: TypeStep)
    ensures
        step@ == typed(token@),
{
    match token.expose() {
        TypeTokenRef::Text(text) => {
            let mut args: Vec<String> = Vec::new();
            args.push("-s".to_owned());
            args.push("12".to_owned());
            args.push("-".to_owned());
            let ghost list = texts(args@);
            assert(list =~= seq!["-s"@, "12"@, "-"@]);
            TypeStep::Run(
                Invocation {
                    program: "wtype".to_owned(),
                    args,
                    input: Some(Secret::new(text.to_owned())),
                },
            )
        },
        TypeTokenRef::Key(key) => {
            let mut args: Vec<String> = Vec::new();
            args.push("-k".to_owned());
            args.push(key.to_owned());
            let ghost list = texts(args@);
            assert(list =~= seq!["-k"@, key@]);
            TypeStep::Run(Invocation { program: "wtype".to_owned(), args, input: None })
        },
        TypeTokenRef::Delay(span) => TypeStep::Sleep(span),
    }
}

/// The arguments of the process that types a text do not depend on the text: it
/// goes to the standard input, and there alone.
pub proof fn law_typing_arguments_hide_the_text(a: Seq<char>, b: Seq<char>)
    ensures
        match (typed(TypeTokenModel::Text(a)), typed(TypeTokenModel::Text(b))) {
            (TypeStepModel::Run(x), TypeStepModel::Run(y)) => x.program == y.program && x.args
                == y.args && x.input == Some(a),
            _ => false,
        },
{
}

/// What went wrong with a process.
#[derive(Debug)]
pub enum RunFailure {
    Spawn,
    Stdin,
    Io(String),
    /// The process ended with this status.
    Exit(String),
}

/// What a failure says.
pub enum RunFailureModel {
    Spawn,
    Stdin,
    Io(Seq<char>),
    Exit(Seq<char>),
}

impl View for RunFailure {
    type V = RunFailureModel;

    open spec fn view(&self) -> RunFailureModel {
        match self {
            RunFailure::Spawn => RunFailureModel::Spawn,
            RunFailure::Stdin => RunFailureModel::Stdin,
            RunFailure::Io(why) => RunFailureModel::Io(why@),
            RunFailure::Exit(status) => RunFailureModel::Exit(status@),
        }
    }
}

/// How typing went.
#[derive(Debug)]
pub enum TypeOutcome {
    Typed,
    /// `wtype` was not found on the search path.
    NoWtype,
    TextFailed(RunFailure),
    /// The process for this key ended with a status, or could not be run at all.
    KeyFailed(String, Option<String>),
}

/// What is told of how typing went.
pub enum TypeOutcomeModel {
    Typed,
    NoWtype,
    TextFailed(RunFailureModel),
    KeyFailed(Seq<char>, Option<Seq<char>>),
}

impl View for TypeOutcome {
    type V = TypeOutcomeModel;

    open spec fn view(&self) -> TypeOutcomeModel {
        match self {
            TypeOutcome::Typed => TypeOutcomeModel::Typed,
            TypeOutcome::NoWtype => TypeOutcomeModel::NoWtype,
            TypeOutcome::TextFailed(failure) => TypeOutcomeModel::TextFailed(failure@),
            TypeOutcome::KeyFailed(key, status) => TypeOutcomeModel::KeyFailed(
                key@,
                optional_string(*status),
            ),
        }
    }
}

impl TypeOutcomeModel {
    /// The error that the outcome is answered with, if it is one.
    pub open spec fn error(self) -> Option<IpcErrorModel> {
        match self {
            TypeOutcomeModel::Typed => None,
            TypeOutcomeModel::NoWtype => Some(
                IpcErrorModel::Unsupported(
                    "wtype is not installed; install it or use `copy` instead of `type`"@,
                ),
            ),
            TypeOutcomeModel::TextFailed(failure) => Some(
                IpcErrorModel::IoError(
                    match failure {
                        RunFailureModel::Spawn => "spawning wtype"@,
                        RunFailureModel::Stdin => "wtype stdin"@,
                        RunFailureModel::Io(why) => why,
                        RunFailureModel::Exit(status) => "wtype exited with "@ + status,
                    },
                ),
            ),
            TypeOutcomeModel::KeyFailed(key, status) => Some(
                IpcErrorModel::IoError(
                    match status {
                        Some(status) => "wtype -k "@ + key + " exited with "@ + status,
                        None => "spawning wtype -k"@,
                    },
                ),
            ),
        }
    }
}

impl TypeOutcome {
    /// The error that the outcome is answered with, if it is one.
    pub fn error(&self) -> (error: Option<IpcError>)
        ensures
            match error {
                Some(error) => self@.error() == Some(error@),
                None => self@.error() is None,
            },
    {
        match self {
            TypeOutcome::Typed => None,
            TypeOutcome::NoWtype => Some(
                IpcError::Unsupported(
                    "wtype is not installed; install it or use `copy` instead of `type`".to_owned(),
                ),
            ),
            TypeOutcome::TextFailed(failure) => Some(
                IpcError::IoError(
                    match failure {
                        RunFailure::Spawn => "spawning wtype".to_owned(),
                        RunFailure::Stdin => "wtype stdin".to_owned(),
                        RunFailure::Io(why) => why.clone(),
                        RunFailure::Exit(status) => join2("wtype exited with ", status.as_str()),
                    },
                ),
            ),
            TypeOutcome::KeyFailed(key, status) => Some(
                IpcError::IoError(
                    match status {
                        Some(status) => {
                            let head: String = join3("wtype -k ", key.as_str(), " exited with ");
                            join2(head.as_str(), status.as_str())
                        },
                        None => "spawning wtype -k".to_owned(),
                    },
                ),
            ),
        }
    }
}

// ---------------------------------------------------------------- typing a sequence

/// What typing comes to next.
#[derive(Debug)]
pub enum Typing {
    /// Carry out this step.
    Step(TypeStep),
    /// The typing has come to an end.
    Done(TypeOutcome),
}

/// What typing comes to next.
pub enum TypingModel {
    Step(TypeStepModel),
    Done(TypeOutcomeModel),
}

impl View for Typing {
    type V = TypingModel;

    open spec fn view(&self) -> TypingModel {
        match self {
            Typing::Step(step) => TypingModel::Step(step@),
            Typing::Done(outcome) => TypingModel::Done(outcome@),
        }
    }
}

/// What the failure of a token is told as. A pause does not fail; what is told of
/// one counts as a failure of text.
pub open spec fn token_failed(token: TypeTokenModel, failure: RunFailureModel) -> TypeOutcomeModel {
    match token {
        TypeTokenModel::Key(key) => TypeOutcomeModel::KeyFailed(
            key,
            match failure {
                RunFailureModel::Exit(status) => Some(status),
                _ => None,
            },
        ),
        _ => TypeOutcomeModel::TextFailed(failure),
    }
}

/// What comes next when all tokens before `at` have been typed.
pub open spec fn typing_at(tokens: Seq<TypeTokenModel>, at: nat) -> TypingModel {
    if at < tokens.len() {
        TypingModel::Step(typed(tokens[at as int]))
    } else {
        TypingModel::Done(TypeOutcomeModel::Typed)
    }
}

/// How typing begins. Without `wtype` nothing is typed.
pub open spec fn typing_start(tokens: Seq<TypeTokenModel>, has_wtype: bool) -> TypingModel {
    if has_wtype {
        typing_at(tokens, 0)
    } else {
        TypingModel::Done(TypeOutcomeModel::NoWtype)
    }
}

/// What comes next when token `at` has been tried: the next one, or the end if it
/// failed.
pub open spec fn typing_next(
    tokens: Seq<TypeTokenModel>,
    at: nat,
    failure: Option<RunFailureModel>,
) -> TypingModel {
    match failure {
        Some(failure) => TypingModel::Done(token_failed(tokens[at as int], failure)),
        None => typing_at(tokens, at + 1),
    }
}

/// The failure in what came of a step, if there is one.
pub open spec fn failure_model(ran: Result<(), RunFailure>) -> Option<RunFailureModel> {
    match ran {
        Ok(_) => None,
        Err(failure) => Some(failure@),
    }
}

/// A sequence that is being typed.
#[derive(Debug)]
pub struct TypeRun {
    tokens: Vec<TypeToken>,
    at: usize,
}

/// Where the typing of a sequence stands.
pub struct TypeRunModel {
    pub tokens: Seq<TypeTokenModel>,
    /// The token that is being tried.
    pub at: nat,
}

impl View for TypeRun {
    type V = TypeRunModel;

    closed spec fn view(&self) -> TypeRunModel {
        TypeRunModel { tokens: token_models(self.tokens@), at: self.at as nat }
    }
}

impl TypeRunModel {
    /// No token is being tried.
    pub open spec fn over(self) -> bool {
        self.at >= self.tokens.len()
    }
}

impl TypeRun {
    /// Begins to type `tokens`, if `wtype` is there.
    pub fn start(tokens: Vec<TypeToken>, has_wtype: bool) -> (run: (TypeRun, Typing))
        ensures
            run.0@.tokens == token_models(tokens@),
            run.1@ == typing_start(token_models(tokens@), has_wtype),
            run.1 is Step ==> run.0@.at == 0 && !run.0@.over(),
            run.1 is Done ==> run.0@.over(),
    {
        if !has_wtype {
            let at: usize = tokens.len();
            return (TypeRun { tokens, at }, Typing::Done(TypeOutcome::NoWtype));
        }
        if tokens.len() == 0 {
            return (TypeRun { tokens, at: 0 }, Typing::Done(TypeOutcome::Typed));
        }
        let step: TypeStep = type_token(&tokens[0]);
        (TypeRun { tokens, at: 0 }, Typing::Step(step))
    }

    /// Whether no token is being tried.
    pub fn is_over(&self) -> (over: bool)
        ensures
            over == self@.over(),
    {
        self.at >= self.tokens.len()
    }

    /// Takes in what came of the token that is being tried.
    pub fn next(&mut self, ran: Result<(), RunFailure>) -> (typing: Typing)
        requires
            !old(self)@.over(),
        ensures
            final(self)@.tokens == old(self)@.tokens,
            typing@ == typing_next(old(self)@.tokens, old(self)@.at, failure_model(ran)),
            typing is Step ==> final(self)@.at == old(self)@.at + 1 && !final(self)@.over(),
            typing is Done ==> final(self)@.over(),
    {
        assert(self@.tokens.len() == self.tokens.len());
        match ran {
            Ok(_) => {
                self.at = self.at + 1;
                if self.at < self.tokens.len() {
                    Typing::Step(type_token(&self.tokens[self.at]))
                } else {
                    Typing::Done(TypeOutcome::Typed)
                }
            },
            Err(failure) => {
                let outcome: TypeOutcome = match &self.tokens[self.at] {
                    TypeToken::Key(key) => TypeOutcome::KeyFailed(
                        key.clone(),
                        match failure {
                            RunFailure::Exit(status) => Some(status),
                            _ => None,
                        },
                    ),
                    _ => TypeOutcome::TextFailed(failure),
                };
                self.at = self.tokens.len();
                Typing::Done(outcome)
            },
        }
    }
}

/// Begins to type a resolved sequence, if `wtype` is there.
pub fn type_tokens(tokens: Vec<TypeToken>, has_wtype: bool) -> (run: (TypeRun, Typing))
    ensures
        run.0@.tokens == token_models(tokens@),
        run.1@ == typing_start(token_models(tokens@), has_wtype),
        run.1 is Step ==> run.0@.at == 0 && !run.0@.over(),
        run.1 is Done ==> run.0@.over(),
{
    TypeRun::start(tokens, has_wtype)
}

/// The number of tokens that are tried from token `at` on, and how the typing ends,
/// if `ran` is what comes of each token.
pub open spec fn typing_end(
    tokens: Seq<TypeTokenModel>,
    at: nat,
    ran: spec_fn(nat) -> Option<RunFailureModel>,
) -> (nat, TypeOutcomeModel)
    decreases tokens.len() - at,
{
    if at >= tokens.len() {
        (0, TypeOutcomeModel::Typed)
    } else {
        match typing_next(tokens, at, ran(at)) {
            TypingModel::Done(outcome) => (1, outcome),
            TypingModel::Step(_) => {
                let rest = typing_end(tokens, at + 1, ran);
                ((rest.0 + 1) as nat, rest.1)
            },
        }
    }
}

/// Tokens that are typed are passed over.
proof fn lemma_typed_tokens_pass(
    tokens: Seq<TypeTokenModel>,
    at: nat,
    until: nat,
    ran: spec_fn(nat) -> Option<RunFailureModel>,
)
    requires
        at <= until < tokens.len(),
        forall|i: nat| at <= i < until ==> (#[trigger] ran(i)) is None,
    ensures
        typing_end(tokens, at, ran).0 == until - at + typing_end(tokens, until, ran).0,
        typing_end(tokens, at, ran).1 == typing_end(tokens, until, ran).1,
    decreases until - at,
{
    if at < until {
        assert(ran(at) is None);
        lemma_typed_tokens_pass(tokens, at + 1, until, ran);
    }
}

/// The first token that fails ends the typing with its failure, and no later one
/// acts.
pub proof fn law_first_failure_ends_typing(
    tokens: Seq<TypeTokenModel>,
    first: nat,
    ran: spec_fn(nat) -> Option<RunFailureModel>,
)
    requires
        first < tokens.len(),
        forall|i: nat| i < first ==> (#[trigger] ran(i)) is None,
        ran(first) is Some,
    ensures
        typing_end(tokens, 0, ran) == (
            (first + 1) as nat,
            token_failed(tokens[first as int], ran(first).unwrap()),
        ),
{
    lemma_typed_tokens_pass(tokens, 0, first, ran);
}

/// The typing succeeds if and only if every token does, and then each has acted.
pub proof fn law_typed_means_all_typed(
    tokens: Seq<TypeTokenModel>,
    ran: spec_fn(nat) -> Option<RunFailureModel>,
)
    ensures
        typing_end(tokens, 0, ran).1 == TypeOutcomeModel::Typed <==> forall|i: nat|
            i < tokens.len() ==> (#[trigger] ran(i)) is None,
        typing_end(tokens, 0, ran).1 == TypeOutcomeModel::Typed ==> typing_end(tokens, 0, ran).0
            == tokens.len(),
{
    lemma_typed_from(tokens, 0, ran);
}

/// The same from token `at` on.
proof fn lemma_typed_from(
    tokens: Seq<TypeTokenModel>,
    at: nat,
    ran: spec_fn(nat) -> Option<RunFailureModel>,
)
    requires
        at <= tokens.len(),
    ensures
        typing_end(tokens, at, ran).1 == TypeOutcomeModel::Typed <==> forall|i: nat|
            at <= i < tokens.len() ==> (#[trigger] ran(i)) is None,
        typing_end(tokens, at, ran).1 == TypeOutcomeModel::Typed ==> typing_end(tokens, at, ran).0
            == tokens.len() - at,
    decreases tokens.len() - at,
{
    if at < tokens.len() {
        lemma_typed_from(tokens, at + 1, ran);
        if at + 1 == tokens.len() && ran(at) is None {
            assert forall|i: nat| at <= i < tokens.len() implies (#[trigger] ran(i)) is None by {
                assert(i == at);
            }
        }
    }
}

/// Without `wtype` nothing is typed.
pub proof fn law_nothing_is_typed_without_wtype(tokens: Seq<TypeTokenModel>)
    ensures
        typing_start(tokens, false) == TypingModel::Done(TypeOutcomeModel::NoWtype),
{
}

} // verus!
