//! What a session imports, and when an import is refused.
use vstd::prelude::*;

use crate::error::{ErrorModel, ReplError};
use crate::regions::ImportDiff;
use crate::repl::PartsId;
use crate::text::{ends_with, join, joined, texts};

verus! {

/// Where the environment of a session comes from.
#[derive(Clone, Debug, PartialEq, Eq)]
pub enum ImportRequest {
    /// The prelude, and then the commands of the source file at `path`.
    File { path: String },
    /// The compiled module `name`.
    Module { name: String },
}

/// An [`ImportRequest`] with its texts.
#[verifier::ext_equal]
pub enum RequestModel {
    File { path: Seq<char> },
    Module { name: Seq<char> },
}

impl View for ImportRequest {
    type V = RequestModel;

    open spec fn view(&self) -> RequestModel {
        match *self {
            ImportRequest::File { path } => RequestModel::File { path: path@ },
            ImportRequest::Module { name } => RequestModel::Module { name: name@ },
        }
    }
}

/// What a session asked for by `module` imports: a source file where the name ends in `.lean`,
/// else the module of that name, and `Lean` where none is named.
pub open spec fn request_model(module: Option<Seq<char>>) -> RequestModel {
    match module {
        Some(m) => if ".lean"@.is_suffix_of(m) {
            RequestModel::File { path: m }
        } else {
            RequestModel::Module { name: m }
        },
        None => RequestModel::Module { name: "Lean"@ },
    }
}

impl RequestModel {
    /// The compiled modules that have to be imported. A source file is elaborated on top of the
    /// prelude.
    pub open spec fn modules(self) -> Seq<Seq<char>> {
        match self {
            RequestModel::File { .. } => seq!["Lean"@],
            RequestModel::Module { name } => seq![name],
        }
    }
}

/// Decides what to import.
pub fn import_request(module: Option<String>) -> (r: ImportRequest)
    ensures
        r@ == request_model(crate::regions::option_text(module)),
{
    match module {
        Some(m) => if ends_with(m.as_str(), ".lean") {
            ImportRequest::File { path: m }
        } else {
            ImportRequest::Module { name: m }
        },
        None => ImportRequest::Module { name: "Lean".to_owned() },
    }
}

impl ImportRequest {
    /// The compiled modules that have to be imported.
    pub fn modules(&self) -> (r: Vec<String>)
        ensures
            texts(r@) == self@.modules(),
    {
        let mut out: Vec<String> = Vec::new();
        match self {
            ImportRequest::File { .. } => {
                out.push("Lean".to_owned());
            },
            ImportRequest::Module { name } => {
                out.push(name.clone());
            },
        }
        assert(texts(out@) =~= self@.modules());
        out
    }
}

/// How the standard library's `Debug` shows a list of strings.
pub uninterp spec fn debug_list(names: Seq<Seq<char>>) -> Seq<char>;

/// Formats a list of names with `{:?}`, the standard library's `Debug` for `Vec<String>`:
/// bracketed, comma-separated, each name quoted and escaped. The result is named, not spelled
/// out, because the escapes follow Unicode tables.
#[verifier::external_body]
fn format_names(names: &Vec<String>) -> (r: String)
    ensures
        r@ == debug_list(texts(names@)),
{
    format!("{:?}", names)
}

/// The refusal of an import, given the module list as it is shown and what could not be mapped
/// again.
pub fn import_blocked(importing: String, errors: &Vec<String>) -> (r: ReplError)
    ensures
        r matches ReplError::ImportBlocked { importing: shown, reasons } && shown@ == importing@
            && reasons@ == joined(texts(errors@), "; "@),
{
    ReplError::ImportBlocked { importing, reasons: join(errors, "; ") }
}

/// Refuses an import of `importing` if the regions freed by other imports could not all be
/// mapped again: going on would let the runtime follow pointers into them.
pub fn block_on_remap(importing: &Vec<String>, remapped: Result<(), Vec<String>>) -> (r: Result<
    (),
    ReplError,
>)
    ensures
        r is Ok <==> remapped is Ok,
        match (remapped, r) {
            (Err(errors), Err(e)) => e matches ReplError::ImportBlocked { importing: shown, reasons }
                && shown@ == debug_list(texts(importing@)) && reasons@ == joined(
                texts(errors@),
                "; "@,
            ),
            _ => true,
        },
{
    match remapped {
        Ok(_) => Ok(()),
        Err(errors) => Err(import_blocked(format_names(importing), &errors)),
    }
}

/// What has to be done next to open a session.
#[derive(Clone, Debug, PartialEq, Eq)]
pub enum OpenStep {
    /// Read the source file.
    ReadFile { path: String },
    /// Map the regions again that imports of other modules freed.
    Remap { modules: Vec<String> },
    /// Import the modules, noting the process's mappings first.
    Import { modules: Vec<String> },
    /// Parse the source file in the environment so far.
    ParseFile { path: String },
    /// Run a command of the source file in the environment so far.
    RunCommand { index: usize },
    /// Note the mappings again and set up the elaborator on the environment so far.
    SetUp,
    /// Nothing: the session is open or refused.
    Done,
}

/// What came of a step. `E` is the type of environments.
#[derive(Debug)]
pub enum OpenEvent<E> {
    /// The file was read.
    Read { source: Result<(), String> },
    /// The regions are mapped again, or why each of some is not.
    Remapped { regions: Result<(), Vec<String>> },
    /// The modules are imported into this environment.
    Imported { environment: Result<E, String> },
    /// The file holds this many commands.
    Parsed { commands: Result<usize, String> },
    /// The command left this environment.
    Ran { environment: Result<E, String> },
    /// The mappings changed like this, if that can be told, and the elaborator is set up.
    SetUp { window: Option<ImportDiff>, parts: Result<PartsId, String> },
}

/// How far an opening has come.
#[derive(Debug)]
enum Phase<E> {
    Reading,
    Remapping,
    Importing,
    Parsing { environment: E },
    Running { environment: E, next: usize, total: usize },
    SettingUp { environment: E },
    Opened { environment: E, window: Option<ImportDiff>, parts: PartsId },
    Refused { error: ReplError },
}

/// A session that is being opened: the steps of its import, in order, until one fails.
#[derive(Debug)]
pub struct Opening<E> {
    request: ImportRequest,
    phase: Phase<E>,
}

/// How far an opening has come. An environment is what the steps so far have left.
#[verifier::ext_equal]
pub enum PhaseModel<E> {
    Reading,
    Remapping,
    Importing,
    Parsing { environment: E },
    Running { environment: E, next: int, total: int },
    SettingUp { environment: E },
    Opened { environment: E, window: Option<ImportDiff>, parts: PartsId },
    Refused { error: ErrorModel },
}

/// The contents of an [`Opening`].
#[verifier::ext_equal]
pub struct OpeningModel<E> {
    pub request: RequestModel,
    pub phase: PhaseModel<E>,
}

impl<E> Phase<E> {
    spec fn model(self) -> PhaseModel<E> {
        match self {
            Phase::Reading => PhaseModel::Reading,
            Phase::Remapping => PhaseModel::Remapping,
            Phase::Importing => PhaseModel::Importing,
            Phase::Parsing { environment } => PhaseModel::Parsing { environment },
            Phase::Running { environment, next, total } => PhaseModel::Running {
                environment,
                next: next as int,
                total: total as int,
            },
            Phase::SettingUp { environment } => PhaseModel::SettingUp { environment },
            Phase::Opened { environment, window, parts } => PhaseModel::Opened {
                environment,
                window,
                parts,
            },
            Phase::Refused { error } => PhaseModel::Refused { error: error@ },
        }
    }
}

impl<E> View for Opening<E> {
    type V = OpeningModel<E>;

    closed spec fn view(&self) -> OpeningModel<E> {
        OpeningModel { request: self.request@, phase: self.phase.model() }
    }
}

/// The phase in which the `next`-th of `total` commands is due in `environment`.
pub open spec fn command_phase<E>(environment: E, next: int, total: int) -> PhaseModel<E> {
    if next < total {
        PhaseModel::Running { environment, next, total }
    } else {
        PhaseModel::SettingUp { environment }
    }
}

impl RequestModel {
    /// The path of the source file.
    pub open spec fn path(self) -> Seq<char> {
        match self {
            RequestModel::File { path } => path,
            RequestModel::Module { .. } => Seq::empty(),
        }
    }
}

impl<E> OpeningModel<E> {
    /// An opening of which no step is done.
    pub open spec fn start(module: Option<Seq<char>>) -> OpeningModel<E> {
        let request = request_model(module);
        OpeningModel {
            request,
            phase: match request {
                RequestModel::File { .. } => PhaseModel::Reading,
                RequestModel::Module { .. } => PhaseModel::Remapping,
            },
        }
    }

    /// The phase after `event`. What came of a step that was not due counts for nothing.
    pub open spec fn phase_after(self, event: OpenEvent<E>) -> PhaseModel<E> {
        match (self.phase, event) {
            (PhaseModel::Reading, OpenEvent::Read { source }) => match source {
                Ok(_) => PhaseModel::Remapping,
                Err(why) => PhaseModel::Refused {
                    error: ErrorModel::CannotRead { path: self.request.path(), reason: why@ },
                },
            },
            (PhaseModel::Remapping, OpenEvent::Remapped { regions }) => match regions {
                Ok(_) => PhaseModel::Importing,
                Err(errors) => PhaseModel::Refused {
                    error: ErrorModel::ImportBlocked {
                        importing: debug_list(self.request.modules()),
                        reasons: joined(texts(errors@), "; "@),
                    },
                },
            },
            (PhaseModel::Importing, OpenEvent::Imported { environment }) => match environment {
                Ok(env) => match self.request {
                    RequestModel::File { .. } => PhaseModel::Parsing { environment: env },
                    RequestModel::Module { .. } => PhaseModel::SettingUp { environment: env },
                },
                Err(why) => PhaseModel::Refused { error: ErrorModel::Lean { message: why@ } },
            },
            (PhaseModel::Parsing { environment }, OpenEvent::Parsed { commands }) => match commands {
                Ok(total) => command_phase(environment, 0, total as int),
                Err(why) => PhaseModel::Refused { error: ErrorModel::Lean { message: why@ } },
            },
            (PhaseModel::Running { next, total, .. }, OpenEvent::Ran { environment }) => {
                match environment {
                    Ok(env) => command_phase(env, next + 1, total),
                    Err(why) => PhaseModel::Refused { error: ErrorModel::Lean { message: why@ } },
                }
            },
            (PhaseModel::SettingUp { environment }, OpenEvent::SetUp { window, parts }) => {
                match parts {
                    Ok(p) => PhaseModel::Opened { environment, window, parts: p },
                    Err(why) => PhaseModel::Refused { error: ErrorModel::Lean { message: why@ } },
                }
            },
            _ => self.phase,
        }
    }

    /// The opening after `event`.
    pub open spec fn after(self, event: OpenEvent<E>) -> OpeningModel<E> {
        OpeningModel { request: self.request, phase: self.phase_after(event) }
    }

    /// The opening after several events.
    pub open spec fn after_all(self, events: Seq<OpenEvent<E>>) -> OpeningModel<E>
        decreases events.len(),
    {
        if events.len() == 0 {
            self
        } else {
            self.after_all(events.drop_last()).after(events.last())
        }
    }

    /// The environment that the steps so far have left, if there is one yet.
    pub open spec fn environment(self) -> Option<E> {
        match self.phase {
            PhaseModel::Parsing { environment } => Some(environment),
            PhaseModel::Running { environment, .. } => Some(environment),
            PhaseModel::SettingUp { environment } => Some(environment),
            PhaseModel::Opened { environment, .. } => Some(environment),
            _ => None,
        }
    }

    /// `step` is what this opening has to do next.
    pub open spec fn is_due(self, step: OpenStep) -> bool {
        match self.phase {
            PhaseModel::Reading => step matches OpenStep::ReadFile { path } && path@
                == self.request.path(),
            PhaseModel::Remapping => step matches OpenStep::Remap { modules } && texts(modules@)
                == self.request.modules(),
            PhaseModel::Importing => step matches OpenStep::Import { modules } && texts(modules@)
                == self.request.modules(),
            PhaseModel::Parsing { .. } => step matches OpenStep::ParseFile { path } && path@
                == self.request.path(),
            PhaseModel::Running { next, .. } => step matches OpenStep::RunCommand { index } && index
                == next,
            PhaseModel::SettingUp { .. } => step is SetUp,
            _ => step is Done,
        }
    }
}

impl ImportRequest {
    /// The path of the source file; empty for a module.
    fn path(&self) -> (r: String)
        ensures
            r@ == self@.path(),
    {
        match self {
            ImportRequest::File { path } => path.clone(),
            ImportRequest::Module { .. } => {
                let empty = String::new();
                assert(empty@ =~= Seq::empty());
                empty
            },
        }
    }
}

impl<E> Opening<E> {
    /// Starts to open a session on `module` (`Lean` where none is named, a source file where the
    /// name ends in `.lean`).
    pub fn start(module: Option<String>) -> (r: Opening<E>)
        ensures
            r@ == OpeningModel::<E>::start(crate::regions::option_text(module)),
    {
        let request = import_request(module);
        let phase = match &request {
            ImportRequest::File { .. } => Phase::Reading,
            ImportRequest::Module { .. } => Phase::Remapping,
        };
        Opening { request, phase }
    }

    /// What has to be done next.
    pub fn next_step(&self) -> (r: OpenStep)
        ensures
            self@.is_due(r),
    {
        match &self.phase {
            Phase::Reading => OpenStep::ReadFile { path: self.request.path() },
            Phase::Remapping => OpenStep::Remap { modules: self.request.modules() },
            Phase::Importing => OpenStep::Import { modules: self.request.modules() },
            Phase::Parsing { .. } => OpenStep::ParseFile { path: self.request.path() },
            Phase::Running { next, .. } => OpenStep::RunCommand { index: *next },
            Phase::SettingUp { .. } => OpenStep::SetUp,
            Phase::Opened { .. } => OpenStep::Done,
            Phase::Refused { .. } => OpenStep::Done,
        }
    }

    /// The environment that the steps so far have left: the one that the next step works in.
    pub fn environment(&self) -> (r: Option<&E>)
        ensures
            match r {
                Some(env) => self@.environment() == Some(*env),
                None => self@.environment() is None,
            },
    {
        match &self.phase {
            Phase::Parsing { environment } => Some(environment),
            Phase::Running { environment, .. } => Some(environment),
            Phase::SettingUp { environment } => Some(environment),
            Phase::Opened { environment, .. } => Some(environment),
            _ => None,
        }
    }

    /// Takes in what came of a step.
    pub fn advance(self, event: OpenEvent<E>) -> (r: Opening<E>)
        ensures
            r@ == self@.after(event),
    {
        let Opening { request, phase } = self;
        let phase = match (phase, event) {
            (Phase::Reading, OpenEvent::Read { source }) => match source {
                Ok(_) => Phase::Remapping,
                Err(reason) => Phase::Refused {
                    error: ReplError::CannotRead { path: request.path(), reason },
                },
            },
            (Phase::Remapping, OpenEvent::Remapped { regions }) => match block_on_remap(
                &request.modules(),
                regions,
            ) {
                Ok(_) => Phase::Importing,
                Err(error) => Phase::Refused { error },
            },
            (Phase::Importing, OpenEvent::Imported { environment }) => match environment {
                Ok(environment) => match &request {
                    ImportRequest::File { .. } => Phase::Parsing { environment },
                    ImportRequest::Module { .. } => Phase::SettingUp { environment },
                },
                Err(message) => Phase::Refused { error: ReplError::Lean { message } },
            },
            (Phase::Parsing { environment }, OpenEvent::Parsed { commands }) => match commands {
                Ok(total) => if total > 0 {
                    Phase::Running { environment, next: 0, total }
                } else {
                    Phase::SettingUp { environment }
                },
                Err(message) => Phase::Refused { error: ReplError::Lean { message } },
            },
            (Phase::Running { next, total, .. }, OpenEvent::Ran { environment }) => {
                match environment {
                    Ok(environment) => if next < total && total - next > 1 {
                        Phase::Running { environment, next: next + 1, total }
                    } else {
                        Phase::SettingUp { environment }
                    },
                    Err(message) => Phase::Refused { error: ReplError::Lean { message } },
                }
            },
            (Phase::SettingUp { environment }, OpenEvent::SetUp { window, parts }) => match parts {
                Ok(parts) => Phase::Opened { environment, window, parts },
                Err(message) => Phase::Refused { error: ReplError::Lean { message } },
            },
            (phase, _) => phase,
        };
        Opening { request, phase }
    }

    /// The modules, and how the opening came out: the environment, the change of the mappings and
    /// the elaborator's parts of an open session, or the refusal. `None` while a step is due.
    pub(crate) fn outcome(self) -> (r: (
        Vec<String>,
        Option<Result<(E, Option<ImportDiff>, PartsId), ReplError>>,
    ))
        ensures
            texts(r.0@) == self@.request.modules(),
            match self@.phase {
                PhaseModel::Opened { environment, window, parts } => r.1 == Some(
                    Ok::<_, ReplError>((environment, window, parts)),
                ),
                PhaseModel::Refused { error } => r.1 matches Some(Err(e)) && e@ == error,
                _ => r.1 is None,
            },
    {
        let modules = self.request.modules();
        match self.phase {
            Phase::Opened { environment, window, parts } => (
                modules,
                Some(Ok((environment, window, parts))),
            ),
            Phase::Refused { error } => (modules, Some(Err(error))),
            _ => (modules, None),
        }
    }
}

/// Nothing is imported unless the freed regions are mapped again: the import only ever comes due
/// by a remapping that succeeded. For a source file, the remapping only ever comes due by a read
/// that succeeded.
pub proof fn law_import_waits_for_remap<E>(opening: OpeningModel<E>, event: OpenEvent<E>)
    ensures
        opening.after(event).phase is Importing && !(opening.phase is Importing) ==> {
            &&& opening.phase is Remapping
            &&& event matches OpenEvent::Remapped { regions } && regions is Ok
        },
        opening.after(event).phase is Remapping && !(opening.phase is Remapping) ==> {
            &&& opening.phase is Reading
            &&& event matches OpenEvent::Read { source } && source is Ok
        },
        opening.environment() is None && opening.after(event).environment() is Some
            ==> opening.phase is Importing,
{
}

/// A session that is open or refused stays so, whatever else comes in.
pub proof fn law_outcome_is_final<E>(opening: OpeningModel<E>, events: Seq<OpenEvent<E>>)
    requires
        opening.phase is Opened || opening.phase is Refused,
    ensures
        opening.after_all(events) == opening,
    decreases events.len(),
{
    if events.len() > 0 {
        law_outcome_is_final(opening, events.drop_last());
    }
}

/// The environment that a file's commands leave, of which the `i`-th left `left[i]`; `imported`
/// where there is none.
pub open spec fn last_environment<E>(imported: E, left: Seq<E>) -> E {
    if left.len() == 0 {
        imported
    } else {
        left.last()
    }
}

/// What comes in while the commands of a file succeed.
pub open spec fn commands_ran<E>(left: Seq<E>) -> Seq<OpenEvent<E>> {
    left.map_values(|env: E| OpenEvent::Ran { environment: Ok::<E, String>(env) })
}

/// The commands of a source file run in order. After the first `left.len()` of them the next one
/// is due, in the environment that the one before it left (the first one in the imported
/// environment); after the last one the session is set up in what that one left.
pub proof fn law_commands_run_in_order<E>(
    opening: OpeningModel<E>,
    imported: E,
    total: usize,
    left: Seq<E>,
)
    requires
        opening.phase == (PhaseModel::Parsing { environment: imported }),
        left.len() <= total,
    ensures
        opening.after(OpenEvent::Parsed { commands: Ok(total) }).after_all(commands_ran(left))
            == (OpeningModel {
            request: opening.request,
            phase: command_phase(
                last_environment(imported, left),
                left.len() as int,
                total as int,
            ),
        }),
    decreases left.len(),
{
    if left.len() > 0 {
        law_commands_run_in_order(opening, imported, total, left.drop_last());
        assert(commands_ran(left).drop_last() =~= commands_ran(left.drop_last()));
    }
}

/// The first command of a file that fails stops the opening: the session is refused with Lean's
/// message, whatever else comes in.
pub proof fn law_failed_command_refuses<E>(
    opening: OpeningModel<E>,
    imported: E,
    total: usize,
    left: Seq<E>,
    message: String,
    later: Seq<OpenEvent<E>>,
)
    requires
        opening.phase == (PhaseModel::Parsing { environment: imported }),
        left.len() < total,
    ensures
        opening.after(OpenEvent::Parsed { commands: Ok(total) }).after_all(
            commands_ran(left),
        ).after(OpenEvent::Ran { environment: Err(message) }).after_all(later).phase == (
        PhaseModel::<E>::Refused { error: ErrorModel::Lean { message: message@ } }),
{
    law_commands_run_in_order(opening, imported, total, left);
    let stopped = opening.after(OpenEvent::Parsed { commands: Ok(total) }).after_all(
        commands_ran(left),
    ).after(OpenEvent::Ran { environment: Err(message) });
    law_outcome_is_final(stopped, later);
}

/// A session on a source file opens if the file can be read, the regions are mapped again, the
/// prelude is imported, the file parses and each of its commands succeeds; its environment is
/// the one that the last command left.
pub proof fn law_file_opens<E>(
    path: Seq<char>,
    imported: E,
    total: usize,
    left: Seq<E>,
    window: Option<ImportDiff>,
    parts: PartsId,
)
    requires
        ".lean"@.is_suffix_of(path),
        left.len() == total,
    ensures
        OpeningModel::<E>::start(Some(path)).after(OpenEvent::Read { source: Ok(()) }).after(
            OpenEvent::Remapped { regions: Ok(()) },
        ).after(OpenEvent::Imported { environment: Ok(imported) }).after(
            OpenEvent::Parsed { commands: Ok(total) },
        ).after_all(commands_ran(left)).after(OpenEvent::SetUp { window, parts: Ok(parts) }).phase
            == (PhaseModel::Opened {
            environment: last_environment(imported, left),
            window,
            parts,
        }),
{
    let parsing = OpeningModel::<E>::start(Some(path)).after(
        OpenEvent::Read { source: Ok(()) },
    ).after(OpenEvent::Remapped { regions: Ok(()) }).after(
        OpenEvent::Imported { environment: Ok(imported) },
    );
    law_commands_run_in_order(parsing, imported, total, left);
}

/// A session on a module opens in the environment of the import.
pub proof fn law_module_opens<E>(
    module: Option<Seq<char>>,
    imported: E,
    window: Option<ImportDiff>,
    parts: PartsId,
)
    requires
        request_model(module) is Module,
    ensures
        OpeningModel::<E>::start(module).after(OpenEvent::Remapped { regions: Ok(()) }).after(
            OpenEvent::Imported { environment: Ok(imported) },
        ).after(OpenEvent::SetUp { window, parts: Ok(parts) }).phase == (PhaseModel::Opened {
            environment: imported,
            window,
            parts,
        }),
{
}

/// The commands of a source file are asked for one by one and in order: once `left.len()` of
/// `total` commands have run, the step that is due is to run the command of that index, and no
/// other, in the environment that the command before it left.
pub proof fn law_commands_are_asked_for_in_order<E>(
    opening: OpeningModel<E>,
    imported: E,
    total: usize,
    left: Seq<E>,
    events: Seq<OpenEvent<E>>,
    step: OpenStep,
)
    requires
        opening.phase == (PhaseModel::Parsing { environment: imported }),
        left.len() <= total,
        events.len() == left.len(),
        forall|i: int|
            0 <= i < events.len() ==> (#[trigger] events[i]) == (OpenEvent::Ran {
                environment: Ok::<E, String>(left[i]),
            }),
    ensures
        ({
            let now = opening.after(OpenEvent::Parsed { commands: Ok(total) }).after_all(events);
            &&& left.len() < total ==> (now.is_due(step) <==> (step matches OpenStep::RunCommand {
                index,
            } && index == left.len()))
            &&& left.len() == total ==> (now.is_due(step) <==> step == OpenStep::SetUp)
            &&& now.environment() == Some(
                if left.len() == 0 {
                    imported
                } else {
                    left.last()
                },
            )
            &&& now.request == opening.request
        }),
{
    assert(events =~= commands_ran(left));
    law_commands_run_in_order(opening, imported, total, left);
}

/// Each step is due in its own phase, and it names what the request names.
pub proof fn law_each_phase_has_its_step<E>(opening: OpeningModel<E>, step: OpenStep)
    ensures
        opening.phase is Reading ==> (opening.is_due(step) <==> (step matches OpenStep::ReadFile {
            path,
        } && path@ == (match opening.request {
            RequestModel::File { path } => path,
            RequestModel::Module { .. } => Seq::empty(),
        }))),
        opening.phase is Parsing ==> (opening.is_due(step) <==> (step matches OpenStep::ParseFile {
            path,
        } && path@ == (match opening.request {
            RequestModel::File { path } => path,
            RequestModel::Module { .. } => Seq::empty(),
        }))),
        opening.phase is Remapping ==> (opening.is_due(step) <==> (step matches OpenStep::Remap {
            modules,
        } && texts(modules@) == (match opening.request {
            RequestModel::File { .. } => seq!["Lean"@],
            RequestModel::Module { name } => seq![name],
        }))),
        opening.phase is Importing ==> (opening.is_due(step) <==> (step matches OpenStep::Import {
            modules,
        } && texts(modules@) == (match opening.request {
            RequestModel::File { .. } => seq!["Lean"@],
            RequestModel::Module { name } => seq![name],
        }))),
        opening.phase is Running ==> (opening.is_due(step) <==> (step matches OpenStep::RunCommand {
            index,
        } && index == opening.phase->Running_next)),
        opening.phase is SettingUp ==> (opening.is_due(step) <==> step == OpenStep::SetUp),
        opening.phase is Opened || opening.phase is Refused ==> (opening.is_due(step) <==> step
            == OpenStep::Done),
{
}

/// What is asked for: a name that ends in `.lean` is a source file, to be read first and
/// elaborated on top of `Lean`; any other is a module, `Lean` where none is named.
pub proof fn law_names_ask_for_files_or_modules<E>(stem: Seq<char>, name: Seq<char>, path: Seq<char>)
    ensures
        request_model(Some(stem + ".lean"@)) == (RequestModel::File { path: stem + ".lean"@ }),
        !".lean"@.is_suffix_of(name) ==> request_model(Some(name)) == (RequestModel::Module {
            name,
        }),
        request_model(None) == (RequestModel::Module { name: "Lean"@ }),
        OpeningModel::<E>::start(Some(stem + ".lean"@)) == (OpeningModel::<E> {
            request: RequestModel::File { path: stem + ".lean"@ },
            phase: PhaseModel::Reading,
        }),
        !".lean"@.is_suffix_of(name) ==> OpeningModel::<E>::start(Some(name)) == (OpeningModel::<
            E,
        > { request: RequestModel::Module { name }, phase: PhaseModel::Remapping }),
        OpeningModel::<E>::start(None) == (OpeningModel::<E> {
            request: RequestModel::Module { name: "Lean"@ },
            phase: PhaseModel::Remapping,
        }),
        (RequestModel::File { path }).modules() == seq!["Lean"@],
        (RequestModel::Module { name }).modules() == seq![name],
        (RequestModel::File { path }).path() == path,
{
    reveal_strlit(".lean");
    reveal_strlit("Lean");
    let file = stem + ".lean"@;
    assert(file.subrange(file.len() - ".lean"@.len(), file.len() as int) =~= ".lean"@);
    assert(".lean"@.is_suffix_of(file));
}

/// A request holds the text that it was made of.
pub proof fn law_requests_hold_their_text(request: ImportRequest)
    ensures
        match request {
            ImportRequest::File { path } => request@ == (RequestModel::File { path: path@ }),
            ImportRequest::Module { name } => request@ == (RequestModel::Module { name: name@ }),
        },
{
}

/// Every step that succeeds leads to the next one with what it brought: reading to mapping again,
/// that to the import, the import to the parse of a file or to the set-up of a module, the parse
/// to the first command or to the set-up, a command to the next one or to the set-up, and the
/// set-up to an open session.
pub proof fn law_success_leads_on<E>(
    opening: OpeningModel<E>,
    env: E,
    count: usize,
    window: Option<ImportDiff>,
    parts: PartsId,
)
    ensures
        opening.phase is Reading ==> opening.after(OpenEvent::Read { source: Ok(()) }).phase
            is Remapping,
        opening.phase is Remapping ==> opening.after(OpenEvent::Remapped { regions: Ok(()) }).phase
            is Importing,
        opening.phase is Importing && opening.request is File ==> opening.after(
            OpenEvent::Imported { environment: Ok(env) },
        ).phase == (PhaseModel::Parsing { environment: env }),
        opening.phase is Importing && opening.request is Module ==> opening.after(
            OpenEvent::Imported { environment: Ok(env) },
        ).phase == (PhaseModel::SettingUp { environment: env }),
        opening.phase matches PhaseModel::Parsing { environment } ==> opening.after(
            OpenEvent::Parsed { commands: Ok(count) },
        ).phase == (if count == 0 {
            PhaseModel::SettingUp { environment }
        } else {
            PhaseModel::Running { environment, next: 0, total: count as int }
        }),
        opening.phase matches PhaseModel::Running { environment, next, total } ==> opening.after(
            OpenEvent::Ran { environment: Ok(env) },
        ).phase == (if next + 1 >= total {
            PhaseModel::SettingUp { environment: env }
        } else {
            PhaseModel::Running { environment: env, next: next + 1, total }
        }),
        opening.phase matches PhaseModel::SettingUp { environment } ==> opening.after(
            OpenEvent::SetUp { window, parts: Ok(parts) },
        ).phase == (PhaseModel::Opened { environment, window, parts }),
        opening.after(OpenEvent::Imported { environment: Ok(env) }).request == opening.request,
{
}

/// Every step that fails refuses the session, with an error that says which step it was and
/// passes the reason on.
pub proof fn law_failure_refuses<E>(
    opening: OpeningModel<E>,
    why: String,
    errors: Vec<String>,
    window: Option<ImportDiff>,
)
    ensures
        opening.phase is Reading && opening.request is File ==> opening.after(
            OpenEvent::Read { source: Err(why) },
        ).phase == (PhaseModel::<E>::Refused {
            error: ErrorModel::CannotRead { path: opening.request->path, reason: why@ },
        }),
        opening.phase is Remapping ==> opening.after(
            OpenEvent::Remapped { regions: Err(errors) },
        ).phase == (PhaseModel::<E>::Refused {
            error: ErrorModel::ImportBlocked {
                importing: debug_list(
                    match opening.request {
                        RequestModel::File { .. } => seq!["Lean"@],
                        RequestModel::Module { name } => seq![name],
                    },
                ),
                reasons: joined(texts(errors@), "; "@),
            },
        }),
        opening.phase is Importing ==> opening.after(
            OpenEvent::Imported { environment: Err(why) },
        ).phase == (PhaseModel::<E>::Refused { error: ErrorModel::Lean { message: why@ } }),
        opening.phase is Parsing ==> opening.after(OpenEvent::Parsed { commands: Err(why) }).phase
            == (PhaseModel::<E>::Refused { error: ErrorModel::Lean { message: why@ } }),
        opening.phase is Running ==> opening.after(OpenEvent::Ran { environment: Err(why) }).phase
            == (PhaseModel::<E>::Refused { error: ErrorModel::Lean { message: why@ } }),
        opening.phase is SettingUp ==> opening.after(
            OpenEvent::SetUp { window, parts: Err(why) },
        ).phase == (PhaseModel::<E>::Refused { error: ErrorModel::Lean { message: why@ } }),
{
}

/// What came of a step that was not due counts for nothing, and no event changes the request.
pub proof fn law_only_due_steps_count<E>(opening: OpeningModel<E>, event: OpenEvent<E>)
    ensures
        opening.after(event).request == opening.request,
        event is Read && !(opening.phase is Reading) ==> opening.after(event) == opening,
        event is Remapped && !(opening.phase is Remapping) ==> opening.after(event) == opening,
        event is Imported && !(opening.phase is Importing) ==> opening.after(event) == opening,
        event is Parsed && !(opening.phase is Parsing) ==> opening.after(event) == opening,
        event is Ran && !(opening.phase is Running) ==> opening.after(event) == opening,
        event is SetUp && !(opening.phase is SettingUp) ==> opening.after(event) == opening,
{
}

/// Several events count one after another.
pub proof fn law_events_count_in_turn<E>(
    opening: OpeningModel<E>,
    events: Seq<OpenEvent<E>>,
    event: OpenEvent<E>,
)
    ensures
        opening.after_all(Seq::empty()) == opening,
        opening.after_all(events.push(event)) == opening.after_all(events).after(event),
{
    assert(events.push(event).drop_last() =~= events);
}

/// The environment at hand is the one that the phase holds; before the import there is none.
pub proof fn law_environment_at_hand<E>(opening: OpeningModel<E>)
    ensures
        opening.environment() == (match opening.phase {
            PhaseModel::Parsing { environment } => Some(environment),
            PhaseModel::Running { environment, next, total } => Some(environment),
            PhaseModel::SettingUp { environment } => Some(environment),
            PhaseModel::Opened { environment, window, parts } => Some(environment),
            PhaseModel::Reading | PhaseModel::Remapping | PhaseModel::Importing => None,
            PhaseModel::Refused { error } => None,
        }),
{
}

} // verus!
