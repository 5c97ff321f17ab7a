//! Reading a file for a session, on the host or in the session's sandbox, as a
//! sequence of actions and of events that answer them.

use crate::base64_codec::{base64_char, base64_decoded};
use crate::error::{outcome, Error};
use crate::sandbox::{
    check_limit, finish_read, law_file_is_read_back, read_command, read_command_text, read_exec_opts, read_outcome, too_large,
    too_large_text, within_limit, ExecOpts, ExecResult, MAX_FILE_SIZE, MAX_SANDBOX_OUTPUT_BYTES,
};
use vstd::prelude::*;

verus! {

/// What the host knows of a path.
#[derive(Debug, Clone, Copy)]
pub struct FileInfo {
    pub is_file: bool,
    pub len: u64,
}

/// The text of the refusal to read a path on the host, if there is one.
pub open spec fn metadata_refusal(path: Seq<char>, info: Result<FileInfo, Seq<char>>) -> Option<
    Seq<char>,
> {
    match info {
        Err(reason) => Some("cannot access '"@ + path + "': "@ + reason),
        Ok(info) => if !info.is_file {
            Some("'"@ + path + "' is not a regular file"@)
        } else if info.len > MAX_FILE_SIZE {
            Some(too_large_text(info.len as nat))
        } else {
            None
        },
    }
}

/// Decides from what the host knows of a path whether the file there is read.
pub fn check_host_metadata(path: &str, info: Result<FileInfo, String>) -> (result: Result<
    (),
    Error,
>)
    ensures
        match result {
            Ok(_) => metadata_refusal(path@, reported(info)) is None,
            Err(error) => metadata_refusal(path@, reported(info)) == Some(error@),
        },
{
    match info {
        Err(reason) => {
            let mut text = String::new();
            text.append("cannot access '");
            text.append(path);
            text.append("': ");
            text.append(reason.as_str());
            assert(text@ =~= "cannot access '"@ + path@ + "': "@ + reason@);
            Err(Error::message(text))
        },
        Ok(info) => if !info.is_file {
            let mut text = String::new();
            text.append("'");
            text.append(path);
            text.append("' is not a regular file");
            assert(text@ =~= "'"@ + path@ + "' is not a regular file"@);
            Err(Error::message(text))
        } else if info.len > MAX_FILE_SIZE {
            Err(too_large(info.len))
        } else {
            Ok(())
        },
    }
}

/// A report of the host as plain values.
pub open spec fn reported<T>(report: Result<T, String>) -> Result<T, Seq<char>> {
    match report {
        Ok(value) => Ok(value),
        Err(reason) => Err(reason@),
    }
}

/// A report of the host on bytes, as plain values.
pub open spec fn reported_bytes(report: Result<Vec<u8>, String>) -> Result<Seq<u8>, Seq<char>> {
    match report {
        Ok(bytes) => Ok(bytes@),
        Err(reason) => Err(reason@),
    }
}

/// What becomes of the attempt to read a file on the host.
pub open spec fn host_outcome(path: Seq<char>, bytes: Result<Seq<u8>, Seq<char>>) -> Result<
    Seq<u8>,
    Seq<char>,
> {
    match bytes {
        Ok(bytes) => within_limit(bytes),
        Err(reason) => Err("failed to read '"@ + path + "': "@ + reason),
    }
}

/// Takes what the host read as the bytes of the file, or as an error.
pub fn accept_host_bytes(path: &str, bytes: Result<Vec<u8>, String>) -> (result: Result<
    Vec<u8>,
    Error,
>)
    ensures
        outcome(result) == host_outcome(path@, reported_bytes(bytes)),
{
    match bytes {
        Ok(bytes) => check_limit(bytes),
        Err(reason) => {
            let mut text = String::new();
            text.append("failed to read '");
            text.append(path);
            text.append("': ");
            text.append(reason.as_str());
            assert(text@ =~= "failed to read '"@ + path@ + "': "@ + reason@);
            Err(Error::message(text))
        },
    }
}

/// How far a read has come.
enum Step {
    AskSandboxed,
    HostMetadata,
    HostRead,
    ResolveSandbox,
    PrepareSandbox { sandbox_id: String, image: String },
    RunCommand { sandbox_id: String },
    Done(Result<Vec<u8>, Error>),
}

/// How far a read has come, as plain values.
pub enum StepView {
    /// It is open whether the session is sandboxed.
    AskSandboxed,
    /// The host is asked about the path.
    HostMetadata,
    /// The host reads the file.
    HostRead,
    /// The session's sandbox and its image are looked up.
    ResolveSandbox,
    /// The sandbox is made ready.
    PrepareSandbox { sandbox_id: Seq<char>, image: Seq<char> },
    /// The read command runs in the sandbox.
    RunCommand { sandbox_id: Seq<char> },
    /// The read is over.
    Done(Result<Seq<u8>, Seq<char>>),
}

/// A read of one file for one session.
pub struct SessionRead {
    session_key: String,
    path: String,
    step: Step,
}

/// A read of one file for one session, as plain values.
pub struct ReadView {
    pub session_key: Seq<char>,
    pub path: Seq<char>,
    pub step: StepView,
}

/// What is to be done next for a read.
pub enum ReadAction {
    /// Find out whether the session is sandboxed.
    AskSandboxed { session_key: String },
    /// Ask the host about a path.
    HostMetadata { path: String },
    /// Read a file on the host.
    HostRead { path: String },
    /// Look up the identity and the image of the session's sandbox.
    ResolveSandbox { session_key: String },
    /// Make a sandbox ready.
    PrepareSandbox { sandbox_id: String, image: String },
    /// Run a command in a sandbox.
    RunCommand { sandbox_id: String, command: String, opts: ExecOpts },
    /// Nothing: the read is over.
    Finished,
}

/// What is to be done next for a read, as plain values.
pub enum ActionView {
    AskSandboxed { session_key: Seq<char> },
    HostMetadata { path: Seq<char> },
    HostRead { path: Seq<char> },
    ResolveSandbox { session_key: Seq<char> },
    PrepareSandbox { sandbox_id: Seq<char>, image: Seq<char> },
    RunCommand {
        sandbox_id: Seq<char>,
        command: Seq<char>,
        timeout_secs: u64,
        max_output_bytes: usize,
        working_dir: Option<Seq<char>>,
        env: Seq<(String, String)>,
    },
    Finished,
}

/// What came of an action.
pub enum ReadEvent {
    Sandboxed(bool),
    HostMetadata(Result<FileInfo, String>),
    HostRead(Result<Vec<u8>, String>),
    SandboxResolved { sandbox_id: String, image: String },
    SandboxPrepared(Result<(), Error>),
    CommandRan(Result<ExecResult, Error>),
}

/// What came of an action, as plain values.
pub enum EventView {
    Sandboxed(bool),
    HostMetadata(Result<FileInfo, Seq<char>>),
    HostRead(Result<Seq<u8>, Seq<char>>),
    SandboxResolved { sandbox_id: Seq<char>, image: Seq<char> },
    SandboxPrepared(Result<(), Seq<char>>),
    CommandRan(Result<(i32, Seq<char>, Seq<char>), Seq<char>>),
}

impl View for Step {
    type V = StepView;

    closed spec fn view(&self) -> StepView {
        match *self {
            Step::AskSandboxed => StepView::AskSandboxed,
            Step::HostMetadata => StepView::HostMetadata,
            Step::HostRead => StepView::HostRead,
            Step::ResolveSandbox => StepView::ResolveSandbox,
            Step::PrepareSandbox { sandbox_id, image } => StepView::PrepareSandbox {
                sandbox_id: sandbox_id@,
                image: image@,
            },
            Step::RunCommand { sandbox_id } => StepView::RunCommand { sandbox_id: sandbox_id@ },
            Step::Done(result) => StepView::Done(outcome(result)),
        }
    }
}

impl View for SessionRead {
    type V = ReadView;

    closed spec fn view(&self) -> ReadView {
        ReadView { session_key: self.session_key@, path: self.path@, step: self.step@ }
    }
}

impl View for ReadAction {
    type V = ActionView;

    open spec fn view(&self) -> ActionView {
        match *self {
            ReadAction::AskSandboxed { session_key } => ActionView::AskSandboxed {
                session_key: session_key@,
            },
            ReadAction::HostMetadata { path } => ActionView::HostMetadata { path: path@ },
            ReadAction::HostRead { path } => ActionView::HostRead { path: path@ },
            ReadAction::ResolveSandbox { session_key } => ActionView::ResolveSandbox {
                session_key: session_key@,
            },
            ReadAction::PrepareSandbox { sandbox_id, image } => ActionView::PrepareSandbox {
                sandbox_id: sandbox_id@,
                image: image@,
            },
            ReadAction::RunCommand { sandbox_id, command, opts } => ActionView::RunCommand {
                sandbox_id: sandbox_id@,
                command: command@,
                timeout_secs: opts.timeout_secs,
                max_output_bytes: opts.max_output_bytes,
                working_dir: match opts.working_dir {
                    Some(dir) => Some(dir@),
                    None => None,
                },
                env: opts.env@,
            },
            ReadAction::Finished => ActionView::Finished,
        }
    }
}

impl View for ReadEvent {
    type V = EventView;

    open spec fn view(&self) -> EventView {
        match *self {
            ReadEvent::Sandboxed(sandboxed) => EventView::Sandboxed(sandboxed),
            ReadEvent::HostMetadata(info) => EventView::HostMetadata(reported(info)),
            ReadEvent::HostRead(bytes) => EventView::HostRead(reported_bytes(bytes)),
            ReadEvent::SandboxResolved { sandbox_id, image } => EventView::SandboxResolved {
                sandbox_id: sandbox_id@,
                image: image@,
            },
            ReadEvent::SandboxPrepared(result) => EventView::SandboxPrepared(
                match result {
                    Ok(_) => Ok(()),
                    Err(error) => Err(error@),
                },
            ),
            ReadEvent::CommandRan(result) => EventView::CommandRan(
                match result {
                    Ok(result) => Ok((result.exit_code, result.stdout@, result.stderr@)),
                    Err(error) => Err(error@),
                },
            ),
        }
    }
}

impl ReadView {
    /// The start of a read. A sandbox can be in play only if there is a router.
    pub open spec fn started(has_router: bool, session_key: Seq<char>, path: Seq<char>) -> ReadView {
        ReadView {
            session_key,
            path,
            step: if has_router {
                StepView::AskSandboxed
            } else {
                StepView::HostMetadata
            },
        }
    }

    /// The action that the read waits for.
    pub open spec fn action(self) -> ActionView {
        match self.step {
            StepView::AskSandboxed => ActionView::AskSandboxed { session_key: self.session_key },
            StepView::HostMetadata => ActionView::HostMetadata { path: self.path },
            StepView::HostRead => ActionView::HostRead { path: self.path },
            StepView::ResolveSandbox => ActionView::ResolveSandbox { session_key: self.session_key },
            StepView::PrepareSandbox { sandbox_id, image } => ActionView::PrepareSandbox {
                sandbox_id,
                image,
            },
            StepView::RunCommand { sandbox_id } => ActionView::RunCommand {
                sandbox_id,
                command: read_command_text(self.path),
                timeout_secs: 30,
                max_output_bytes: MAX_SANDBOX_OUTPUT_BYTES,
                working_dir: Some("/home/sandbox"@),
                env: Seq::empty(),
            },
            StepView::Done(_) => ActionView::Finished,
        }
    }

    /// The step that follows when an event answers the action that the read waits
    /// for. Any other event changes nothing.
    pub open spec fn next_step(self, event: EventView) -> StepView {
        match (self.step, event) {
            (StepView::AskSandboxed, EventView::Sandboxed(sandboxed)) => if sandboxed {
                StepView::ResolveSandbox
            } else {
                StepView::HostMetadata
            },
            (StepView::HostMetadata, EventView::HostMetadata(info)) => match metadata_refusal(
                self.path,
                info,
            ) {
                Some(text) => StepView::Done(Err(text)),
                None => StepView::HostRead,
            },
            (StepView::HostRead, EventView::HostRead(bytes)) => StepView::Done(
                host_outcome(self.path, bytes),
            ),
            (
                StepView::ResolveSandbox,
                EventView::SandboxResolved { sandbox_id, image },
            ) => StepView::PrepareSandbox { sandbox_id, image },
            (
                StepView::PrepareSandbox { sandbox_id, image },
                EventView::SandboxPrepared(result),
            ) => match result {
                Ok(_) => StepView::RunCommand { sandbox_id },
                Err(text) => StepView::Done(Err(text)),
            },
            (StepView::RunCommand { sandbox_id }, EventView::CommandRan(result)) => match result {
                Ok((exit_code, stdout, stderr)) => StepView::Done(
                    read_outcome(self.path, exit_code, stdout, stderr),
                ),
                Err(text) => StepView::Done(Err(text)),
            },
            (step, _) => step,
        }
    }

    /// The read after an event.
    pub open spec fn next(self, event: EventView) -> ReadView {
        ReadView { step: self.next_step(event), ..self }
    }

    /// The read after a sequence of events.
    pub open spec fn after(self, events: Seq<EventView>) -> ReadView
        decreases events.len(),
    {
        if events.len() == 0 {
            self
        } else {
            self.after(events.drop_last()).next(events.last())
        }
    }
}

/// A read that is over with bytes is over with few enough.
pub open spec fn step_within_limit(step: StepView) -> bool {
    match step {
        StepView::Done(Ok(bytes)) => bytes.len() <= MAX_FILE_SIZE,
        _ => true,
    }
}

impl SessionRead {
    #[verifier::type_invariant]
    spec fn bounded(self) -> bool {
        step_within_limit(self@.step)
    }

    /// Starts to read the file at a path for a session.
    pub fn start(has_router: bool, session_key: &str, path: &str) -> (read: SessionRead)
        ensures
            read@ == ReadView::started(has_router, session_key@, path@),
    {
        SessionRead {
            session_key: session_key.to_owned(),
            path: path.to_owned(),
            step: if has_router {
                Step::AskSandboxed
            } else {
                Step::HostMetadata
            },
        }
    }

    /// The action that the read waits for.
    pub fn action(&self) -> (action: ReadAction)
        ensures
            action@ == self@.action(),
    {
        match &self.step {
            Step::AskSandboxed => ReadAction::AskSandboxed { session_key: self.session_key.clone() },
            Step::HostMetadata => ReadAction::HostMetadata { path: self.path.clone() },
            Step::HostRead => ReadAction::HostRead { path: self.path.clone() },
            Step::ResolveSandbox => ReadAction::ResolveSandbox {
                session_key: self.session_key.clone(),
            },
            Step::PrepareSandbox { sandbox_id, image } => ReadAction::PrepareSandbox {
                sandbox_id: sandbox_id.clone(),
                image: image.clone(),
            },
            Step::RunCommand { sandbox_id } => ReadAction::RunCommand {
                sandbox_id: sandbox_id.clone(),
                command: read_command(self.path.as_str()),
                opts: read_exec_opts(),
            },
            Step::Done(_) => ReadAction::Finished,
        }
    }

    /// Takes the event that answers the action that the read waits for. Any other
    /// event changes nothing.
    pub fn advance(self, event: ReadEvent) -> (read: SessionRead)
        ensures
            read@ == self@.next(event@),
    {
        proof {
            use_type_invariant(&self);
        }
        let SessionRead { session_key, path, step } = self;
        let step = match (step, event) {
            (Step::AskSandboxed, ReadEvent::Sandboxed(sandboxed)) => if sandboxed {
                Step::ResolveSandbox
            } else {
                Step::HostMetadata
            },
            (Step::HostMetadata, ReadEvent::HostMetadata(info)) => match check_host_metadata(
                path.as_str(),
                info,
            ) {
                Ok(_) => Step::HostRead,
                Err(error) => Step::Done(Err(error)),
            },
            (Step::HostRead, ReadEvent::HostRead(bytes)) => Step::Done(
                accept_host_bytes(path.as_str(), bytes),
            ),
            (
                Step::ResolveSandbox,
                ReadEvent::SandboxResolved { sandbox_id, image },
            ) => Step::PrepareSandbox { sandbox_id, image },
            (
                Step::PrepareSandbox { sandbox_id, image },
                ReadEvent::SandboxPrepared(result),
            ) => match result {
                Ok(_) => Step::RunCommand { sandbox_id },
                Err(error) => Step::Done(Err(error)),
            },
            (Step::RunCommand { sandbox_id }, ReadEvent::CommandRan(result)) => match result {
                Ok(result) => Step::Done(finish_read(path.as_str(), &result)),
                Err(error) => Step::Done(Err(error)),
            },
            (step, _) => step,
        };
        SessionRead { session_key, path, step }
    }

    /// How the read ended, if it is over.
    pub fn into_result(self) -> (result: Option<Result<Vec<u8>, Error>>)
        ensures
            match result {
                Some(result) => {
                    &&& self@.step == StepView::Done(outcome(result))
                    &&& step_within_limit(self@.step)
                },
                None => !(self@.step is Done),
            },
    {
        proof {
            use_type_invariant(&self);
        }
        match self.step {
            Step::Done(result) => Some(result),
            _ => None,
        }
    }
}

/// The steps of a read that takes place in a sandbox.
pub open spec fn in_sandbox(step: StepView) -> bool {
    step is ResolveSandbox || step is PrepareSandbox || step is RunCommand || step is Done
}

/// The steps of a read that takes place on the host.
pub open spec fn on_host(step: StepView) -> bool {
    step is HostMetadata || step is HostRead || step is Done
}

/// The actions that touch the host's files.
pub open spec fn touches_host(action: ActionView) -> bool {
    action is HostMetadata || action is HostRead
}

/// The actions that touch a sandbox.
pub open spec fn touches_sandbox(action: ActionView) -> bool {
    action is ResolveSandbox || action is PrepareSandbox || action is RunCommand
}

/// A read for a sandboxed session never touches the host, whatever happens. In
/// particular a failure in the sandbox does not fall back to the host.
pub proof fn law_sandboxed_session_stays_in_sandbox(
    session_key: Seq<char>,
    path: Seq<char>,
    events: Seq<EventView>,
)
    ensures
        ({
            let read = ReadView::started(true, session_key, path).next(EventView::Sandboxed(true));
            &&& in_sandbox(read.after(events).step)
            &&& !touches_host(read.after(events).action())
            &&& read.after(events).session_key == session_key
            &&& read.after(events).path == path
        }),
    decreases events.len(),
{
    if events.len() > 0 {
        law_sandboxed_session_stays_in_sandbox(session_key, path, events.drop_last());
    }
}

/// As long as it is open whether the session is sandboxed, no file and no sandbox
/// is touched, whatever else happens.
pub proof fn law_nothing_is_touched_before_the_answer(
    session_key: Seq<char>,
    path: Seq<char>,
    events: Seq<EventView>,
)
    requires
        forall|i: int| 0 <= i < events.len() ==> !(#[trigger] events[i] is Sandboxed),
    ensures
        ({
            let read = ReadView::started(true, session_key, path);
            &&& read.after(events) == read
            &&& !touches_host(read.after(events).action())
            &&& !touches_sandbox(read.after(events).action())
        }),
    decreases events.len(),
{
    if events.len() > 0 {
        assert forall|i: int| 0 <= i < events.drop_last().len() implies !(
        #[trigger] events.drop_last()[i] is Sandboxed) by {
            assert(events.drop_last()[i] == events[i]);
        }
        law_nothing_is_touched_before_the_answer(session_key, path, events.drop_last());
        assert(!(events[events.len() - 1] is Sandboxed));
    }
}

/// Without a router, and for a session that is not sandboxed, the file is read on
/// the host and no sandbox is touched, whatever happens.
pub proof fn law_other_sessions_stay_on_host(
    session_key: Seq<char>,
    path: Seq<char>,
    events: Seq<EventView>,
)
    ensures
        ({
            let direct = ReadView::started(false, session_key, path);
            &&& direct == ReadView::started(true, session_key, path).next(
                EventView::Sandboxed(false),
            )
            &&& on_host(direct.after(events).step)
            &&& !touches_sandbox(direct.after(events).action())
        }),
    decreases events.len(),
{
    if events.len() > 0 {
        law_other_sessions_stay_on_host(session_key, path, events.drop_last());
    }
}

/// No read ends with more bytes than the limit, whatever happens.
pub proof fn law_reads_are_bounded(
    has_router: bool,
    session_key: Seq<char>,
    path: Seq<char>,
    events: Seq<EventView>,
)
    ensures
        step_within_limit(ReadView::started(has_router, session_key, path).after(events).step),
    decreases events.len(),
{
    if events.len() > 0 {
        law_reads_are_bounded(has_router, session_key, path, events.drop_last());
    }
}

/// A read that is over stays as it ended.
pub proof fn law_end_is_final(read: ReadView, events: Seq<EventView>)
    requires
        read.step is Done,
    ensures
        read.after(events) == read,
    decreases events.len(),
{
    if events.len() > 0 {
        law_end_is_final(read, events.drop_last());
    }
}

/// A failure to make the sandbox ready, or to run the command in it, ends the read
/// with that very error.
pub proof fn law_sandbox_errors_are_passed_on(read: ReadView, text: Seq<char>)
    ensures
        read.step is PrepareSandbox ==> read.next(EventView::SandboxPrepared(Err(text))).step
            == StepView::Done(Err(text)),
        read.step is RunCommand ==> read.next(EventView::CommandRan(Err(text))).step
            == StepView::Done(Err(text)),
{
}

/// The host reads a file only after it has been seen to be a regular file of a
/// size within the limit.
pub proof fn law_host_reads_checked_files_only(read: ReadView, event: EventView)
    requires
        !(read.step is HostRead),
        read.next(event).step is HostRead,
    ensures
        event matches EventView::HostMetadata(Ok(info)) && info.is_file && info.len
            <= MAX_FILE_SIZE,
{
}

/// Whether an event answers the action that a read waits for.
pub open spec fn answers(event: EventView, action: ActionView) -> bool {
    match action {
        ActionView::AskSandboxed { .. } => event is Sandboxed,
        ActionView::HostMetadata { .. } => event is HostMetadata,
        ActionView::HostRead { .. } => event is HostRead,
        ActionView::ResolveSandbox { .. } => event is SandboxResolved,
        ActionView::PrepareSandbox { .. } => event is SandboxPrepared,
        ActionView::RunCommand { .. } => event is CommandRan,
        ActionView::Finished => false,
    }
}

/// The number of answers after which a read is over at the latest.
pub open spec fn answers_left(step: StepView) -> nat {
    match step {
        StepView::AskSandboxed => 4,
        StepView::ResolveSandbox => 3,
        StepView::HostMetadata => 2,
        StepView::PrepareSandbox { .. } => 2,
        StepView::HostRead => 1,
        StepView::RunCommand { .. } => 1,
        StepView::Done(_) => 0,
    }
}

/// Every answer brings a read closer to its end; nothing else changes it. A read
/// is over once no answer is left to wait for.
pub proof fn law_answers_make_progress(read: ReadView, event: EventView)
    ensures
        answers(event, read.action()) ==> answers_left(read.next(event).step) < answers_left(
            read.step,
        ),
        !answers(event, read.action()) ==> read.next(event) == read,
        answers_left(read.step) == 0 <==> read.step is Done,
{
}

/// A regular file within the limit is read back from the host as it is.
pub proof fn law_host_file_is_read_back(
    session_key: Seq<char>,
    path: Seq<char>,
    len: u64,
    bytes: Seq<u8>,
)
    requires
        len <= MAX_FILE_SIZE,
        bytes.len() <= MAX_FILE_SIZE,
    ensures
        ReadView::started(false, session_key, path).next(
            EventView::HostMetadata(Ok(FileInfo { is_file: true, len })),
        ).next(EventView::HostRead(Ok(bytes))).step == StepView::Done(Ok(bytes)),
{
}

/// A file within the limit is read back from the sandbox as it is: the command that
/// runs there is the read command for its path, and where it prints the base64 text
/// of the file, the read ends with the bytes of the file.
pub proof fn law_sandbox_file_is_read_back(
    session_key: Seq<char>,
    path: Seq<char>,
    sandbox_id: Seq<char>,
    image: Seq<char>,
    bytes: Seq<u8>,
    text: Seq<char>,
    stderr: Seq<char>,
)
    requires
        bytes.len() <= MAX_FILE_SIZE,
        base64_decoded(text) == Ok::<Seq<u8>, Seq<char>>(bytes),
        forall|i: int| 0 <= i < text.len() ==> base64_char(#[trigger] text[i]),
    ensures
        ({
            let running = ReadView::started(true, session_key, path).next(
                EventView::Sandboxed(true),
            ).next(EventView::SandboxResolved { sandbox_id, image }).next(
                EventView::SandboxPrepared(Ok(())),
            );
            &&& running.action() matches ActionView::RunCommand { sandbox_id: id, command, .. }
            &&& id == sandbox_id
            &&& command == read_command_text(path)
            &&& running.next(EventView::CommandRan(Ok((0, text, stderr)))).step == StepView::Done(
                Ok(bytes),
            )
        }),
{
    law_file_is_read_back(path, bytes, text, Seq::empty(), stderr);
    assert(text + Seq::<char>::empty() =~= text);
}

/// The host refuses to read a path exactly if it cannot be accessed, is no regular
/// file or has more than 20 MB, and says which.
pub proof fn law_host_refusals(path: Seq<char>, info: Result<FileInfo, Seq<char>>)
    ensures
        metadata_refusal(path, info) is None <==> (info matches Ok(info) && info.is_file && info.len
            <= 20 * 1048576),
        info matches Err(reason) ==> metadata_refusal(path, info) == Some(
            "cannot access '"@ + path + "': "@ + reason,
        ),
        info matches Ok(known) ==> {
            &&& !known.is_file ==> metadata_refusal(path, info) == Some(
                "'"@ + path + "' is not a regular file"@,
            )
            &&& known.is_file && known.len > 20 * 1048576 ==> metadata_refusal(path, info) == Some(
                too_large_text(known.len as nat),
            )
        },
{
}

/// What the host read is handed on as it is up to 20 MB, also where the file has
/// grown since it was measured. A failure to read names the path and the reason.
pub proof fn law_host_outcomes(path: Seq<char>, bytes: Seq<u8>, reason: Seq<char>)
    ensures
        bytes.len() <= 20 * 1048576 ==> host_outcome(path, Ok(bytes)) == Ok::<Seq<u8>, Seq<char>>(
            bytes,
        ),
        bytes.len() > 20 * 1048576 ==> host_outcome(path, Ok(bytes)) == Err::<Seq<u8>, Seq<char>>(
            too_large_text(bytes.len()),
        ),
        host_outcome(path, Err(reason)) == Err::<Seq<u8>, Seq<char>>(
            "failed to read '"@ + path + "': "@ + reason,
        ),
{
}

/// Whatever happens, a read asks for its own session and for its own path. The
/// command in the sandbox is the one that reads that path. It runs for at most half
/// a minute, with at most 32 MB of output, from the sandbox's home directory and
/// with nothing added to its environment.
pub proof fn law_actions_are_for_the_request(
    has_router: bool,
    session_key: Seq<char>,
    path: Seq<char>,
    events: Seq<EventView>,
)
    ensures
        ({
            let read = ReadView::started(has_router, session_key, path).after(events);
            &&& read.session_key == session_key
            &&& read.path == path
            &&& match read.action() {
                ActionView::AskSandboxed { session_key: key } => has_router && key == session_key,
                ActionView::HostMetadata { path: asked } => asked == path,
                ActionView::HostRead { path: asked } => asked == path,
                ActionView::ResolveSandbox { session_key: key } => has_router && key == session_key,
                ActionView::PrepareSandbox { .. } => has_router,
                ActionView::RunCommand {
                    command,
                    timeout_secs,
                    max_output_bytes,
                    working_dir,
                    env,
                    ..
                } => {
                    &&& has_router
                    &&& command == read_command_text(path)
                    &&& timeout_secs == 30
                    &&& max_output_bytes == 32 * 1048576
                    &&& working_dir == Some("/home/sandbox"@)
                    &&& env.len() == 0
                },
                ActionView::Finished => read.step is Done,
            }
        }),
    decreases events.len(),
{
    if events.len() > 0 {
        law_actions_are_for_the_request(has_router, session_key, path, events.drop_last());
    }
}

/// A read for a sandboxed session asks whether it is sandboxed, looks its sandbox up,
/// makes that very sandbox ready with that very image, and runs the command there.
/// It ends with what the outcome of the command means for its path.
pub proof fn law_sandboxed_read_runs_in_the_resolved_sandbox(
    session_key: Seq<char>,
    path: Seq<char>,
    sandbox_id: Seq<char>,
    image: Seq<char>,
    exit_code: i32,
    stdout: Seq<char>,
    stderr: Seq<char>,
)
    ensures
        ({
            let asked = ReadView::started(true, session_key, path);
            let sandboxed = asked.next(EventView::Sandboxed(true));
            let resolved = sandboxed.next(EventView::SandboxResolved { sandbox_id, image });
            let ready = resolved.next(EventView::SandboxPrepared(Ok(())));
            &&& asked.action() == (ActionView::AskSandboxed { session_key })
            &&& sandboxed.action() == (ActionView::ResolveSandbox { session_key })
            &&& resolved.action() == (ActionView::PrepareSandbox { sandbox_id, image })
            &&& ready.action() matches ActionView::RunCommand { sandbox_id: id, .. } && id == sandbox_id
            &&& ready.next(EventView::CommandRan(Ok((exit_code, stdout, stderr)))).step
                == StepView::Done(read_outcome(path, exit_code, stdout, stderr))
        }),
{
}

/// A read on the host asks about the path first. It reads the file exactly if that
/// is not refused, and ends with the refusal or with what came of reading.
pub proof fn law_host_read_follows_the_metadata(
    session_key: Seq<char>,
    path: Seq<char>,
    info: Result<FileInfo, Seq<char>>,
    bytes: Result<Seq<u8>, Seq<char>>,
)
    ensures
        ({
            let asked = ReadView::started(false, session_key, path);
            let known = asked.next(EventView::HostMetadata(info));
            &&& asked == ReadView::started(true, session_key, path).next(EventView::Sandboxed(false))
            &&& asked.action() == (ActionView::HostMetadata { path })
            &&& metadata_refusal(path, info) matches Some(text) ==> known.step == StepView::Done(
                Err(text),
            )
            &&& metadata_refusal(path, info) is None ==> known.action() == (ActionView::HostRead {
                path,
            }) && known.next(EventView::HostRead(bytes)).step == StepView::Done(
                host_outcome(path, bytes),
            )
        }),
{
}

/// What the process reports is taken over in full.
pub proof fn law_events_are_taken_over(
    sandboxed: bool,
    info: Result<FileInfo, String>,
    bytes: Result<Vec<u8>, String>,
    sandbox_id: String,
    image: String,
    prepared: Result<(), Error>,
    ran: Result<ExecResult, Error>,
)
    ensures
        ReadEvent::Sandboxed(sandboxed)@ == EventView::Sandboxed(sandboxed),
        info matches Ok(known) ==> ReadEvent::HostMetadata(info)@ == EventView::HostMetadata(Ok(known)),
        info matches Err(reason) ==> ReadEvent::HostMetadata(info)@ == EventView::HostMetadata(
            Err(reason@),
        ),
        bytes matches Ok(read) ==> ReadEvent::HostRead(bytes)@ == EventView::HostRead(Ok(read@)),
        bytes matches Err(reason) ==> ReadEvent::HostRead(bytes)@ == EventView::HostRead(Err(reason@)),
        (ReadEvent::SandboxResolved { sandbox_id, image })@ == (EventView::SandboxResolved {
            sandbox_id: sandbox_id@,
            image: image@,
        }),
        prepared is Ok ==> ReadEvent::SandboxPrepared(prepared)@ == EventView::SandboxPrepared(Ok(())),
        prepared matches Err(error) ==> ReadEvent::SandboxPrepared(prepared)@
            == EventView::SandboxPrepared(Err(error.text@)),
        ran matches Ok(result) ==> ReadEvent::CommandRan(ran)@ == EventView::CommandRan(
            Ok((result.exit_code, result.stdout@, result.stderr@)),
        ),
        ran matches Err(error) ==> ReadEvent::CommandRan(ran)@ == EventView::CommandRan(
            Err(error.text@),
        ),
{
}

/// What the process is asked to do is said in full.
pub proof fn law_actions_are_said_in_full(
    session_key: String,
    path: String,
    sandbox_id: String,
    image: String,
    command: String,
    opts: ExecOpts,
)
    ensures
        (ReadAction::AskSandboxed { session_key })@ == (ActionView::AskSandboxed {
            session_key: session_key@,
        }),
        (ReadAction::HostMetadata { path })@ == (ActionView::HostMetadata { path: path@ }),
        (ReadAction::HostRead { path })@ == (ActionView::HostRead { path: path@ }),
        (ReadAction::ResolveSandbox { session_key })@ == (ActionView::ResolveSandbox {
            session_key: session_key@,
        }),
        (ReadAction::PrepareSandbox { sandbox_id, image })@ == (ActionView::PrepareSandbox {
            sandbox_id: sandbox_id@,
            image: image@,
        }),
        (ReadAction::RunCommand { sandbox_id, command, opts })@ matches ActionView::RunCommand {
            sandbox_id: id,
            command: text,
            timeout_secs,
            max_output_bytes,
            working_dir,
            env,
        } && {
            &&& id == sandbox_id@
            &&& text == command@
            &&& timeout_secs == opts.timeout_secs
            &&& max_output_bytes == opts.max_output_bytes
            &&& working_dir is Some <==> opts.working_dir is Some
            &&& working_dir is Some ==> working_dir->0 == opts.working_dir->0@
            &&& env == opts.env@
        },
        ReadAction::Finished@ == ActionView::Finished,
{
}


} // verus!
