//! The per-user configuration store: where the file lives, what a read or a
//! write asks of the file system, and what comes back.
//!
//! The store keeps no copy of the document between calls. A read of a missing
//! file first writes the default document, so a read is not free of effects.

use vstd::prelude::*;
use vstd::string::*;
use crate::failure::{failure_message, failure_prefix, Failure};

verus! {

/// Name of the configuration file inside the per-user directory.
pub open spec fn config_file_name_text() -> Seq<char> {
    "app-config.json"@
}

/// The document that a first read writes and returns.
pub open spec fn default_config_text() -> Seq<char> {
    "{\"theme\": \"light\"}"@
}

/// Name of the configuration file inside the per-user directory.
pub fn config_file_name() -> (name: String)
    ensures
        name@ == config_file_name_text(),
{
    String::from_str("app-config.json")
}

/// The document that a first read writes and returns.
pub fn default_config() -> (text: String)
    ensures
        text@ == default_config_text(),
{
    String::from_str("{\"theme\": \"light\"}")
}

/// The configuration file's place: the per-user directory and the file's
/// name in it.
#[derive(Debug)]
pub struct ConfigPath {
    pub config_dir: String,
    pub file_name: String,
}

/// The configuration file below the directory that the host resolved, or the
/// message that tells why the host could not resolve one.
pub fn get_app_config_path(resolved: Result<String, String>) -> (path: Result<ConfigPath, String>)
    ensures
        match (resolved, path) {
            (Ok(dir), Ok(p)) => p.config_dir@ == dir@ && p.file_name@ == config_file_name_text(),
            (Err(cause), Err(message)) => message@ == failure_prefix(Failure::ResolveConfigDir)
                + cause@,
            _ => false,
        },
{
    match resolved {
        Ok(dir) => Ok(ConfigPath { config_dir: dir, file_name: config_file_name() }),
        Err(cause) => Err(failure_message(Failure::ResolveConfigDir, cause.as_str())),
    }
}

/// One thing that the store asks of the file system.
#[derive(Debug)]
pub enum FsRequest {
    /// Create the directory that holds the configuration file, and its
    /// parents, where they are missing.
    EnsureParentDir,
    /// Replace the configuration file's contents with this text.
    WriteFile(String),
    /// Read the configuration file whole.
    ReadFile,
}

/// A request with its text as a sequence of characters.
pub enum RequestModel {
    EnsureParentDir,
    WriteFile(Seq<char>),
    ReadFile,
}

impl View for FsRequest {
    type V = RequestModel;

    open spec fn view(&self) -> RequestModel {
        match self {
            FsRequest::EnsureParentDir => RequestModel::EnsureParentDir,
            FsRequest::WriteFile(text) => RequestModel::WriteFile(text@),
            FsRequest::ReadFile => RequestModel::ReadFile,
        }
    }
}

/// A request and the failure to report where the file system refuses it.
#[derive(Debug)]
pub struct Step {
    pub request: FsRequest,
    pub on_failure: Failure,
}

/// A step with its request's text as a sequence of characters.
pub struct StepModel {
    pub request: RequestModel,
    pub on_failure: Failure,
}

impl View for Step {
    type V = StepModel;

    open spec fn view(&self) -> StepModel {
        StepModel { request: self.request@, on_failure: self.on_failure }
    }
}

/// What the caller gets once every step has succeeded.
#[derive(Debug)]
pub enum Reply {
    /// Nothing but the news of success.
    Nothing,
    /// This text.
    Text(String),
    /// What the plan's `ReadFile` step read.
    FileContents,
}

/// A reply with its text as a sequence of characters.
pub enum ReplyModel {
    Nothing,
    Text(Seq<char>),
    FileContents,
}

impl View for Reply {
    type V = ReplyModel;

    open spec fn view(&self) -> ReplyModel {
        match self {
            Reply::Nothing => ReplyModel::Nothing,
            Reply::Text(text) => ReplyModel::Text(text@),
            Reply::FileContents => ReplyModel::FileContents,
        }
    }
}

/// The steps of one call on the store, to be taken in order until one fails,
/// and the reply that follows the last.
#[derive(Debug)]
pub struct ConfigPlan {
    pub steps: Vec<Step>,
    pub reply: Reply,
}

/// A plan as the sequence of its steps and its reply.
pub struct PlanModel {
    pub steps: Seq<StepModel>,
    pub reply: ReplyModel,
}

impl View for ConfigPlan {
    type V = PlanModel;

    open spec fn view(&self) -> PlanModel {
        PlanModel {
            steps: Seq::new(self.steps@.len(), |i: int| self.steps@[i]@),
            reply: self.reply@,
        }
    }
}

/// The plan of a read. A file that exists is read and returned as it is. A
/// missing one is created with the default document, its directory first, and
/// the default document is returned.
pub open spec fn read_plan(file_exists: bool) -> PlanModel {
    if file_exists {
        PlanModel {
            steps: seq![
                StepModel { request: RequestModel::ReadFile, on_failure: Failure::ReadConfig },
            ],
            reply: ReplyModel::FileContents,
        }
    } else {
        PlanModel {
            steps: seq![
                StepModel {
                    request: RequestModel::EnsureParentDir,
                    on_failure: Failure::CreateConfigDir,
                },
                StepModel {
                    request: RequestModel::WriteFile(default_config_text()),
                    on_failure: Failure::WriteDefaultConfig,
                },
            ],
            reply: ReplyModel::Text(default_config_text()),
        }
    }
}

/// The plan of a write: the directory first, then the file with exactly the
/// given text, whatever it holds.
pub open spec fn write_plan(config: Seq<char>) -> PlanModel {
    PlanModel {
        steps: seq![
            StepModel {
                request: RequestModel::EnsureParentDir,
                on_failure: Failure::CreateConfigDir,
            },
            StepModel { request: RequestModel::WriteFile(config), on_failure: Failure::WriteConfig },
        ],
        reply: ReplyModel::Nothing,
    }
}

/// Plans a read of the configuration, given whether the file exists.
pub fn plan_read_config(file_exists: bool) -> (plan: ConfigPlan)
    ensures
        plan@ == read_plan(file_exists),
{
    let mut steps: Vec<Step> = Vec::new();
    let plan = if file_exists {
        steps.push(Step { request: FsRequest::ReadFile, on_failure: Failure::ReadConfig });
        ConfigPlan { steps, reply: Reply::FileContents }
    } else {
        steps.push(Step { request: FsRequest::EnsureParentDir, on_failure: Failure::CreateConfigDir });
        steps.push(
            Step {
                request: FsRequest::WriteFile(default_config()),
                on_failure: Failure::WriteDefaultConfig,
            },
        );
        ConfigPlan { steps, reply: Reply::Text(default_config()) }
    };
    proof {
        assert(plan@.steps =~= read_plan(file_exists).steps);
    }
    plan
}

/// Plans a write of `config` as the new configuration.
pub fn plan_write_config(config: String) -> (plan: ConfigPlan)
    ensures
        plan@ == write_plan(config@),
{
    let mut steps: Vec<Step> = Vec::new();
    steps.push(Step { request: FsRequest::EnsureParentDir, on_failure: Failure::CreateConfigDir });
    steps.push(Step { request: FsRequest::WriteFile(config), on_failure: Failure::WriteConfig });
    let plan = ConfigPlan { steps, reply: Reply::Nothing };
    proof {
        assert(plan@.steps =~= write_plan(config@).steps);
    }
    plan
}

/// The text that `reply` stands for, where `read` is what the plan's
/// `ReadFile` step read: the empty text for a reply that carries none.
pub open spec fn reply_shown(reply: ReplyModel, read: Seq<char>) -> Seq<char> {
    match reply {
        ReplyModel::Nothing => Seq::empty(),
        ReplyModel::Text(text) => text,
        ReplyModel::FileContents => read,
    }
}

/// A step that the file system refused, and the cause as the system worded it.
#[derive(Debug)]
pub struct Refusal {
    pub step: usize,
    pub cause: String,
}

/// How a call on the store ends: with the failure of the refused step and
/// its cause where a step was refused, else with the reply's text.
pub open spec fn outcome(plan: PlanModel, refused: Option<(int, Seq<char>)>, read: Seq<char>)
    -> Result<Seq<char>, Seq<char>> {
    match refused {
        Some((step, cause)) => Err(failure_prefix(plan.steps[step].on_failure) + cause),
        None => Ok(reply_shown(plan.reply, read)),
    }
}

/// The text of a result, on either side.
pub open spec fn result_text(result: Result<String, String>) -> Result<Seq<char>, Seq<char>> {
    match result {
        Ok(text) => Ok(text@),
        Err(message) => Err(message@),
    }
}

/// What the caller gets from a call on the store. `refused` names the step
/// that the file system refused, if one was; `read` is the text that the
/// `ReadFile` step read, if the plan has one and it was granted.
pub fn conclude(plan: &ConfigPlan, refused: Option<Refusal>, read: &str) -> (result: Result<
    String,
    String,
>)
    requires
        refused matches Some(r) ==> r.step < plan.steps@.len(),
    ensures
        result_text(result) == outcome(
            plan@,
            match refused {
                Some(r) => Some((r.step as int, r.cause@)),
                None => None,
            },
            read@,
        ),
{
    match refused {
        Some(r) => Err(failure_message(plan.steps[r.step].on_failure, r.cause.as_str())),
        None => Ok(
            match &plan.reply {
                Reply::Nothing => String::new(),
                Reply::Text(text) => text.clone(),
                Reply::FileContents => String::from_str(read),
            },
        ),
    }
}

/// What the file system answered to the step last asked of it.
#[derive(Debug)]
pub enum Event {
    /// Nothing has been asked yet.
    Start,
    /// The step with this index was granted.
    Granted(usize),
    /// The step with this index was refused, for this cause.
    Refused(usize, String),
}

/// What to do next in a call on the store.
#[derive(Debug)]
pub enum Next {
    /// Ask the file system for the step with this index.
    Perform(usize),
    /// Hand this to the caller.
    Finished(Result<String, String>),
}

/// What follows `event` in a plan of `steps` steps: the index of the step to
/// ask for next, or `None` where the call is over. Steps are asked for in
/// order, and none after a refusal.
pub open spec fn step_after(steps: nat, event: Event) -> Option<int> {
    match event {
        Event::Start => if steps > 0 {
            Some(0int)
        } else {
            None
        },
        Event::Granted(step) => if step + 1 < steps {
            Some(step + 1)
        } else {
            None
        },
        Event::Refused(_, _) => None,
    }
}

/// The refusal that `event` reports, if it reports one.
pub open spec fn refusal_of(event: Event) -> Option<(int, Seq<char>)> {
    match event {
        Event::Refused(step, cause) => Some((step as int, cause@)),
        _ => None,
    }
}

/// Decides what follows `event`: the next step of the plan while steps are
/// granted and some are left, else the end of the call with its result.
/// `read` is the text that the `ReadFile` step read, if one was granted.
pub fn next_step(plan: &ConfigPlan, event: Event, read: &str) -> (next: Next)
    requires
        match event {
            Event::Start => true,
            Event::Granted(step) => step < plan.steps@.len(),
            Event::Refused(step, _) => step < plan.steps@.len(),
        },
    ensures
        match step_after(plan.steps@.len(), event) {
            Some(step) => next matches Next::Perform(i) && i == step,
            None => next matches Next::Finished(result) && result_text(result) == outcome(
                plan@,
                refusal_of(event),
                read@,
            ),
        },
{
    let steps: usize = plan.steps.len();
    match event {
        Event::Start => {
            if steps > 0 {
                Next::Perform(0)
            } else {
                Next::Finished(conclude(plan, None, read))
            }
        },
        Event::Granted(step) => {
            if step + 1 < steps {
                Next::Perform(step + 1)
            } else {
                Next::Finished(conclude(plan, None, read))
            }
        },
        Event::Refused(step, cause) => Next::Finished(
            conclude(plan, Some(Refusal { step, cause }), read),
        ),
    }
}

/// What the store can see of the file system: whether the configuration
/// file's directory is there, and the file's text if the file is.
pub struct DiskModel {
    pub dir_exists: bool,
    pub file: Option<Seq<char>>,
}

impl DiskModel {
    /// A file lies in a directory.
    pub open spec fn wf(self) -> bool {
        self.file is Some ==> self.dir_exists
    }

    /// Whether the file system can grant `request`: a file is written only
    /// into a directory that exists, and read only if it exists.
    pub open spec fn permits(self, request: RequestModel) -> bool {
        match request {
            RequestModel::EnsureParentDir => true,
            RequestModel::WriteFile(_) => self.dir_exists,
            RequestModel::ReadFile => self.file is Some,
        }
    }

    /// The file system once `request` has been granted.
    pub open spec fn after(self, request: RequestModel) -> DiskModel {
        match request {
            RequestModel::EnsureParentDir => DiskModel { dir_exists: true, file: self.file },
            RequestModel::WriteFile(text) => DiskModel {
                dir_exists: self.dir_exists,
                file: Some(text),
            },
            RequestModel::ReadFile => self,
        }
    }

    /// The file system once every step has been granted in order; `None`
    /// where a step asks what cannot be granted.
    pub open spec fn run(self, steps: Seq<StepModel>) -> Option<DiskModel>
        decreases steps.len(),
    {
        if steps.len() == 0 {
            Some(self)
        } else if !self.permits(steps[0].request) {
            None
        } else {
            self.after(steps[0].request).run(steps.drop_first())
        }
    }

    /// The text that `reply` stands for on this file system; the empty text
    /// for a reply that carries none.
    pub open spec fn reply_text(self, reply: ReplyModel) -> Seq<char> {
        reply_shown(
            reply,
            match self.file {
                Some(text) => text,
                None => Seq::empty(),
            },
        )
    }
}

proof fn lemma_run_two(disk: DiskModel, first: StepModel, second: StepModel)
    requires
        disk.permits(first.request),
        disk.after(first.request).permits(second.request),
    ensures
        disk.run(seq![first, second]) == Some(disk.after(first.request).after(second.request)),
{
    let steps = seq![first, second];
    let rest = steps.drop_first();
    assert(rest.len() == 1);
    assert(rest[0] == second);
    assert(rest.drop_first().len() == 0);
    let mid = disk.after(first.request);
    assert(mid.after(second.request).run(rest.drop_first()) == Some(
        mid.after(second.request),
    ));
    assert(mid.run(rest) == Some(mid.after(second.request)));
}

proof fn lemma_run_one(disk: DiskModel, only: StepModel)
    requires
        disk.permits(only.request),
    ensures
        disk.run(seq![only]) == Some(disk.after(only.request)),
{
    let steps = seq![only];
    assert(steps.drop_first().len() == 0);
    assert(disk.after(only.request).run(steps.drop_first()) == Some(disk.after(only.request)));
}

/// A first read, with no file there, leaves the file holding the default
/// document and returns that document; the read after it returns the same
/// text and changes nothing.
pub proof fn lemma_first_read_materializes(disk: DiskModel)
    requires
        disk.file is None,
    ensures
        disk.run(read_plan(false).steps) is Some,
        disk.run(read_plan(false).steps).unwrap().file == Some(default_config_text()),
        disk.run(read_plan(false).steps).unwrap().reply_text(read_plan(false).reply)
            == default_config_text(),
        disk.run(read_plan(false).steps).unwrap().run(read_plan(true).steps) == disk.run(
            read_plan(false).steps,
        ),
        disk.run(read_plan(false).steps).unwrap().reply_text(read_plan(true).reply)
            == default_config_text(),
{
    let first = read_plan(false);
    lemma_run_two(disk, first.steps[0], first.steps[1]);
    assert(first.steps =~= seq![first.steps[0], first.steps[1]]);
    let then = disk.run(first.steps).unwrap();
    let second = read_plan(true);
    lemma_run_one(then, second.steps[0]);
    assert(second.steps =~= seq![second.steps[0]]);
}

/// A write followed by a read returns exactly the text written, whether or
/// not it is a well-formed document, and the read changes nothing.
pub proof fn lemma_write_then_read(disk: DiskModel, config: Seq<char>)
    ensures
        disk.run(write_plan(config).steps) is Some,
        disk.run(write_plan(config).steps).unwrap().file == Some(config),
        disk.run(write_plan(config).steps).unwrap().run(read_plan(true).steps) == disk.run(
            write_plan(config).steps,
        ),
        disk.run(write_plan(config).steps).unwrap().reply_text(read_plan(true).reply) == config,
{
    let write = write_plan(config);
    lemma_run_two(disk, write.steps[0], write.steps[1]);
    assert(write.steps =~= seq![write.steps[0], write.steps[1]]);
    let then = disk.run(write.steps).unwrap();
    let read = read_plan(true);
    lemma_run_one(then, read.steps[0]);
    assert(read.steps =~= seq![read.steps[0]]);
}

/// Neither a read nor a write touches the file before its directory is
/// there: on any file system, with or without the directory, every step of
/// either plan can be granted, and the directory exists afterwards.
pub proof fn lemma_directory_before_file(disk: DiskModel, config: Seq<char>)
    requires
        disk.wf(),
    ensures
        disk.run(read_plan(disk.file is Some).steps) is Some,
        disk.run(read_plan(disk.file is Some).steps).unwrap().dir_exists,
        disk.run(write_plan(config).steps) is Some,
        disk.run(write_plan(config).steps).unwrap().dir_exists,
{
    let write = write_plan(config);
    lemma_run_two(disk, write.steps[0], write.steps[1]);
    assert(write.steps =~= seq![write.steps[0], write.steps[1]]);
    if disk.file is Some {
        let read = read_plan(true);
        lemma_run_one(disk, read.steps[0]);
        assert(read.steps =~= seq![read.steps[0]]);
    } else {
        let read = read_plan(false);
        lemma_run_two(disk, read.steps[0], read.steps[1]);
        assert(read.steps =~= seq![read.steps[0], read.steps[1]]);
    }
}

/// A call fails exactly when a step is refused, and a refusal ends it: where
/// the directory cannot be created, the file is not asked for.
pub proof fn lemma_refusal_ends_call(
    plan: PlanModel,
    refused: Option<(int, Seq<char>)>,
    read: Seq<char>,
    step: usize,
    cause: String,
)
    ensures
        outcome(plan, refused, read) is Err <==> refused is Some,
        step_after(plan.steps.len(), Event::Refused(step, cause)) is None,
        step_after(plan.steps.len(), Event::Granted(step)) matches Some(next) ==> next == step + 1
            && next < plan.steps.len(),
{
}

} // verus!
