//! The installation pipeline: one privileged step after the other, each
//! begun only when the one before it has ended well.
//!
//! The pipeline runs nothing itself. It hands out one piece of work at a
//! time and goes on when it is told what came of it; the installer's end
//! is reported by a message of its own, which may come much later.

use crate::config::{ConfigType, MakeConfig, MakeConfigView, Selections, SelectionsView, UserConfig, UserConfigView, DEFAULT_HOSTNAME};
use crate::error::{InstallError, InstallErrorView};
use crate::gateway::{architecture, architecture_command, completed, copy_words, credential, credential_line, generate, generate_command, install, install_command, make_dir, make_dir_command, move_hardware, move_hardware_command, outcome, partition, partition_command, password, password_command, remove, remove_command, remove_entry, remove_entry_command, unmount, unmount_command, Action, ActionView, AppMsg, Event, EventView, ROOT_NAME};
use crate::partitions::{resolve_boot_device, PartitionSchema, PartitionSchemaView};
use crate::templates::{lemma_step_progress, makeconfig, ConfigJob, ConfigJobView, Progress, ProgressView};
use crate::text::{trim, trimmed};
use vstd::prelude::*;

verus! {

/// What the pipeline is asked to do.
#[derive(Clone, Debug, PartialEq, Eq)]
pub enum InstallAsyncMsg {
    /// Install: the template set, the language, the time zone, the
    /// keyboard, the partition layout, the user, the selected features and
    /// the layout of the configuration.
    Install(
        String,
        Option<String>,
        Option<String>,
        Option<String>,
        Box<Option<PartitionSchema>>,
        Box<Option<UserConfig>>,
        Selections,
        ConfigType,
    ),
    /// The installer has ended: set the passwords.
    FinishInstall,
}

/// An `InstallAsyncMsg` as mathematical data.
pub enum InstallAsyncMsgView {
    Install {
        id: Seq<char>,
        language: Option<Seq<char>>,
        timezone: Option<Seq<char>>,
        keyboard: Option<Seq<char>>,
        partitions: Option<PartitionSchemaView>,
        user: Option<UserConfigView>,
        list: SelectionsView,
        configtype: ConfigType,
    },
    FinishInstall,
}

impl View for InstallAsyncMsg {
    type V = InstallAsyncMsgView;

    open spec fn view(&self) -> InstallAsyncMsgView {
        match self {
            InstallAsyncMsg::Install(
                id,
                language,
                timezone,
                keyboard,
                partitions,
                user,
                list,
                configtype,
            ) => InstallAsyncMsgView::Install {
                id: id@,
                language: language.deep_view(),
                timezone: timezone.deep_view(),
                keyboard: keyboard.deep_view(),
                partitions: partitions.deep_view(),
                user: user.deep_view(),
                list: list.deep_view(),
                configtype: *configtype,
            },
            InstallAsyncMsg::FinishInstall => InstallAsyncMsgView::FinishInstall,
        }
    }
}

/// Where the pipeline stands. But for the resting stages, it waits in each
/// for the work whose name the stage bears.
#[derive(Clone, Copy, Debug, PartialEq, Eq, Structural)]
pub enum Stage {
    /// Nothing was asked yet.
    Idle,
    /// The machine's architecture is asked for.
    Architecture,
    /// Clearing the workspace: what an earlier run left mounted is
    /// unmounted.
    Unmount,
    /// Clearing the workspace: what an earlier run left is removed.
    Remove,
    /// The partition layout is applied.
    Partition,
    /// The hardware's base configuration is generated.
    Generate,
    /// Relocating for the structured layout: the directory of the hardware
    /// facts is made.
    MakeDirectory,
    /// Relocating for the structured layout: the hardware facts are moved.
    MoveHardware,
    /// Relocating for the structured layout: the flat entry file is
    /// removed.
    RemoveEntry,
    /// The configuration is rendered.
    Render,
    /// The installer was started; its end is awaited.
    AwaitInstaller,
    /// Provisioning credentials: the user's password is set.
    UserPassword,
    /// Provisioning credentials: root's password is set.
    RootPassword,
    /// The installation is complete.
    Finished,
    /// The installation was given up.
    Failed,
}

impl Stage {
    /// Nothing moves the pipeline on from here.
    pub open spec fn is_final(self) -> bool {
        self == Stage::Finished || self == Stage::Failed
    }

    /// How the command of this stage ends does not matter, as long as it
    /// could be run: clearing a workspace that is not there fails and is
    /// no fault.
    pub open spec fn is_tolerant(self) -> bool {
        self == Stage::Unmount || self == Stage::Remove
    }

    /// The credentials are held in this stage: from the installer's start
    /// to the setting of the last password.
    pub open spec fn holds_credentials(self) -> bool {
        self == Stage::AwaitInstaller || self == Stage::UserPassword || self
            == Stage::RootPassword
    }
}

/// The pipeline.
#[derive(Clone, Debug, PartialEq, Eq)]
pub struct InstallAsyncModel {
    /// The user whose password is to be set, while that is pending.
    pub username: Option<String>,
    /// The user's password, while setting it is pending.
    pub password: Option<String>,
    /// Root's password, if root gets one, while setting it is pending.
    pub rootpassword: Option<String>,
    pub stage: Stage,
    /// Why the installation was given up, once it was.
    pub error: Option<InstallError>,
    /// The directory of helper programs.
    pub libexecdir: String,
    /// The directory of system configuration.
    pub sysconfdir: String,
    /// What the configuration is rendered from, until the rendering begins.
    pub request: Option<MakeConfig>,
    /// The partition layout, until it is applied.
    pub partitions: Option<PartitionSchema>,
    pub configtype: ConfigType,
    /// The machine's architecture, once it is known.
    pub arch: String,
    /// The rendering, while it is under way.
    pub job: Option<ConfigJob>,
    /// The command that was last asked for.
    pub outstanding: Vec<String>,
}

/// An `InstallAsyncModel` as mathematical data.
pub struct ModelView {
    pub username: Option<Seq<char>>,
    pub password: Option<Seq<char>>,
    pub rootpassword: Option<Seq<char>>,
    pub stage: Stage,
    pub error: Option<InstallErrorView>,
    pub libexecdir: Seq<char>,
    pub sysconfdir: Seq<char>,
    pub request: Option<MakeConfigView>,
    pub partitions: Option<PartitionSchemaView>,
    pub configtype: ConfigType,
    pub arch: Seq<char>,
    pub job: Option<ConfigJobView>,
    pub outstanding: Seq<Seq<char>>,
}

impl View for InstallAsyncModel {
    type V = ModelView;

    open spec fn view(&self) -> ModelView {
        ModelView {
            username: self.username.deep_view(),
            password: self.password.deep_view(),
            rootpassword: self.rootpassword.deep_view(),
            stage: self.stage,
            error: self.error.deep_view(),
            libexecdir: self.libexecdir@,
            sysconfdir: self.sysconfdir@,
            request: self.request.deep_view(),
            partitions: self.partitions.deep_view(),
            configtype: self.configtype,
            arch: self.arch@,
            job: self.job.deep_view(),
            outstanding: self.outstanding.deep_view(),
        }
    }
}

impl ModelView {
    /// The pipeline before anything was asked of it.
    pub open spec fn idle(libexecdir: Seq<char>, sysconfdir: Seq<char>) -> ModelView {
        ModelView {
            username: None,
            password: None,
            rootpassword: None,
            stage: Stage::Idle,
            error: None,
            libexecdir,
            sysconfdir,
            request: None,
            partitions: None,
            configtype: ConfigType::Standard,
            arch: Seq::empty(),
            job: None,
            outstanding: Seq::empty(),
        }
    }

    /// The credentials are held in no stage but those between the
    /// installer's start and the setting of the last password.
    pub open spec fn wf(self) -> bool {
        !self.stage.holds_credentials() ==> self.username is None && self.password is None
            && self.rootpassword is None
    }

    /// The name of the machine: the user's choice, or the default.
    pub open spec fn hostname(self) -> Seq<char> {
        match self.request {
            Some(request) => request.hostname(),
            None => DEFAULT_HOSTNAME@,
        }
    }

    /// The pipeline given up for `error`: the presentation layer is told
    /// of a failure and no more, and the credentials are let go.
    pub open spec fn fail(self, error: InstallErrorView) -> (ModelView, ActionView) {
        (
            ModelView {
                stage: Stage::Failed,
                error: Some(error),
                username: None,
                password: None,
                rootpassword: None,
                ..self
            },
            ActionView::Report { message: AppMsg::Error },
        )
    }

    /// The pipeline waiting in `stage` for `command` to be run.
    pub open spec fn run(self, stage: Stage, command: Seq<Seq<char>>) -> (ModelView, ActionView) {
        (ModelView { stage, outstanding: command, ..self }, ActionView::Run { command })
    }

    /// The pipeline waiting in `stage` for `command` to be run on `input`.
    pub open spec fn pipe(self, stage: Stage, command: Seq<Seq<char>>, input: Seq<char>) -> (
        ModelView,
        ActionView,
    ) {
        (ModelView { stage, outstanding: command, ..self }, ActionView::Pipe { command, input })
    }

    /// The pipeline complete: the presentation layer is told so, and the
    /// credentials are let go.
    pub open spec fn finish(self) -> (ModelView, ActionView) {
        (
            ModelView {
                stage: Stage::Finished,
                username: None,
                password: None,
                rootpassword: None,
                ..self
            },
            ActionView::Report { message: AppMsg::Finished },
        )
    }

    /// The pipeline begun on a request: the boot device is resolved from
    /// the layout, and the machine's architecture is asked for.
    pub open spec fn begin(
        self,
        id: Seq<char>,
        language: Option<Seq<char>>,
        timezone: Option<Seq<char>>,
        keyboard: Option<Seq<char>>,
        partitions: Option<PartitionSchemaView>,
        user: Option<UserConfigView>,
        list: SelectionsView,
        configtype: ConfigType,
    ) -> (ModelView, ActionView) {
        ModelView {
            request: Some(
                MakeConfigView {
                    id,
                    language,
                    timezone,
                    keyboard,
                    user,
                    list,
                    bootdisk: match partitions {
                        Some(layout) => layout.boot_device(),
                        None => None,
                    },
                },
            ),
            partitions,
            configtype,
            ..self
        }.run(Stage::Architecture, architecture_command())
    }

    /// The pipeline setting the user's password, which takes a user name
    /// and a password.
    pub open spec fn provision(self) -> (ModelView, ActionView) {
        match self.username {
            None => self.fail(InstallErrorView::NoUsername),
            Some(name) => match self.password {
                None => self.fail(InstallErrorView::NoPassword),
                Some(secret) => self.pipe(
                    Stage::UserPassword,
                    password_command(),
                    credential_line(name, secret),
                ),
            },
        }
    }

    /// The pipeline and the work it hands out after the message `msg`. A
    /// request is taken where nothing was asked yet; the installer's end
    /// is taken there too, and where it is awaited. In any other stage but
    /// the final ones a message is a failure.
    pub open spec fn update(self, msg: InstallAsyncMsgView) -> (ModelView, ActionView) {
        if self.stage.is_final() {
            (self, ActionView::Nothing)
        } else if self.stage == Stage::Idle {
            match msg {
                InstallAsyncMsgView::Install {
                    id,
                    language,
                    timezone,
                    keyboard,
                    partitions,
                    user,
                    list,
                    configtype,
                } => self.begin(
                    id,
                    language,
                    timezone,
                    keyboard,
                    partitions,
                    user,
                    list,
                    configtype,
                ),
                InstallAsyncMsgView::FinishInstall => self.provision(),
            }
        } else if self.stage == Stage::AwaitInstaller && msg is FinishInstall {
            self.provision()
        } else {
            self.fail(InstallErrorView::Unexpected)
        }
    }

    /// The pipeline applying the partition layout, which takes a layout.
    pub open spec fn apply_partitions(self) -> (ModelView, ActionView) {
        match self.partitions {
            Some(layout) => (
                ModelView {
                    stage: Stage::Partition,
                    partitions: None,
                    outstanding: partition_command(self.libexecdir),
                    ..self
                },
                ActionView::Partition { command: partition_command(self.libexecdir), layout },
            ),
            None => self.fail(InstallErrorView::NoPartitions),
        }
    }

    /// The pipeline beginning to render the configuration.
    pub open spec fn render(self) -> (ModelView, ActionView) {
        match self.request {
            Some(request) => (
                ModelView {
                    stage: Stage::Render,
                    request: None,
                    job: Some(ConfigJobView::started(request, self.sysconfdir, self.libexecdir)),
                    ..self
                },
                ActionView::DetectFirmware,
            ),
            None => self.fail(InstallErrorView::Unexpected),
        }
    }

    /// The pipeline starting the installer, which takes a user whose
    /// machine has a name. The user's credentials are kept for the time
    /// when the installer has ended.
    pub open spec fn install(self, user: Option<UserConfigView>) -> (ModelView, ActionView) {
        match user {
            Some(user) => if user.hostname.len() > 0 {
                (
                    ModelView {
                        stage: Stage::AwaitInstaller,
                        username: Some(user.username),
                        password: Some(user.password),
                        rootpassword: user.rootpassword,
                        job: None,
                        ..self
                    },
                    ActionView::Install { command: install_command(user.hostname) },
                )
            } else {
                ModelView { job: None, ..self }.fail(InstallErrorView::NoHostname)
            },
            None => ModelView { job: None, ..self }.fail(InstallErrorView::NoHostname),
        }
    }

    /// The pipeline while the configuration is rendered: the rendering
    /// goes on by `event`; its end starts the installer, its failure is
    /// the pipeline's.
    pub open spec fn rendering(self, event: EventView) -> (ModelView, ActionView) {
        match self.job {
            Some(job) => {
                let (next, progress) = job.step(event);
                match progress {
                    ProgressView::Next(action) => (ModelView { job: Some(next), ..self }, action),
                    ProgressView::Done => self.install(next.config.user),
                    ProgressView::Failed(error) => ModelView { job: Some(next), ..self }.fail(
                        error,
                    ),
                }
            },
            None => self.fail(InstallErrorView::Unexpected),
        }
    }

    /// The pipeline after the command of its stage has ended well, with
    /// `output` on its standard output.
    pub open spec fn advance(self, output: Seq<char>) -> (ModelView, ActionView) {
        match self.stage {
            Stage::Architecture => ModelView { arch: trimmed(output), ..self }.run(
                Stage::Unmount,
                unmount_command(),
            ),
            Stage::Unmount => self.run(Stage::Remove, remove_command()),
            Stage::Remove => self.apply_partitions(),
            Stage::Partition => self.run(Stage::Generate, generate_command()),
            Stage::Generate => if self.configtype == ConfigType::Snowfall {
                self.run(Stage::MakeDirectory, make_dir_command(self.arch, self.hostname()))
            } else {
                self.render()
            },
            Stage::MakeDirectory => self.run(
                Stage::MoveHardware,
                move_hardware_command(self.arch, self.hostname()),
            ),
            Stage::MoveHardware => self.run(Stage::RemoveEntry, remove_entry_command()),
            Stage::RemoveEntry => self.render(),
            Stage::UserPassword => match self.rootpassword {
                Some(secret) => self.pipe(
                    Stage::RootPassword,
                    password_command(),
                    credential_line(ROOT_NAME@, secret),
                ),
                None => self.finish(),
            },
            Stage::RootPassword => self.finish(),
            _ => self.fail(InstallErrorView::Unexpected),
        }
    }

    /// The pipeline and the work it hands out after `event` was reported
    /// to it. A command that has failed ends the pipeline; so does a
    /// report where none is awaited.
    pub open spec fn resume(self, event: EventView) -> (ModelView, ActionView) {
        if self.stage.is_final() {
            (self, ActionView::Nothing)
        } else if self.stage == Stage::Idle || self.stage == Stage::AwaitInstaller {
            self.fail(InstallErrorView::Unexpected)
        } else if self.stage == Stage::Render {
            self.rendering(event)
        } else {
            match outcome(self.outstanding, event, self.stage.is_tolerant()) {
                Ok(output) => self.advance(output),
                Err(error) => self.fail(error),
            }
        }
    }
}

impl InstallAsyncModel {
    /// The pipeline before anything was asked of it, for a system whose
    /// helper programs lie in `libexecdir` and whose template sets lie
    /// below `sysconfdir`.
    pub fn init(libexecdir: String, sysconfdir: String) -> (model: Self)
        ensures
            model@ == ModelView::idle(libexecdir@, sysconfdir@),
    {
        let model = InstallAsyncModel {
            username: None,
            password: None,
            rootpassword: None,
            stage: Stage::Idle,
            error: None,
            libexecdir,
            sysconfdir,
            request: None,
            partitions: None,
            configtype: ConfigType::Standard,
            arch: String::new(),
            job: None,
            outstanding: Vec::new(),
        };
        proof {
            assert(model.outstanding.deep_view() =~= Seq::<Seq<char>>::empty());
        }
        model
    }

    fn fail(&mut self, error: InstallError) -> (action: Action)
        ensures
            (final(self)@, action@) == old(self)@.fail(error@),
    {
        self.stage = Stage::Failed;
        self.error = Some(error);
        self.username = None;
        self.password = None;
        self.rootpassword = None;
        Action::Report { message: AppMsg::Error }
    }

    fn run(&mut self, stage: Stage, command: Vec<String>) -> (action: Action)
        ensures
            (final(self)@, action@) == old(self)@.run(stage, command.deep_view()),
    {
        self.stage = stage;
        self.outstanding = copy_words(&command);
        Action::Run { command }
    }

    fn pipe(&mut self, stage: Stage, command: Vec<String>, input: String) -> (action: Action)
        ensures
            (final(self)@, action@) == old(self)@.pipe(stage, command.deep_view(), input@),
    {
        self.stage = stage;
        self.outstanding = copy_words(&command);
        Action::Pipe { command, input }
    }

    fn finish(&mut self) -> (action: Action)
        ensures
            (final(self)@, action@) == old(self)@.finish(),
    {
        self.stage = Stage::Finished;
        self.username = None;
        self.password = None;
        self.rootpassword = None;
        Action::Report { message: AppMsg::Finished }
    }

    /// The name of the machine: the user's choice, or the default.
    pub fn hostname(&self) -> (name: &str)
        ensures
            name@ == self@.hostname(),
    {
        match &self.request {
            Some(request) => request.hostname(),
            None => DEFAULT_HOSTNAME,
        }
    }

    fn provision(&mut self) -> (action: Action)
        ensures
            (final(self)@, action@) == old(self)@.provision(),
    {
        let line = match &self.username {
            None => Err(InstallError::NoUsername),
            Some(name) => match &self.password {
                None => Err(InstallError::NoPassword),
                Some(secret) => Ok(credential(name.as_str(), secret.as_str())),
            },
        };
        match line {
            Ok(input) => self.pipe(Stage::UserPassword, password(), input),
            Err(error) => self.fail(error),
        }
    }

    fn apply_partitions(&mut self) -> (action: Action)
        ensures
            (final(self)@, action@) == old(self)@.apply_partitions(),
    {
        match self.partitions.take() {
            Some(layout) => {
                let command = partition(self.libexecdir.as_str());
                self.stage = Stage::Partition;
                self.outstanding = copy_words(&command);
                Action::Partition { command, layout }
            },
            None => self.fail(InstallError::NoPartitions),
        }
    }

    fn render(&mut self) -> (action: Action)
        ensures
            (final(self)@, action@) == old(self)@.render(),
    {
        match self.request.take() {
            Some(request) => {
                let (job, action) = makeconfig(
                    request,
                    self.sysconfdir.clone(),
                    self.libexecdir.clone(),
                );
                self.stage = Stage::Render;
                self.job = Some(job);
                action
            },
            None => self.fail(InstallError::Unexpected),
        }
    }

    fn install(&mut self, user: Option<UserConfig>) -> (action: Action)
        ensures
            (final(self)@, action@) == old(self)@.install(user.deep_view()),
    {
        self.job = None;
        match user {
            Some(user) => if user.hostname.as_str().unicode_len() > 0 {
                let command = install(user.hostname.as_str());
                self.stage = Stage::AwaitInstaller;
                self.username = Some(user.username);
                self.password = Some(user.password);
                self.rootpassword = user.rootpassword;
                Action::Install { command }
            } else {
                self.fail(InstallError::NoHostname)
            },
            None => self.fail(InstallError::NoHostname),
        }
    }

    fn rendering(&mut self, event: Event) -> (action: Action)
        ensures
            (final(self)@, action@) == old(self)@.rendering(event@),
    {
        match self.job.take() {
            Some(job) => {
                let mut job = job;
                let progress = job.resume(event);
                match progress {
                    Progress::Next(action) => {
                        self.job = Some(job);
                        action
                    },
                    Progress::Done => self.install(job.config.user),
                    Progress::Failed(error) => {
                        self.job = Some(job);
                        self.fail(error)
                    },
                }
            },
            None => self.fail(InstallError::Unexpected),
        }
    }

    fn advance(&mut self, output: String) -> (action: Action)
        ensures
            (final(self)@, action@) == old(self)@.advance(output@),
    {
        match self.stage {
            Stage::Architecture => {
                self.arch = trim(output.as_str());
                self.run(Stage::Unmount, unmount())
            },
            Stage::Unmount => self.run(Stage::Remove, remove()),
            Stage::Remove => self.apply_partitions(),
            Stage::Partition => self.run(Stage::Generate, generate()),
            Stage::Generate => if self.configtype == ConfigType::Snowfall {
                let command = make_dir(self.arch.as_str(), self.hostname());
                self.run(Stage::MakeDirectory, command)
            } else {
                self.render()
            },
            Stage::MakeDirectory => {
                let command = move_hardware(self.arch.as_str(), self.hostname());
                self.run(Stage::MoveHardware, command)
            },
            Stage::MoveHardware => self.run(Stage::RemoveEntry, remove_entry()),
            Stage::RemoveEntry => self.render(),
            Stage::UserPassword => {
                let line = match &self.rootpassword {
                    Some(secret) => Some(credential(ROOT_NAME, secret.as_str())),
                    None => None,
                };
                match line {
                    Some(input) => self.pipe(Stage::RootPassword, password(), input),
                    None => self.finish(),
                }
            },
            Stage::RootPassword => self.finish(),
            _ => self.fail(InstallError::Unexpected),
        }
    }

    /// Takes the message `msg`, and hands out the work that the pipeline
    /// then waits for.
    pub fn update(&mut self, msg: InstallAsyncMsg) -> (action: Action)
        ensures
            (final(self)@, action@) == old(self)@.update(msg@),
    {
        match self.stage {
            Stage::Finished | Stage::Failed => Action::Nothing,
            Stage::Idle => match msg {
                InstallAsyncMsg::Install(
                    id,
                    language,
                    timezone,
                    keyboard,
                    partitions,
                    user,
                    list,
                    configtype,
                ) => {
                    let partitions: Option<PartitionSchema> = *partitions;
                    let user: Option<UserConfig> = *user;
                    let bootdisk = match resolve_boot_device(&partitions) {
                        Ok(device) => device,
                        Err(_) => None,
                    };
                    self.request = Some(
                        MakeConfig { id, language, timezone, keyboard, user, list, bootdisk },
                    );
                    self.partitions = partitions;
                    self.configtype = configtype;
                    self.run(Stage::Architecture, architecture())
                },
                InstallAsyncMsg::FinishInstall => self.provision(),
            },
            Stage::AwaitInstaller => match msg {
                InstallAsyncMsg::FinishInstall => self.provision(),
                _ => self.fail(InstallError::Unexpected),
            },
            _ => self.fail(InstallError::Unexpected),
        }
    }

    /// Takes the report `event` of the work that was last handed out, and
    /// hands out the work that the pipeline then waits for.
    pub fn resume(&mut self, event: Event) -> (action: Action)
        ensures
            (final(self)@, action@) == old(self)@.resume(event@),
    {
        match self.stage {
            Stage::Finished | Stage::Failed => Action::Nothing,
            Stage::Idle | Stage::AwaitInstaller => self.fail(InstallError::Unexpected),
            Stage::Render => self.rendering(event),
            _ => {
                let tolerant = self.stage == Stage::Unmount || self.stage == Stage::Remove;
                match completed(&self.outstanding, event, tolerant) {
                    Ok(output) => self.advance(output),
                    Err(error) => self.fail(error),
                }
            },
        }
    }
}


impl Stage {
    /// The place of the stage in the pipeline's order.
    pub open spec fn rank(self) -> int {
        match self {
            Stage::Idle => 0,
            Stage::Architecture => 1,
            Stage::Unmount => 2,
            Stage::Remove => 3,
            Stage::Partition => 4,
            Stage::Generate => 5,
            Stage::MakeDirectory => 6,
            Stage::MoveHardware => 7,
            Stage::RemoveEntry => 8,
            Stage::Render => 9,
            Stage::AwaitInstaller => 10,
            Stage::UserPassword => 11,
            Stage::RootPassword => 12,
            Stage::Finished => 13,
            Stage::Failed => 14,
        }
    }
}

/// Nothing moves a pipeline that is complete or given up, and it asks for
/// nothing more.
pub proof fn lemma_final_stages_absorb(model: ModelView, msg: InstallAsyncMsgView, event: EventView)
    requires
        model.stage.is_final(),
    ensures
        model.update(msg) == (model, ActionView::Nothing),
        model.resume(event) == (model, ActionView::Nothing),
{
}

/// The pipeline never goes back: a message or a report leaves it in its
/// stage (only while the configuration is rendered) or moves it to a later
/// one.
pub proof fn lemma_stages_in_order(model: ModelView, msg: InstallAsyncMsgView, event: EventView)
    ensures
        model.update(msg).0.stage.rank() >= model.stage.rank(),
        model.resume(event).0.stage.rank() >= model.stage.rank(),
        model.resume(event).0.stage == model.stage ==> model.stage == Stage::Render
            || model.stage.is_final(),
{
    if model.job is Some {
        lemma_step_progress(model.job->0, event);
    }
}

/// The presentation layer is told of a run's end exactly when the run
/// ends, of a failure when it is given up and of success when it is
/// complete: a run has one outcome.
pub proof fn lemma_one_outcome(model: ModelView, msg: InstallAsyncMsgView, event: EventView)
    requires
        !model.stage.is_final(),
    ensures
        ({
            let (next, action) = model.update(msg);
            &&& action is Report <==> next.stage.is_final()
            &&& action == (ActionView::Report { message: AppMsg::Error }) <==> next.stage
                == Stage::Failed
            &&& action == (ActionView::Report { message: AppMsg::Finished }) <==> next.stage
                == Stage::Finished
        }),
        ({
            let (next, action) = model.resume(event);
            &&& action is Report <==> next.stage.is_final()
            &&& action == (ActionView::Report { message: AppMsg::Error }) <==> next.stage
                == Stage::Failed
            &&& action == (ActionView::Report { message: AppMsg::Finished }) <==> next.stage
                == Stage::Finished
        }),
{
    if model.job is Some {
        lemma_step_progress(model.job->0, event);
    }
}

/// A pipeline that is given up says why.
pub proof fn lemma_failure_has_cause(model: ModelView, msg: InstallAsyncMsgView, event: EventView)
    requires
        model.stage != Stage::Failed,
    ensures
        model.update(msg).0.stage == Stage::Failed ==> model.update(msg).0.error is Some,
        model.resume(event).0.stage == Stage::Failed ==> model.resume(event).0.error is Some,
{
    if model.job is Some {
        lemma_step_progress(model.job->0, event);
    }
}

/// The credentials are held from the installer's start to the setting of
/// the last password and in no other stage, whatever is reported.
pub proof fn lemma_credentials_held(model: ModelView, msg: InstallAsyncMsgView, event: EventView)
    requires
        model.wf(),
    ensures
        ModelView::idle(model.libexecdir, model.sysconfdir).wf(),
        model.update(msg).0.wf(),
        model.resume(event).0.wf(),
{
    if model.job is Some {
        lemma_step_progress(model.job->0, event);
    }
}

/// Without a partition layout the pipeline is given up when the workspace
/// is cleared, before anything is partitioned.
pub proof fn lemma_no_layout_fails(model: ModelView, event: EventView)
    requires
        model.stage == Stage::Remove,
        model.partitions is None,
    ensures
        model.resume(event).0.stage == Stage::Failed,
        model.resume(event).1 == (ActionView::Report { message: AppMsg::Error }),
        event is Exited ==> model.resume(event).0.error == Some(InstallErrorView::NoPartitions),
{
}

/// The hardware's base configuration is generated only when the partition
/// layout was applied, and then by the command for it.
pub proof fn lemma_generate_after_partition(model: ModelView, msg: InstallAsyncMsgView, event: EventView)
    requires
        model.stage != Stage::Generate,
    ensures
        model.update(msg).0.stage != Stage::Generate,
        model.resume(event).0.stage == Stage::Generate ==> model.stage == Stage::Partition
            && outcome(model.outstanding, event, false) is Ok && model.resume(event).1 == (
            ActionView::Run { command: generate_command() }),
{
    if model.job is Some {
        lemma_step_progress(model.job->0, event);
    }
}

/// The installer is started only when the configuration is rendered, for a
/// user whose machine has a name, and on the configuration of that name.
pub proof fn lemma_installer_started(model: ModelView, event: EventView)
    requires
        model.stage != Stage::AwaitInstaller,
        model.resume(event).0.stage == Stage::AwaitInstaller,
    ensures
        model.stage == Stage::Render,
        model.job matches Some(job) && job.step(event).0.config.user matches Some(user)
            && user.hostname.len() > 0 && model.resume(event).1 == (ActionView::Install {
            command: install_command(user.hostname),
        }) && model.resume(event).0.username == Some(user.username) && model.resume(
            event,
        ).0.password == Some(user.password) && model.resume(event).0.rootpassword
            == user.rootpassword,
{
    if model.job is Some {
        lemma_step_progress(model.job->0, event);
    }
}

} // verus!
