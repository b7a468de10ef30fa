//! Rendering a set of templates: the directory tree is walked depth
//! first from a stack of pending work, and every configuration file in it
//! is rendered and written to its place in the new system.
//!
//! The walk reads and writes nothing itself. It asks for one piece of work
//! at a time, and goes on when it is told what came of it.

use crate::config::{MakeConfig, MakeConfigView};
use crate::error::{InstallError, InstallErrorView};
use crate::gateway::{architecture, architecture_command, completed, copy_words, outcome, version, version_command, write_file, write_file_command, Action, ActionView, DirEntry, DirEntryView, Event, EventView, STROKE, TARGET_DIR};
use crate::render::{render, rendered};
use crate::stanza::{bootloader_stanza, system, system_name};
use crate::text::{ends_with, has_suffix, replace_all, replace_every, trim, trimmed};
use vstd::prelude::*;

verus! {

/// How the name of a configuration file ends.
pub const CONFIG_SUFFIX: &'static str = ".nix";

/// Where the template sets lie below the directory of system
/// configuration.
pub const TEMPLATES_DIR: &'static str = "/icicle/";

/// What stands for the system's name in the path of a template.
pub const ARCH_SEGMENT: &'static str = "ARCH";

/// What stands for the machine's name in the path of a template.
pub const HOSTNAME_SEGMENT: &'static str = "HOSTNAME";

/// The directory `path` of the template set `id`.
pub open spec fn source_dir(sysconfdir: Seq<char>, id: Seq<char>, path: Seq<char>) -> Seq<char> {
    sysconfdir + TEMPLATES_DIR@ + id + STROKE@ + path
}

/// The file `name` in the directory `path` of the template set `id`.
pub open spec fn source_file(
    sysconfdir: Seq<char>,
    id: Seq<char>,
    path: Seq<char>,
    name: Seq<char>,
) -> Seq<char> {
    if path.len() == 0 {
        source_dir(sysconfdir, id, path) + name
    } else {
        source_dir(sysconfdir, id, path) + STROKE@ + name
    }
}

/// Where the rendering of the file `name` in the directory `path` of a
/// template set is written: the same place below the new system's
/// configuration, the path's placeholders replaced by the system's and the
/// machine's name.
pub open spec fn destination(
    path: Seq<char>,
    name: Seq<char>,
    arch: Seq<char>,
    hostname: Seq<char>,
) -> Seq<char> {
    if path.len() == 0 {
        TARGET_DIR@ + name
    } else {
        TARGET_DIR@ + replace_all(
            replace_all(path, ARCH_SEGMENT@, system_name(arch)),
            HOSTNAME_SEGMENT@,
            hostname,
        ) + STROKE@ + name
    }
}

/// Where the rendering of a template is written.
pub fn destination_path(path: &str, name: &str, arch: &str, hostname: &str) -> (out: String)
    ensures
        out@ == destination(path@, name@, arch@, hostname@),
{
    let mut out = String::from_str(TARGET_DIR);
    if path.unicode_len() > 0 {
        let named = replace_every(path, ARCH_SEGMENT, system(arch).as_str());
        let named = replace_every(named.as_str(), HOSTNAME_SEGMENT, hostname);
        out.append(named.as_str());
        out.append(STROKE);
    }
    out.append(name);
    out
}

/// A piece of the walk that is still to do.
#[derive(Clone, Debug, PartialEq, Eq)]
pub enum Work {
    /// List the directory `path` of the template set.
    Dir { path: String },
    /// Render the file `name` in the directory `path` of the template set.
    File { path: String, name: String },
}

/// A `Work` as mathematical data.
pub enum WorkView {
    Dir { path: Seq<char> },
    File { path: Seq<char>, name: Seq<char> },
}

impl View for Work {
    type V = WorkView;

    open spec fn view(&self) -> WorkView {
        match self {
            Work::Dir { path } => WorkView::Dir { path: path@ },
            Work::File { path, name } => WorkView::File { path: path@, name: name@ },
        }
    }
}

impl DeepView for Work {
    type V = WorkView;

    open spec fn deep_view(&self) -> WorkView {
        self.view()
    }
}

/// The work that an entry of the directory `path` makes: a directory is
/// listed, a configuration file is rendered, anything else is passed over.
pub open spec fn work_of(entry: DirEntryView, path: Seq<char>) -> Seq<WorkView> {
    if entry.is_dir {
        seq![WorkView::Dir { path: path + STROKE@ + entry.name }]
    } else if ends_with(entry.name, CONFIG_SUFFIX@) {
        seq![WorkView::File { path, name: entry.name }]
    } else {
        Seq::empty()
    }
}

/// The work that the entries of the directory `path` make, as it is put on
/// the stack: that of the first entry last, so that it is done first.
pub open spec fn stacked(entries: Seq<DirEntryView>, path: Seq<char>) -> Seq<WorkView>
    decreases entries.len(),
{
    if entries.len() == 0 {
        Seq::empty()
    } else {
        stacked(entries.skip(1), path) + work_of(entries[0], path)
    }
}

/// The work that the entries of the directory `path` make, in the
/// entries' order.
pub open spec fn in_order(entries: Seq<DirEntryView>, path: Seq<char>) -> Seq<WorkView>
    decreases entries.len(),
{
    if entries.len() == 0 {
        Seq::empty()
    } else {
        work_of(entries[0], path) + in_order(entries.skip(1), path)
    }
}

/// On the stack the work of a directory's entries stands in reverse, so
/// that it is taken from the top in the entries' order; and all of it is
/// taken before what was pending when the directory was listed, which is
/// what makes the walk depth first.
pub proof fn lemma_stacked_in_order(entries: Seq<DirEntryView>, path: Seq<char>)
    ensures
        stacked(entries, path) == in_order(entries, path).reverse(),
    decreases entries.len(),
{
    if entries.len() > 0 {
        lemma_stacked_in_order(entries.skip(1), path);
        let head = work_of(entries[0], path);
        let tail = in_order(entries.skip(1), path);
        assert((head + tail).reverse() =~= tail.reverse() + head);
    }
}

/// Puts the work that the entries of the directory `path` make on the
/// stack.
pub fn stack_entries(pending: &mut Vec<Work>, entries: &Vec<DirEntry>, path: &str)
    ensures
        final(pending).deep_view() == old(pending).deep_view() + stacked(
            entries.deep_view(),
            path@,
        ),
{
    let ghost base = pending.deep_view();
    let ghost all = entries.deep_view();
    let mut k: usize = entries.len();
    proof {
        assert(all.skip(k as int) =~= Seq::<DirEntryView>::empty());
        assert(base + Seq::<WorkView>::empty() =~= base);
    }
    while k > 0
        invariant
            k <= entries.len(),
            all == entries.deep_view(),
            pending.deep_view() == base + stacked(all.skip(k as int), path@),
        decreases k,
    {
        let ghost above = stacked(all.skip(k as int), path@);
        let ghost before = pending.deep_view();
        k -= 1;
        proof {
            assert(all.skip(k as int).skip(1) =~= all.skip(k + 1));
            assert(all.skip(k as int)[0] == entries@[k as int]@);
        }
        let entry = &entries[k];
        if entry.is_dir {
            let mut below = String::from_str(path);
            below.append(STROKE);
            below.append(entry.name.as_str());
            pending.push(Work::Dir { path: below });
            proof {
                assert(pending.deep_view() =~= before.push(
                    WorkView::Dir { path: path@ + STROKE@ + entry.name@ },
                ));
                assert(pending.deep_view() =~= base + (above + work_of(entry@, path@)));
            }
        } else if has_suffix(entry.name.as_str(), CONFIG_SUFFIX) {
            pending.push(Work::File { path: String::from_str(path), name: entry.name.clone() });
            proof {
                assert(pending.deep_view() =~= before.push(
                    WorkView::File { path: path@, name: entry.name@ },
                ));
                assert(pending.deep_view() =~= base + (above + work_of(entry@, path@)));
            }
        } else {
            proof {
                assert(above + work_of(entry@, path@) =~= above);
            }
        }
    }
    proof {
        assert(all.skip(0) =~= all);
    }
}

/// Where a rendering stands.
#[derive(Clone, Copy, Debug, PartialEq, Eq, Structural)]
pub enum JobState {
    /// Waiting to be told whether the machine was started by UEFI.
    Firmware,
    /// Waiting for the machine's architecture.
    Architecture,
    /// Waiting for the entries of the directory on top of the stack.
    Listing,
    /// Waiting for the contents of the file on top of the stack.
    Reading,
    /// Waiting for the system's version, the file's contents in hand.
    Version,
    /// Waiting for the rendering of the file on top of the stack to be
    /// written.
    Writing,
    /// Every configuration file was written.
    Done,
    /// Given up.
    Failed,
}

/// A rendering of a template set under way.
#[derive(Clone, Debug, PartialEq, Eq)]
pub struct ConfigJob {
    /// What is rendered from.
    pub config: MakeConfig,
    /// The directory of system configuration, below which the template
    /// sets lie.
    pub sysconfdir: String,
    /// The directory of helper programs.
    pub libexecdir: String,
    pub state: JobState,
    /// Whether the machine was started by UEFI, once that is known.
    pub efi: bool,
    /// The machine's architecture, once it is known.
    pub arch: String,
    /// The system's version, once it was asked for.
    pub version: Option<String>,
    /// The work still to do, what is done next at the end.
    pub pending: Vec<Work>,
    /// The contents of the file that is being rendered.
    pub held: String,
    /// The command that was last asked for.
    pub outstanding: Vec<String>,
}

/// A `ConfigJob` as mathematical data.
pub struct ConfigJobView {
    pub config: MakeConfigView,
    pub sysconfdir: Seq<char>,
    pub libexecdir: Seq<char>,
    pub state: JobState,
    pub efi: bool,
    pub arch: Seq<char>,
    pub version: Option<Seq<char>>,
    pub pending: Seq<WorkView>,
    pub held: Seq<char>,
    pub outstanding: Seq<Seq<char>>,
}

impl View for ConfigJob {
    type V = ConfigJobView;

    open spec fn view(&self) -> ConfigJobView {
        ConfigJobView {
            config: self.config@,
            sysconfdir: self.sysconfdir@,
            libexecdir: self.libexecdir@,
            state: self.state,
            efi: self.efi,
            arch: self.arch@,
            version: self.version.deep_view(),
            pending: self.pending.deep_view(),
            held: self.held@,
            outstanding: self.outstanding.deep_view(),
        }
    }
}

impl DeepView for ConfigJob {
    type V = ConfigJobView;

    open spec fn deep_view(&self) -> ConfigJobView {
        self.view()
    }
}

/// What a rendering has come to after a step.
#[derive(Clone, Debug, PartialEq, Eq)]
pub enum Progress {
    /// It waits for this work to be done.
    Next(Action),
    /// It is done.
    Done,
    /// It was given up.
    Failed(InstallError),
}

/// A `Progress` as mathematical data.
pub enum ProgressView {
    Next(ActionView),
    Done,
    Failed(InstallErrorView),
}

impl View for Progress {
    type V = ProgressView;

    open spec fn view(&self) -> ProgressView {
        match self {
            Progress::Next(action) => ProgressView::Next(action@),
            Progress::Done => ProgressView::Done,
            Progress::Failed(error) => ProgressView::Failed(error@),
        }
    }
}

impl ConfigJobView {
    /// A rendering at its start.
    pub open spec fn started(
        config: MakeConfigView,
        sysconfdir: Seq<char>,
        libexecdir: Seq<char>,
    ) -> ConfigJobView {
        ConfigJobView {
            config,
            sysconfdir,
            libexecdir,
            state: JobState::Firmware,
            efi: false,
            arch: Seq::empty(),
            version: None,
            pending: Seq::empty(),
            held: Seq::empty(),
            outstanding: Seq::empty(),
        }
    }

    /// The rendering given up for `error`.
    pub open spec fn fail(self, error: InstallErrorView) -> (ConfigJobView, ProgressView) {
        (ConfigJobView { state: JobState::Failed, ..self }, ProgressView::Failed(error))
    }

    /// The rendering waiting in `state` for `command` to be run.
    pub open spec fn run(self, state: JobState, command: Seq<Seq<char>>) -> (
        ConfigJobView,
        ProgressView,
    ) {
        (
            ConfigJobView { state, outstanding: command, ..self },
            ProgressView::Next(ActionView::Run { command }),
        )
    }

    /// The rendering going on with what is on top of the stack: a
    /// directory is listed, a file is read, and with nothing left the
    /// rendering is done.
    pub open spec fn proceed(self) -> (ConfigJobView, ProgressView) {
        if self.pending.len() == 0 {
            (ConfigJobView { state: JobState::Done, ..self }, ProgressView::Done)
        } else {
            match self.pending.last() {
                WorkView::Dir { path } => (
                    ConfigJobView { state: JobState::Listing, ..self },
                    ProgressView::Next(
                        ActionView::ListDirectory {
                            path: source_dir(self.sysconfdir, self.config.id, path),
                        },
                    ),
                ),
                WorkView::File { path, name } => (
                    ConfigJobView { state: JobState::Reading, ..self },
                    ProgressView::Next(
                        ActionView::ReadFile {
                            path: source_file(self.sysconfdir, self.config.id, path, name),
                        },
                    ),
                ),
            }
        }
    }

    /// The rendering with the contents in hand rendered, the system's
    /// version being `version`: it waits for them to be written to their
    /// place, or is given up for what the renderer misses.
    pub open spec fn write(self, version: Seq<char>) -> (ConfigJobView, ProgressView) {
        let known = ConfigJobView { version: Some(version), ..self };
        if self.pending.len() > 0 && self.pending.last() is File {
            match rendered(self.held, self.config, self.efi, self.arch, version) {
                Ok(text) => known.run(
                    JobState::Writing,
                    write_file_command(
                        self.libexecdir,
                        destination(
                            self.pending.last()->File_path,
                            self.pending.last()->File_name,
                            self.arch,
                            self.config.hostname(),
                        ),
                        text,
                    ),
                ),
                Err(error) => known.fail(error),
            }
        } else {
            known.fail(InstallErrorView::Unexpected)
        }
    }

    /// The rendering after it was told what the top of the stack, a
    /// directory, holds: the directory gives way to the work that its
    /// entries make.
    pub open spec fn listed(self, entries: Seq<DirEntryView>) -> (ConfigJobView, ProgressView) {
        if self.pending.len() > 0 && self.pending.last() is Dir {
            ConfigJobView {
                pending: self.pending.drop_last() + stacked(
                    entries,
                    self.pending.last()->Dir_path,
                ),
                ..self
            }.proceed()
        } else {
            self.fail(InstallErrorView::Unexpected)
        }
    }

    /// The rendering after it was told what the file on top of the stack
    /// holds. A boot loader without a device ends it here, before the
    /// system's version is asked for and before anything is written.
    pub open spec fn read(self, text: Seq<char>) -> (ConfigJobView, ProgressView) {
        let holding = ConfigJobView { held: text, ..self };
        if bootloader_stanza(self.efi, self.config.bootdisk) is None {
            holding.fail(InstallErrorView::NoBootDevice)
        } else {
            match self.version {
                Some(version) => holding.write(version),
                None => holding.run(JobState::Version, version_command()),
            }
        }
    }

    /// The rendering after the file on top of the stack was written.
    pub open spec fn written(self) -> (ConfigJobView, ProgressView) {
        if self.pending.len() > 0 {
            ConfigJobView { pending: self.pending.drop_last(), ..self }.proceed()
        } else {
            self.fail(InstallErrorView::Unexpected)
        }
    }

    /// The rendering and what it has come to after `event` was reported to
    /// it.
    pub open spec fn step(self, event: EventView) -> (ConfigJobView, ProgressView) {
        match self.state {
            JobState::Firmware => match event {
                EventView::Firmware { efi } => ConfigJobView { efi, ..self }.run(
                    JobState::Architecture,
                    architecture_command(),
                ),
                _ => self.fail(InstallErrorView::Unexpected),
            },
            JobState::Architecture => match outcome(self.outstanding, event, false) {
                Ok(output) => ConfigJobView {
                    arch: trimmed(output),
                    pending: seq![WorkView::Dir { path: Seq::empty() }],
                    ..self
                }.proceed(),
                Err(error) => self.fail(error),
            },
            JobState::Listing => match event {
                EventView::Listing { entries } => self.listed(entries),
                EventView::Failed { detail } => self.fail(InstallErrorView::Templates { detail }),
                _ => self.fail(InstallErrorView::Unexpected),
            },
            JobState::Reading => match event {
                EventView::Contents { text } => self.read(text),
                EventView::Failed { detail } => self.fail(InstallErrorView::Templates { detail }),
                _ => self.fail(InstallErrorView::Unexpected),
            },
            JobState::Version => match outcome(self.outstanding, event, false) {
                Ok(output) => self.write(output),
                Err(error) => self.fail(error),
            },
            JobState::Writing => match outcome(self.outstanding, event, false) {
                Ok(_) => self.written(),
                Err(error) => self.fail(error),
            },
            JobState::Done => (self, ProgressView::Done),
            JobState::Failed => (self, ProgressView::Failed(InstallErrorView::Unexpected)),
        }
    }
}

impl ConfigJob {
    fn fail(&mut self, error: InstallError) -> (progress: Progress)
        ensures
            (final(self)@, progress@) == old(self)@.fail(error@),
    {
        self.state = JobState::Failed;
        Progress::Failed(error)
    }

    fn run(&mut self, state: JobState, command: Vec<String>) -> (progress: Progress)
        ensures
            (final(self)@, progress@) == old(self)@.run(state, command.deep_view()),
    {
        self.state = state;
        self.outstanding = copy_words(&command);
        Progress::Next(Action::Run { command })
    }

    fn source_directory(&self, path: &str) -> (out: String)
        ensures
            out@ == source_dir(self.sysconfdir@, self.config.id@, path@),
    {
        let mut out = self.sysconfdir.clone();
        out.append(TEMPLATES_DIR);
        out.append(self.config.id.as_str());
        out.append(STROKE);
        out.append(path);
        out
    }

    fn proceed(&mut self) -> (progress: Progress)
        ensures
            (final(self)@, progress@) == old(self)@.proceed(),
    {
        let n = self.pending.len();
        if n == 0 {
            self.state = JobState::Done;
            return Progress::Done;
        }
        proof {
            assert(self.pending.deep_view().last() == self.pending@[n - 1]@);
        }
        match &self.pending[n - 1] {
            Work::Dir { path } => {
                let source = self.source_directory(path.as_str());
                self.state = JobState::Listing;
                Progress::Next(Action::ListDirectory { path: source })
            },
            Work::File { path, name } => {
                let mut source = self.source_directory(path.as_str());
                if path.as_str().unicode_len() > 0 {
                    source.append(STROKE);
                }
                source.append(name.as_str());
                self.state = JobState::Reading;
                Progress::Next(Action::ReadFile { path: source })
            },
        }
    }

    fn write(&mut self, version: String) -> (progress: Progress)
        ensures
            (final(self)@, progress@) == old(self)@.write(version@),
    {
        let n = self.pending.len();
        proof {
            if n > 0 {
                assert(self.pending.deep_view().last() == self.pending@[n - 1]@);
            }
        }
        let command = if n == 0 {
            Err(InstallError::Unexpected)
        } else {
            match &self.pending[n - 1] {
                Work::File { path, name } => {
                    match render(
                        self.held.as_str(),
                        &self.config,
                        self.efi,
                        self.arch.as_str(),
                        version.as_str(),
                    ) {
                        Ok(text) => {
                            let place = destination_path(
                                path.as_str(),
                                name.as_str(),
                                self.arch.as_str(),
                                self.config.hostname(),
                            );
                            Ok(write_file(self.libexecdir.as_str(), place.as_str(), text.as_str()))
                        },
                        Err(error) => Err(error),
                    }
                },
                Work::Dir { .. } => Err(InstallError::Unexpected),
            }
        };
        self.version = Some(version);
        match command {
            Ok(command) => self.run(JobState::Writing, command),
            Err(error) => self.fail(error),
        }
    }

    fn listed(&mut self, entries: Vec<DirEntry>) -> (progress: Progress)
        ensures
            (final(self)@, progress@) == old(self)@.listed(entries.deep_view()),
    {
        let n = self.pending.len();
        if n == 0 {
            return self.fail(InstallError::Unexpected);
        }
        proof {
            assert(self.pending.deep_view().last() == self.pending@[n - 1]@);
        }
        if let Work::File { .. } = &self.pending[n - 1] {
            return self.fail(InstallError::Unexpected);
        }
        let ghost before = self.pending.deep_view();
        let top = self.pending.pop();
        proof {
            assert(self.pending.deep_view() =~= before.drop_last());
        }
        if let Some(Work::Dir { path }) = top {
            stack_entries(&mut self.pending, &entries, path.as_str());
        }
        self.proceed()
    }

    fn read(&mut self, text: String) -> (progress: Progress)
        ensures
            (final(self)@, progress@) == old(self)@.read(text@),
    {
        self.held = text;
        if !self.efi && self.config.bootdisk.is_none() {
            return self.fail(InstallError::NoBootDevice);
        }
        match self.version.take() {
            Some(version) => self.write(version),
            None => self.run(JobState::Version, version()),
        }
    }

    fn written(&mut self) -> (progress: Progress)
        ensures
            (final(self)@, progress@) == old(self)@.written(),
    {
        if self.pending.len() == 0 {
            return self.fail(InstallError::Unexpected);
        }
        let ghost before = self.pending.deep_view();
        let _ = self.pending.pop();
        proof {
            assert(self.pending.deep_view() =~= before.drop_last());
        }
        self.proceed()
    }

    /// Goes on with the rendering, `event` being what came of the work it
    /// last asked for.
    pub fn resume(&mut self, event: Event) -> (progress: Progress)
        ensures
            (final(self)@, progress@) == old(self)@.step(event@),
    {
        match self.state {
            JobState::Firmware => match event {
                Event::Firmware { efi } => {
                    self.efi = efi;
                    self.run(JobState::Architecture, architecture())
                },
                _ => self.fail(InstallError::Unexpected),
            },
            JobState::Architecture => match completed(&self.outstanding, event, false) {
                Ok(output) => {
                    self.arch = trim(output.as_str());
                    let mut pending: Vec<Work> = Vec::new();
                    pending.push(Work::Dir { path: String::new() });
                    proof {
                        assert(pending.deep_view() =~= seq![
                            WorkView::Dir { path: Seq::<char>::empty() },
                        ]);
                    }
                    self.pending = pending;
                    self.proceed()
                },
                Err(error) => self.fail(error),
            },
            JobState::Listing => match event {
                Event::Listing { entries } => self.listed(entries),
                Event::Failed { detail } => self.fail(InstallError::Templates { detail }),
                _ => self.fail(InstallError::Unexpected),
            },
            JobState::Reading => match event {
                Event::Contents { text } => self.read(text),
                Event::Failed { detail } => self.fail(InstallError::Templates { detail }),
                _ => self.fail(InstallError::Unexpected),
            },
            JobState::Version => match completed(&self.outstanding, event, false) {
                Ok(output) => self.write(output),
                Err(error) => self.fail(error),
            },
            JobState::Writing => match completed(&self.outstanding, event, false) {
                Ok(_) => self.written(),
                Err(error) => self.fail(error),
            },
            JobState::Done => Progress::Done,
            JobState::Failed => Progress::Failed(InstallError::Unexpected),
        }
    }
}

/// Begins the rendering of the template set that `request` names: the
/// rendering at its start, and the first work it waits for.
pub fn makeconfig(request: MakeConfig, sysconfdir: String, libexecdir: String) -> (r: (
    ConfigJob,
    Action,
))
    ensures
        r.0@ == ConfigJobView::started(request@, sysconfdir@, libexecdir@),
        r.1@ == ActionView::DetectFirmware,
{
    let job = ConfigJob {
        config: request,
        sysconfdir,
        libexecdir,
        state: JobState::Firmware,
        efi: false,
        arch: String::new(),
        version: None,
        pending: Vec::new(),
        held: String::new(),
        outstanding: Vec::new(),
    };
    proof {
        assert(job.pending.deep_view() =~= Seq::<WorkView>::empty());
        assert(job.outstanding.deep_view() =~= Seq::<Seq<char>>::empty());
    }
    (job, Action::DetectFirmware)
}


/// The work that a rendering asks for is to find out about the machine, to
/// run a command, to list a directory or to read a file: it reports
/// nothing to the presentation layer and starts no installer.
pub open spec fn is_job_work(action: ActionView) -> bool {
    action is DetectFirmware || action is Run || action is ListDirectory || action is ReadFile
}

/// After a step a rendering waits for work exactly when it is neither done
/// nor given up, and it is given up exactly when the step says so.
pub proof fn lemma_step_progress(job: ConfigJobView, event: EventView)
    ensures
        ({
            let (next, progress) = job.step(event);
            &&& progress is Done <==> next.state == JobState::Done
            &&& progress is Failed <==> next.state == JobState::Failed
            &&& progress matches ProgressView::Next(action) ==> is_job_work(action)
        }),
{
}

/// Nothing moves a rendering that is done or given up.
pub proof fn lemma_job_ends(job: ConfigJobView, event: EventView)
    requires
        job.state == JobState::Done || job.state == JobState::Failed,
    ensures
        job.step(event).0 == job,
{
}

/// On a machine without UEFI, a rendering whose request names no boot
/// device is given up when it has read its first file, before anything is
/// written for it.
pub proof fn lemma_no_boot_device_no_write(job: ConfigJobView, text: Seq<char>)
    requires
        job.state == JobState::Reading,
        !job.efi,
        job.config.bootdisk is None,
    ensures
        job.step(EventView::Contents { text }).1 == ProgressView::Failed(
            InstallErrorView::NoBootDevice,
        ),
        job.step(EventView::Contents { text }).0.state == JobState::Failed,
{
}

/// What a rendering has written is what the renderer makes of the file's
/// contents: it asks for a file to be written only when it holds the
/// contents of the file on top of the stack and the system's version, and
/// then for their rendering at the file's destination.
pub proof fn lemma_written_is_rendered(job: ConfigJobView, event: EventView)
    requires
        job.step(event).0.state == JobState::Writing,
    ensures
        ({
            let (next, progress) = job.step(event);
            &&& next.pending.len() > 0
            &&& next.pending.last() matches WorkView::File { path, name }
            &&& next.version matches Some(version)
            &&& rendered(next.held, next.config, next.efi, next.arch, version) matches Ok(text)
            &&& progress == ProgressView::Next(
                ActionView::Run {
                    command: write_file_command(
                        next.libexecdir,
                        destination(path, name, next.arch, next.config.hostname()),
                        text,
                    ),
                },
            )
        }),
{
}

} // verus!
