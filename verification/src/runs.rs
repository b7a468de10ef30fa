//! Whole runs of the pipeline: what holds after any number of messages
//! and reports, in whatever order they come.

use crate::config::{ConfigType, MakeConfigView, SelectionsView, UserConfigView};
use crate::gateway::{install_command, ActionView, AppMsg, EventView};
use crate::install::{lemma_credentials_held, lemma_final_stages_absorb, lemma_one_outcome, lemma_stages_in_order, InstallAsyncMsgView, ModelView, Stage};
use crate::partitions::PartitionSchemaView;
use crate::stanza::STATE_VERSION_LEN;
use crate::templates::{lemma_job_ends, lemma_step_progress, ConfigJobView};
use crate::walk::{all_answers, ended, expected, lemma_after_last, lemma_whole_walk, well, Setting, Template};
use crate::text::trimmed;
use vstd::prelude::*;

verus! {

/// What the pipeline is given: a message, or the report of the work it
/// last handed out.
pub enum InputView {
    Message(InstallAsyncMsgView),
    Report(EventView),
}

impl ModelView {
    /// The pipeline and the work it hands out after `input`.
    pub open spec fn step(self, input: InputView) -> (ModelView, ActionView) {
        match input {
            InputView::Message(msg) => self.update(msg),
            InputView::Report(event) => self.resume(event),
        }
    }

    /// The pipeline after `inputs`, one after the other.
    pub open spec fn after(self, inputs: Seq<InputView>) -> ModelView
        decreases inputs.len(),
    {
        if inputs.len() == 0 {
            self
        } else {
            self.after(inputs.drop_last()).step(inputs.last()).0
        }
    }

    /// The work that the pipeline hands out for the input at `i`, those
    /// before it taken.
    pub open spec fn handed_out(self, inputs: Seq<InputView>, i: int) -> ActionView {
        self.after(inputs.take(i)).step(inputs[i]).1
    }

    /// The run was begun without a partition layout and has not come to
    /// the point where one is applied.
    pub open spec fn lacks_layout(self) -> bool {
        &&& self.partitions is None
        &&& self.stage == Stage::Architecture || self.stage == Stage::Unmount || self.stage
            == Stage::Remove
    }
}

/// Nothing that comes moves a pipeline that is complete or given up.
pub proof fn lemma_run_stays_final(model: ModelView, inputs: Seq<InputView>)
    requires
        model.stage.is_final(),
    ensures
        model.after(inputs) == model,
    decreases inputs.len(),
{
    if inputs.len() > 0 {
        lemma_run_stays_final(model, inputs.drop_last());
        match inputs.last() {
            InputView::Message(msg) => {
                lemma_final_stages_absorb(model, msg, arbitrary());
            },
            InputView::Report(event) => {
                lemma_final_stages_absorb(model, arbitrary(), event);
            },
        }
    }
}

/// Through a whole run the pipeline never goes back to an earlier stage.
pub proof fn lemma_run_in_order(model: ModelView, inputs: Seq<InputView>)
    ensures
        model.after(inputs).stage.rank() >= model.stage.rank(),
    decreases inputs.len(),
{
    if inputs.len() > 0 {
        lemma_run_in_order(model, inputs.drop_last());
        let before = model.after(inputs.drop_last());
        match inputs.last() {
            InputView::Message(msg) => {
                lemma_stages_in_order(before, msg, arbitrary());
            },
            InputView::Report(event) => {
                lemma_stages_in_order(before, arbitrary(), event);
            },
        }
    }
}

/// Through a whole run the credentials are held in no stage but those
/// between the installer's start and the setting of the last password.
pub proof fn lemma_run_holds_credentials(model: ModelView, inputs: Seq<InputView>)
    requires
        model.wf(),
    ensures
        model.after(inputs).wf(),
    decreases inputs.len(),
{
    if inputs.len() > 0 {
        lemma_run_holds_credentials(model, inputs.drop_last());
        let before = model.after(inputs.drop_last());
        match inputs.last() {
            InputView::Message(msg) => {
                lemma_credentials_held(before, msg, arbitrary());
            },
            InputView::Report(event) => {
                lemma_credentials_held(before, arbitrary(), event);
            },
        }
    }
}

/// Once the presentation layer was told how the run ended, the run has
/// ended.
pub proof fn lemma_reported_is_final(model: ModelView, inputs: Seq<InputView>, i: int)
    requires
        0 <= i < inputs.len(),
        model.handed_out(inputs, i) is Report,
    ensures
        model.after(inputs).stage.is_final(),
    decreases inputs.len(),
{
    let init = inputs.drop_last();
    let before = model.after(init);
    if i < inputs.len() - 1 {
        assert(init.take(i) =~= inputs.take(i));
        lemma_reported_is_final(model, init, i);
        lemma_run_stays_final(before, seq![inputs.last()]);
        assert(seq![inputs.last()].drop_last() =~= Seq::<InputView>::empty());
    } else {
        assert(inputs.take(i) =~= init);
        match inputs.last() {
            InputView::Message(msg) => {
                if before.stage.is_final() {
                    lemma_final_stages_absorb(before, msg, arbitrary());
                } else {
                    lemma_one_outcome(before, msg, arbitrary());
                }
            },
            InputView::Report(event) => {
                if before.stage.is_final() {
                    lemma_final_stages_absorb(before, arbitrary(), event);
                } else {
                    lemma_one_outcome(before, arbitrary(), event);
                }
            },
        }
    }
}

/// A run has one outcome: once the presentation layer was told how the run
/// ended, the pipeline hands out nothing more, whatever comes.
pub proof fn lemma_run_has_one_outcome(model: ModelView, inputs: Seq<InputView>, i: int, j: int)
    requires
        0 <= i < j < inputs.len(),
        model.handed_out(inputs, i) is Report,
    ensures
        model.handed_out(inputs, j) == ActionView::Nothing,
{
    let upto = inputs.take(j);
    assert(upto.take(i) =~= inputs.take(i));
    assert(upto[i] == inputs[i]);
    lemma_reported_is_final(model, upto, i);
    let before = model.after(upto);
    match inputs[j] {
        InputView::Message(msg) => {
            lemma_final_stages_absorb(before, msg, arbitrary());
        },
        InputView::Report(event) => {
            lemma_final_stages_absorb(before, arbitrary(), event);
        },
    }
}

/// A run that was begun without a partition layout is given up when the
/// workspace is cleared at the latest: whatever comes, nothing is ever
/// partitioned, no base configuration is generated, and no later stage is
/// reached.
pub proof fn lemma_run_without_layout(model: ModelView, inputs: Seq<InputView>)
    requires
        model.lacks_layout(),
    ensures
        model.after(inputs).lacks_layout() || model.after(inputs).stage == Stage::Failed,
    decreases inputs.len(),
{
    if inputs.len() > 0 {
        lemma_run_without_layout(model, inputs.drop_last());
        let before = model.after(inputs.drop_last());
        if before.stage == Stage::Failed {
            lemma_run_stays_final(before, seq![inputs.last()]);
            assert(seq![inputs.last()].drop_last() =~= Seq::<InputView>::empty());
        }
    }
}

/// A request without a partition layout begins a run that lacks one.
pub proof fn lemma_begun_without_layout(model: ModelView, msg: InstallAsyncMsgView)
    requires
        model.stage == Stage::Idle,
        msg matches InstallAsyncMsgView::Install { partitions, .. } && partitions is None,
    ensures
        model.update(msg).0.lacks_layout(),
{
}


/// The reports `events` as what the pipeline is given.
pub open spec fn reports(events: Seq<EventView>) -> Seq<InputView> {
    Seq::new(events.len(), |i: int| InputView::Report(events[i]))
}

/// The pipeline after two runs of inputs is the pipeline after the first,
/// taken through the second.
pub proof fn lemma_run_both(model: ModelView, first: Seq<InputView>, second: Seq<InputView>)
    ensures
        model.after(first + second) == model.after(first).after(second),
    decreases second.len(),
{
    if second.len() == 0 {
        assert(first + second =~= first);
    } else {
        lemma_run_both(model, first, second.drop_last());
        assert((first + second).drop_last() =~= first + second.drop_last());
        assert((first + second).last() == second.last());
    }
}

/// The pipeline after one more input.
pub proof fn lemma_run_push(model: ModelView, inputs: Seq<InputView>, input: InputView)
    ensures
        model.after(inputs.push(input)) == model.after(inputs).step(input).0,
        model.handed_out(inputs.push(input), inputs.len() as int) == model.after(inputs).step(
            input,
        ).1,
{
    assert(inputs.push(input).drop_last() =~= inputs);
    assert(inputs.push(input).take(inputs.len() as int) =~= inputs);
}

/// While the configuration is rendered and the rendering has not ended,
/// the pipeline is where it was, but for the rendering, which has gone on
/// by what was reported.
pub proof fn lemma_rendering_in_step(model: ModelView, job: ConfigJobView, events: Seq<EventView>)
    requires
        model.stage == Stage::Render,
        model.job == Some(job),
        !ended(job.after(events)),
    ensures
        model.after(reports(events)) == (ModelView { job: Some(job.after(events)), ..model }),
    decreases events.len(),
{
    if events.len() == 0 {
        assert(reports(events) =~= Seq::<InputView>::empty());
    } else {
        let init = events.drop_last();
        let before = job.after(init);
        lemma_after_last(job, events);
        if ended(before) {
            lemma_job_ends(before, events.last());
        }
        lemma_rendering_in_step(model, job, init);
        assert(reports(events).drop_last() =~= reports(init));
        assert(reports(events).last() == InputView::Report(events.last()));
        lemma_step_progress(before, events.last());
    }
}

/// A report that a command ended well, as what the pipeline is given.
pub open spec fn went_well(output: Seq<char>) -> InputView {
    InputView::Report(well(output))
}

/// The reports that the commands before the rendering ended well: the
/// machine's architecture as `machine` names it, the clearing of the
/// workspace, the partitioning, the base configuration, and for the
/// structured layout the relocation of the hardware facts.
pub open spec fn preparations(configtype: ConfigType, machine: Seq<char>) -> Seq<InputView> {
    let quiet = went_well(Seq::empty());
    let flat = seq![went_well(machine), quiet, quiet, quiet, quiet];
    if configtype == ConfigType::Snowfall {
        flat.push(quiet).push(quiet).push(quiet)
    } else {
        flat
    }
}

/// A request and what it is rendered from.
pub open spec fn requested(
    id: Seq<char>,
    language: Option<Seq<char>>,
    timezone: Option<Seq<char>>,
    keyboard: Option<Seq<char>>,
    layout: PartitionSchemaView,
    user: UserConfigView,
    list: SelectionsView,
    configtype: ConfigType,
) -> (InstallAsyncMsgView, MakeConfigView) {
    (
        InstallAsyncMsgView::Install {
            id,
            language,
            timezone,
            keyboard,
            partitions: Some(layout),
            user: Some(user),
            list,
            configtype,
        },
        MakeConfigView {
            id,
            language,
            timezone,
            keyboard,
            user: Some(user),
            list,
            bootdisk: layout.boot_device(),
        },
    )
}

/// A pipeline that was begun with a partition layout, and for which every
/// command before the rendering ends well, comes to render the
/// configuration: it asks how the machine was started.
pub proof fn lemma_rendering_reached(
    model: ModelView,
    msg: InstallAsyncMsgView,
    config: MakeConfigView,
    layout: PartitionSchemaView,
    configtype: ConfigType,
    machine: Seq<char>,
)
    requires
        model.stage == Stage::Idle,
        msg matches InstallAsyncMsgView::Install {
            id,
            language,
            timezone,
            keyboard,
            partitions,
            user,
            list,
            configtype: given,
        } && partitions == Some(layout) && given == configtype && config == (MakeConfigView {
            id,
            language,
            timezone,
            keyboard,
            user,
            list,
            bootdisk: layout.boot_device(),
        }),
    ensures
        ({
            let begun = model.update(msg).0;
            let end = begun.after(preparations(configtype, machine));
            &&& end.stage == Stage::Render
            &&& end.job == Some(ConfigJobView::started(config, model.sysconfdir, model.libexecdir))
            &&& end.username == model.username
            &&& end.password == model.password
            &&& end.rootpassword == model.rootpassword
        }),
{
    let begun = model.update(msg).0;
    let quiet = went_well(Seq::empty());
    let none = Seq::<InputView>::empty();
    assert(begun.stage == Stage::Architecture);
    assert(begun.after(none) == begun);
    lemma_run_push(begun, none, went_well(machine));
    let one = none.push(went_well(machine));
    assert(begun.after(one).stage == Stage::Unmount);
    lemma_run_push(begun, one, quiet);
    let two = one.push(quiet);
    assert(begun.after(two).stage == Stage::Remove);
    lemma_run_push(begun, two, quiet);
    let three = two.push(quiet);
    assert(begun.after(three).stage == Stage::Partition);
    lemma_run_push(begun, three, quiet);
    let four = three.push(quiet);
    assert(begun.after(four).stage == Stage::Generate);
    lemma_run_push(begun, four, quiet);
    let five = four.push(quiet);
    if configtype == ConfigType::Snowfall {
        assert(begun.after(five).stage == Stage::MakeDirectory);
        lemma_run_push(begun, five, quiet);
        let six = five.push(quiet);
        assert(begun.after(six).stage == Stage::MoveHardware);
        lemma_run_push(begun, six, quiet);
        let seven = six.push(quiet);
        assert(begun.after(seven).stage == Stage::RemoveEntry);
        lemma_run_push(begun, seven, quiet);
        assert(preparations(configtype, machine) =~= seven.push(quiet));
    } else {
        assert(preparations(configtype, machine) =~= five);
    }
}

/// From the request to the installer: a pipeline that is asked to install
/// with a partition layout and for a user whose machine has a name, on a
/// machine for which the boot loader can be written and whose version is
/// long enough, and that is told truly what the template set holds while
/// every command ends well, starts the installer on the configuration of
/// the machine's name, keeps the user's credentials for the installer's
/// end, and has had every configuration file of the set written.
pub proof fn lemma_installer_reached(
    libexecdir: Seq<char>,
    sysconfdir: Seq<char>,
    msg: InstallAsyncMsgView,
    config: MakeConfigView,
    layout: PartitionSchemaView,
    user: UserConfigView,
    configtype: ConfigType,
    efi: bool,
    machine: Seq<char>,
    version: Seq<char>,
    entries: Seq<Template>,
)
    requires
        msg matches InstallAsyncMsgView::Install {
            id,
            language,
            timezone,
            keyboard,
            partitions,
            user: given_user,
            list,
            configtype: given,
        } && partitions == Some(layout) && given == configtype && given_user == Some(user)
            && config == (MakeConfigView {
            id,
            language,
            timezone,
            keyboard,
            user: Some(user),
            list,
            bootdisk: layout.boot_device(),
        }),
        user.hostname.len() > 0,
        efi || layout.boot_device() is Some,
        version.len() >= STATE_VERSION_LEN,
    ensures
        ({
            let model = ModelView::idle(libexecdir, sysconfdir);
            let told = all_answers(efi, machine, version, entries);
            let inputs = (seq![InputView::Message(msg)] + preparations(configtype, machine))
                + reports(told);
            let end = model.after(inputs);
            let job = ConfigJobView::started(config, sysconfdir, libexecdir);
            let setting = Setting { config, sysconfdir, libexecdir, efi, arch: trimmed(machine) };
            &&& end.stage == Stage::AwaitInstaller
            &&& end.username == Some(user.username)
            &&& end.password == Some(user.password)
            &&& end.rootpassword == user.rootpassword
            &&& model.handed_out(inputs, inputs.len() - 1) == (ActionView::Install {
                command: install_command(user.hostname),
            })
            &&& job.wrote(told) == expected(entries, Seq::empty(), setting, version)
        }),
{
    let model = ModelView::idle(libexecdir, sysconfdir);
    let told = all_answers(efi, machine, version, entries);
    let job = ConfigJobView::started(config, sysconfdir, libexecdir);
    let first = seq![InputView::Message(msg)];
    let ready = preparations(configtype, machine);
    let inputs = (first + ready) + reports(told);
    lemma_whole_walk(config, sysconfdir, libexecdir, efi, machine, version, entries);
    lemma_rendering_reached(model, msg, config, layout, configtype, machine);
    let begun = model.update(msg).0;
    assert(model.after(Seq::<InputView>::empty()) == model);
    lemma_run_push(model, Seq::empty(), InputView::Message(msg));
    assert(Seq::<InputView>::empty().push(InputView::Message(msg)) =~= first);
    lemma_run_both(model, first, ready);
    let rendering = model.after(first + ready);
    assert(rendering.stage == Stage::Render);
    assert(rendering.job == Some(job));
    let init = told.drop_last();
    lemma_rendering_in_step(rendering, job, init);
    lemma_run_both(model, first + ready, reports(init));
    let lead = (first + ready) + reports(init);
    let before = model.after(lead);
    assert(before == (ModelView { job: Some(job.after(init)), ..rendering }));
    let last = InputView::Report(told.last());
    assert(reports(told) =~= reports(init).push(last));
    assert(inputs =~= lead.push(last));
    lemma_run_push(model, lead, last);
    lemma_after_last(job, told);
    lemma_step_progress(job.after(init), told.last());
    assert(job.after(init).step(told.last()).1 is Done);
    assert(before.step(last) == before.install(Some(user)));
}

/// From the installer's end to the run's: a pipeline that awaits the
/// installer with the user's credentials, and for which the password
/// commands end well, sets the user's password, then root's if root has
/// one, tells the presentation layer that the installation is complete, and
/// lets the credentials go.
pub proof fn lemma_finished_reached(model: ModelView)
    requires
        model.stage == Stage::AwaitInstaller,
        model.username is Some,
        model.password is Some,
    ensures
        ({
            let quiet = went_well(Seq::empty());
            let inputs = if model.rootpassword is Some {
                seq![InputView::Message(InstallAsyncMsgView::FinishInstall), quiet, quiet]
            } else {
                seq![InputView::Message(InstallAsyncMsgView::FinishInstall), quiet]
            };
            let end = model.after(inputs);
            &&& end.stage == Stage::Finished
            &&& end.username is None
            &&& end.password is None
            &&& end.rootpassword is None
            &&& model.handed_out(inputs, inputs.len() - 1) == (ActionView::Report {
                message: AppMsg::Finished,
            })
        }),
{
    let quiet = went_well(Seq::empty());
    let finish = InputView::Message(InstallAsyncMsgView::FinishInstall);
    let none = Seq::<InputView>::empty();
    assert(model.after(none) == model);
    lemma_run_push(model, none, finish);
    let one = none.push(finish);
    assert(model.after(one).stage == Stage::UserPassword);
    lemma_run_push(model, one, quiet);
    let two = one.push(quiet);
    if model.rootpassword is Some {
        assert(model.after(two).stage == Stage::RootPassword);
        lemma_run_push(model, two, quiet);
        assert(two.push(quiet) =~= seq![finish, quiet, quiet]);
    } else {
        assert(two =~= seq![finish, quiet]);
    }
}

} // verus!
