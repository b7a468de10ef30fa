//! Whole walks of a rendering: what is written when the rendering is told
//! truly what the template set holds.

use crate::config::MakeConfigView;
use crate::gateway::{write_file_command, ActionView, DirEntryView, EventView, STROKE};
use crate::render::rendered;
use crate::stanza::{bootloader_stanza, STATE_VERSION_LEN};
use crate::templates::{destination, lemma_step_progress, stacked, work_of, ConfigJobView, JobState, ProgressView, WorkView, CONFIG_SUFFIX};
use crate::text::{ends_with, trimmed};
use vstd::prelude::*;

verus! {

/// What a template set holds: files with their contents, and directories
/// with what they hold in turn, in the order in which they give it.
pub enum Template {
    File { name: Seq<char>, contents: Seq<char> },
    Dir { name: Seq<char>, entries: Seq<Template> },
}

impl Template {
    /// The template as an entry of its directory.
    pub open spec fn entry(self) -> DirEntryView {
        match self {
            Template::File { name, .. } => DirEntryView { name, is_dir: false },
            Template::Dir { name, .. } => DirEntryView { name, is_dir: true },
        }
    }
}

/// The templates as the entries of their directory.
pub open spec fn listing(entries: Seq<Template>) -> Seq<DirEntryView> {
    Seq::new(entries.len(), |i: int| entries[i].entry())
}

/// Among the templates, or below them, is a configuration file.
pub open spec fn holds_config(entries: Seq<Template>) -> bool
    decreases entries,
{
    if entries.len() == 0 {
        false
    } else {
        (match entries[0] {
            Template::File { name, .. } => ends_with(name, CONFIG_SUFFIX@),
            Template::Dir { entries: inner, .. } => holds_config(inner),
        }) || holds_config(entries.skip(1))
    }
}

/// What a rendering is given before the walk begins and keeps through it.
pub struct Setting {
    pub config: MakeConfigView,
    pub sysconfdir: Seq<char>,
    pub libexecdir: Seq<char>,
    pub efi: bool,
    pub arch: Seq<char>,
}

/// The report of a command that ended well with `output`.
pub open spec fn well(output: Seq<char>) -> EventView {
    EventView::Exited { success: true, stdout: output, stderr: Seq::empty() }
}

/// The commands that write the configuration files among the templates of
/// the directory `path` and below them, each file's rendering to its
/// destination: depth first, in the directories' order.
pub open spec fn expected(
    entries: Seq<Template>,
    path: Seq<char>,
    setting: Setting,
    version: Seq<char>,
) -> Seq<Seq<Seq<char>>>
    decreases entries,
{
    if entries.len() == 0 {
        Seq::empty()
    } else {
        (match entries[0] {
            Template::File { name, contents } => if ends_with(name, CONFIG_SUFFIX@) {
                match rendered(contents, setting.config, setting.efi, setting.arch, version) {
                    Ok(text) => seq![
                        write_file_command(
                            setting.libexecdir,
                            destination(path, name, setting.arch, setting.config.hostname()),
                            text,
                        ),
                    ],
                    Err(_) => Seq::empty(),
                }
            } else {
                Seq::empty()
            },
            Template::Dir { name, entries: inner } => expected(
                inner,
                path + STROKE@ + name,
                setting,
                version,
            ),
        }) + expected(entries.skip(1), path, setting, version)
    }
}

/// The true reports of the work that rendering one configuration file asks
/// for: what the file holds, the system's version `version` if it is not
/// `known` yet, and that the file was written.
pub open spec fn file_answers(contents: Seq<char>, known: bool, version: Seq<char>) -> Seq<
    EventView,
> {
    seq![EventView::Contents { text: contents }] + if known {
        Seq::empty()
    } else {
        seq![well(version)]
    } + seq![well(Seq::empty())]
}

/// The true reports of the work that walking the templates asks for, in
/// the order in which it asks: the entries of each directory, and for each
/// configuration file what `file_answers` says; the system's version is
/// asked for once, if it is not `known` yet.
pub open spec fn answers(entries: Seq<Template>, known: bool, version: Seq<char>) -> Seq<
    EventView,
>
    decreases entries,
{
    if entries.len() == 0 {
        Seq::empty()
    } else {
        (match entries[0] {
            Template::File { name, contents } => if ends_with(name, CONFIG_SUFFIX@) {
                file_answers(contents, known, version)
            } else {
                Seq::empty()
            },
            Template::Dir { entries: inner, .. } => seq![
                EventView::Listing { entries: listing(inner) },
            ] + answers(inner, known, version),
        }) + answers(entries.skip(1), known || holds_config(seq![entries[0]]), version)
    }
}

impl ConfigJobView {
    /// What the rendering keeps through the walk.
    pub open spec fn setting(self) -> Setting {
        Setting {
            config: self.config,
            sysconfdir: self.sysconfdir,
            libexecdir: self.libexecdir,
            efi: self.efi,
            arch: self.arch,
        }
    }

    /// The rendering after `event`.
    #[verifier::opaque]
    pub open spec fn next(self, event: EventView) -> ConfigJobView {
        self.step(event).0
    }

    /// The rendering after `events`, one after the other.
    pub open spec fn after(self, events: Seq<EventView>) -> ConfigJobView
        decreases events.len(),
    {
        if events.len() == 0 {
            self
        } else {
            self.after(events.drop_last()).next(events.last())
        }
    }

    /// The command to write a file that the rendering hands out when
    /// `event` is reported to it, if it hands out one.
    #[verifier::opaque]
    pub open spec fn wrote_for(self, event: EventView) -> Seq<Seq<Seq<char>>> {
        let (next, progress) = self.step(event);
        if next.state == JobState::Writing {
            match progress {
                ProgressView::Next(ActionView::Run { command }) => seq![command],
                _ => Seq::empty(),
            }
        } else {
            Seq::empty()
        }
    }

    /// The commands to write a file that the rendering hands out through
    /// `events`, in their order.
    pub open spec fn wrote(self, events: Seq<EventView>) -> Seq<Seq<Seq<char>>>
        decreases events.len(),
    {
        if events.len() == 0 {
            Seq::empty()
        } else {
            self.wrote(events.drop_last()) + self.after(events.drop_last()).wrote_for(
                events.last(),
            )
        }
    }

    /// The rendering waits for what is on top of its stack: for the
    /// entries of a directory, for the contents of a file, and with an
    /// empty stack for nothing.
    pub open spec fn resting(self) -> bool {
        if self.pending.len() == 0 {
            self.state == JobState::Done
        } else {
            match self.pending.last() {
                WorkView::Dir { .. } => self.state == JobState::Listing,
                WorkView::File { .. } => self.state == JobState::Reading,
            }
        }
    }

    /// Every file can be rendered: the boot loader can be written, and the
    /// system's version `version` is long enough.
    pub open spec fn renders(self, version: Seq<char>) -> bool {
        &&& bootloader_stanza(self.efi, self.config.bootdisk) is Some
        &&& version.len() >= STATE_VERSION_LEN
        &&& self.version is None || self.version == Some(version)
    }
}

/// The rendering after two runs of events is the rendering after the first,
/// taken through the second; and it has written what it wrote in the first
/// and then in the second.
pub proof fn lemma_after_both(job: ConfigJobView, first: Seq<EventView>, second: Seq<EventView>)
    ensures
        job.after(first + second) == job.after(first).after(second),
        job.wrote(first + second) == job.wrote(first) + job.after(first).wrote(second),
    decreases second.len(),
{
    if second.len() == 0 {
        assert(first + second =~= first);
        assert(job.wrote(first) + Seq::<Seq<Seq<char>>>::empty() =~= job.wrote(first));
    } else {
        lemma_after_both(job, first, second.drop_last());
        assert((first + second).drop_last() =~= first + second.drop_last());
        assert((first + second).last() == second.last());
        let then = job.after(first);
        assert(job.wrote(first) + (then.wrote(second.drop_last()) + then.after(
            second.drop_last(),
        ).wrote_for(second.last())) =~= (job.wrote(first) + then.wrote(second.drop_last()))
            + then.after(second.drop_last()).wrote_for(second.last()));
    }
}

/// The rendering after one more event.
pub proof fn lemma_after_last(job: ConfigJobView, events: Seq<EventView>)
    requires
        events.len() > 0,
    ensures
        job.after(events) == job.after(events.drop_last()).step(events.last()).0,
{
    reveal(ConfigJobView::next);
}

/// The rendering after one event.
pub proof fn lemma_after_one(job: ConfigJobView, event: EventView)
    ensures
        job.after(seq![event]) == job.step(event).0,
        job.wrote(seq![event]) == job.wrote_for(event),
{
    reveal(ConfigJobView::next);
    let none = Seq::<EventView>::empty();
    assert(seq![event].drop_last() =~= none);
    assert(seq![event].last() == event);
    assert(job.after(none) == job);
    assert(job.wrote(none) + job.wrote_for(event) =~= job.wrote_for(event));
}


/// A rendering that is told the entries of the directory on top of its
/// stack puts their work in the directory's place, and writes nothing.
proof fn lemma_walk_listing(
    job: ConfigJobView,
    entries: Seq<DirEntryView>,
    dir: Seq<char>,
    below: Seq<WorkView>,
)
    requires
        job.pending == below.push(WorkView::Dir { path: dir }),
        job.state == JobState::Listing,
    ensures
        ({
            let events = seq![EventView::Listing { entries }];
            let next = job.after(events);
            &&& next.setting() == job.setting()
            &&& next.version == job.version
            &&& next.pending == below + stacked(entries, dir)
            &&& next.resting()
            &&& job.wrote(events) == Seq::<Seq<Seq<char>>>::empty()
        }),
{
    reveal(ConfigJobView::wrote_for);
    lemma_after_one(job, EventView::Listing { entries });
    assert(job.pending.drop_last() =~= below);
}

/// A rendering that is told truly of the configuration file on top of its
/// stack writes the file's rendering to its destination, and then takes
/// the file off the stack.
proof fn lemma_walk_file(
    job: ConfigJobView,
    name: Seq<char>,
    contents: Seq<char>,
    path: Seq<char>,
    below: Seq<WorkView>,
    version: Seq<char>,
)
    requires
        job.pending == below.push(WorkView::File { path, name }),
        job.state == JobState::Reading,
        job.renders(version),
    ensures
        ({
            let events = file_answers(contents, job.version is Some, version);
            let end = job.after(events);
            let setting = job.setting();
            &&& end.setting() == setting
            &&& end.version == Some(version)
            &&& end.pending == below
            &&& end.resting()
            &&& job.after(events.drop_last()).state == JobState::Writing
            &&& rendered(contents, setting.config, setting.efi, setting.arch, version) matches Ok(
                text,
            ) && job.wrote(events) == seq![
                write_file_command(
                    setting.libexecdir,
                    destination(path, name, setting.arch, setting.config.hostname()),
                    text,
                ),
            ]
        }),
{
    reveal(ConfigJobView::wrote_for);
    let read = EventView::Contents { text: contents };
    let done = well(Seq::empty());
    let none = Seq::<EventView>::empty();
    let nothing = Seq::<Seq<Seq<char>>>::empty();
    lemma_after_one(job, read);
    let held = job.step(read).0;
    if job.version is Some {
        assert(file_answers(contents, true, version) =~= seq![read] + seq![done]);
        lemma_after_both(job, seq![read], seq![done]);
        lemma_after_one(held, done);
        assert(held.state == JobState::Writing);
        assert(held.pending.drop_last() =~= below);
        assert(job.wrote_for(read) + nothing =~= job.wrote_for(read));
        assert((seq![read] + seq![done]).drop_last() =~= seq![read]);
    } else {
        let told = well(version);
        assert(file_answers(contents, false, version) =~= (seq![read] + seq![told]) + seq![done]);
        lemma_after_both(job, seq![read], seq![told]);
        lemma_after_one(held, told);
        assert(held.state == JobState::Version);
        let ready = held.step(told).0;
        assert(ready.state == JobState::Writing);
        lemma_after_both(job, seq![read] + seq![told], seq![done]);
        lemma_after_one(ready, done);
        assert(ready.pending.drop_last() =~= below);
        assert((nothing + held.wrote_for(told)) + nothing =~= held.wrote_for(told));
        assert(((seq![read] + seq![told]) + seq![done]).drop_last() =~= seq![read] + seq![told]);
    }
}

/// A rendering that is told truly what the template set holds writes every
/// configuration file of it once, its rendering to its destination, depth
/// first and in the directories' order, and nothing else; and then it has
/// done the work that the set's entries made.
pub proof fn lemma_walk(
    job: ConfigJobView,
    entries: Seq<Template>,
    path: Seq<char>,
    rest: Seq<WorkView>,
    version: Seq<char>,
)
    requires
        job.pending == rest + stacked(listing(entries), path),
        job.resting(),
        job.renders(version),
    ensures
        ({
            let events = answers(entries, job.version is Some, version);
            let end = job.after(events);
            &&& end.setting() == job.setting()
            &&& end.version == if holds_config(entries) {
                Some(version)
            } else {
                job.version
            }
            &&& end.pending == rest
            &&& end.resting()
            &&& job.wrote(events) == expected(entries, path, job.setting(), version)
        }),
    decreases entries,
{
    let known = job.version is Some;
    let nothing = Seq::<Seq<Seq<char>>>::empty();
    if entries.len() == 0 {
        assert(job.pending =~= rest);
    } else {
        let first = entries[0];
        let others = entries.skip(1);
        let below = rest + stacked(listing(others), path);
        assert(listing(entries).skip(1) =~= listing(others));
        assert(listing(entries)[0] == first.entry());
        assert(job.pending =~= below + work_of(first.entry(), path));
        assert(seq![first].skip(1) =~= Seq::<Template>::empty());
        assert(!holds_config(seq![first].skip(1)));
        match first {
            Template::File { name, contents } => {
                if ends_with(name, CONFIG_SUFFIX@) {
                    assert(job.pending =~= below.push(WorkView::File { path, name }));
                    let head = file_answers(contents, known, version);
                    lemma_walk_file(job, name, contents, path, below, version);
                    let mid = job.after(head);
                    lemma_walk(mid, others, path, rest, version);
                    lemma_after_both(job, head, answers(others, true, version));
                    assert(holds_config(seq![first]));
                } else {
                    assert(!holds_config(seq![first]));
                    assert(job.pending =~= below);
                    lemma_walk(job, others, path, rest, version);
                    assert(Seq::<EventView>::empty() + answers(others, known, version)
                        =~= answers(others, known, version));
                    assert(nothing + expected(others, path, job.setting(), version) =~= expected(
                        others,
                        path,
                        job.setting(),
                        version,
                    ));
                }
            },
            Template::Dir { name, entries: inner } => {
                let dir = path + STROKE@ + name;
                assert(job.pending =~= below.push(WorkView::Dir { path: dir }));
                let told = EventView::Listing { entries: listing(inner) };
                lemma_walk_listing(job, listing(inner), dir, below);
                let listed = job.after(seq![told]);
                lemma_walk(listed, inner, dir, below, version);
                let inside = answers(inner, known, version);
                let mid = listed.after(inside);
                lemma_after_both(job, seq![told], inside);
                assert(holds_config(seq![first]) == holds_config(inner));
                let after = answers(others, known || holds_config(inner), version);
                lemma_walk(mid, others, path, rest, version);
                lemma_after_both(job, seq![told] + inside, after);
                assert(nothing + expected(inner, dir, job.setting(), version) =~= expected(
                    inner,
                    dir,
                    job.setting(),
                    version,
                ));
            },
        }
    }
}


/// The rendering is done or given up.
pub open spec fn ended(job: ConfigJobView) -> bool {
    job.state == JobState::Done || job.state == JobState::Failed
}

/// Nothing that is reported moves a rendering that is done or given up.
pub proof fn lemma_ended_stays(job: ConfigJobView, events: Seq<EventView>)
    requires
        ended(job),
    ensures
        job.after(events) == job,
    decreases events.len(),
{
    reveal(ConfigJobView::next);
    if events.len() > 0 {
        lemma_ended_stays(job, events.drop_last());
    }
}

/// If a rendering is not done before the last of `tail` when it has taken
/// `head`, it is not done before the last of both.
proof fn lemma_busy_join(job: ConfigJobView, head: Seq<EventView>, tail: Seq<EventView>)
    requires
        tail.len() > 0,
        job.after(head).after(tail.drop_last()).state != JobState::Done,
    ensures
        job.after((head + tail).drop_last()).state != JobState::Done,
{
    lemma_after_both(job, head, tail.drop_last());
    assert((head + tail).drop_last() =~= head + tail.drop_last());
}

/// `lemma_walk_busy` where the first template is a configuration file.
proof fn lemma_busy_file(
    job: ConfigJobView,
    entries: Seq<Template>,
    path: Seq<char>,
    rest: Seq<WorkView>,
    version: Seq<char>,
)
    requires
        job.pending == rest + stacked(listing(entries), path),
        job.resting(),
        job.renders(version),
        entries.len() > 0,
        entries[0] matches Template::File { name, .. } && ends_with(name, CONFIG_SUFFIX@),
    ensures
        ({
            let events = answers(entries, job.version is Some, version);
            events.len() > 0 ==> job.after(events.drop_last()).state != JobState::Done
        }),
    decreases entries, 0nat,
{
    let known = job.version is Some;
    let first = entries[0];
    let others = entries.skip(1);
    let below = rest + stacked(listing(others), path);
    assert(listing(entries).skip(1) =~= listing(others));
    assert(listing(entries)[0] == first.entry());
    assert(seq![first].skip(1) =~= Seq::<Template>::empty());
    assert(!holds_config(seq![first].skip(1)));
    assert(holds_config(seq![first]));
    let name = first->File_name;
    let contents = first->File_contents;
    assert(job.pending =~= below.push(WorkView::File { path, name }));
    let head = file_answers(contents, known, version);
    let tail = answers(others, true, version);
    lemma_walk_file(job, name, contents, path, below, version);
    if tail.len() > 0 {
        lemma_walk_busy(job.after(head), others, path, rest, version);
        lemma_busy_join(job, head, tail);
    } else {
        assert(head + tail =~= head);
    }
}

/// `lemma_walk_busy` where the first template is a directory.
proof fn lemma_busy_dir(
    job: ConfigJobView,
    entries: Seq<Template>,
    path: Seq<char>,
    rest: Seq<WorkView>,
    version: Seq<char>,
)
    requires
        job.pending == rest + stacked(listing(entries), path),
        job.resting(),
        job.renders(version),
        entries.len() > 0,
        entries[0] is Dir,
    ensures
        ({
            let events = answers(entries, job.version is Some, version);
            events.len() > 0 ==> job.after(events.drop_last()).state != JobState::Done
        }),
    decreases entries, 0nat,
{
    let known = job.version is Some;
    let first = entries[0];
    let others = entries.skip(1);
    let below = rest + stacked(listing(others), path);
    assert(listing(entries).skip(1) =~= listing(others));
    assert(listing(entries)[0] == first.entry());
    assert(seq![first].skip(1) =~= Seq::<Template>::empty());
    assert(!holds_config(seq![first].skip(1)));
    let inner = first->Dir_entries;
    let dir = path + STROKE@ + first->Dir_name;
    assert(holds_config(seq![first]) == holds_config(inner));
    assert(job.pending =~= below.push(WorkView::Dir { path: dir }));
    let told = EventView::Listing { entries: listing(inner) };
    lemma_walk_listing(job, listing(inner), dir, below);
    let listed = job.after(seq![told]);
    let inside = answers(inner, known, version);
    let head = seq![told] + inside;
    let tail = answers(others, known || holds_config(inner), version);
    if tail.len() > 0 {
        lemma_walk(listed, inner, dir, below, version);
        lemma_after_both(job, seq![told], inside);
        lemma_walk_busy(listed.after(inside), others, path, rest, version);
        lemma_busy_join(job, head, tail);
    } else if inside.len() > 0 {
        lemma_walk_busy(listed, inner, dir, below, version);
        lemma_busy_join(job, seq![told], inside);
        assert(head + tail =~= head);
    } else {
        assert((head + tail).drop_last() =~= Seq::<EventView>::empty());
    }
}

/// A rendering that is told truly what the template set holds is not done
/// before it is told the last of it.
pub proof fn lemma_walk_busy(
    job: ConfigJobView,
    entries: Seq<Template>,
    path: Seq<char>,
    rest: Seq<WorkView>,
    version: Seq<char>,
)
    requires
        job.pending == rest + stacked(listing(entries), path),
        job.resting(),
        job.renders(version),
    ensures
        ({
            let events = answers(entries, job.version is Some, version);
            events.len() > 0 ==> job.after(events.drop_last()).state != JobState::Done
        }),
    decreases entries, 1nat,
{
    if entries.len() > 0 {
        match entries[0] {
            Template::File { name, .. } => {
                if ends_with(name, CONFIG_SUFFIX@) {
                    lemma_busy_file(job, entries, path, rest, version);
                } else {
                    let first = entries[0];
                    let others = entries.skip(1);
                    assert(listing(entries).skip(1) =~= listing(others));
                    assert(listing(entries)[0] == first.entry());
                    assert(seq![first].skip(1) =~= Seq::<Template>::empty());
                    assert(!holds_config(seq![first].skip(1)));
                    assert(job.pending =~= rest + stacked(listing(others), path));
                    lemma_walk_busy(job, others, path, rest, version);
                    assert(Seq::<EventView>::empty() + answers(
                        others,
                        job.version is Some,
                        version,
                    ) =~= answers(others, job.version is Some, version));
                }
            },
            Template::Dir { .. } => {
                lemma_busy_dir(job, entries, path, rest, version);
            },
        }
    }
}

/// The true reports of a whole rendering, from its start: how the machine
/// was started, the machine's architecture as `machine` names it, the
/// entries of the set's top directory, and then what `answers` says.
pub open spec fn all_answers(
    efi: bool,
    machine: Seq<char>,
    version: Seq<char>,
    entries: Seq<Template>,
) -> Seq<EventView> {
    seq![
        EventView::Firmware { efi },
        well(machine),
        EventView::Listing { entries: listing(entries) },
    ] + answers(entries, false, version)
}

/// From its start to its end: a rendering that is told truly about the
/// machine and about what the template set holds, on a machine for which
/// the boot loader can be written and whose version is long enough, comes
/// to its end having written every configuration file of the set once, its
/// rendering to its destination, depth first and in the directories' order,
/// and nothing else.
pub proof fn lemma_whole_walk(
    config: MakeConfigView,
    sysconfdir: Seq<char>,
    libexecdir: Seq<char>,
    efi: bool,
    machine: Seq<char>,
    version: Seq<char>,
    entries: Seq<Template>,
)
    requires
        bootloader_stanza(efi, config.bootdisk) is Some,
        version.len() >= STATE_VERSION_LEN,
    ensures
        ({
            let job = ConfigJobView::started(config, sysconfdir, libexecdir);
            let events = all_answers(efi, machine, version, entries);
            let setting = Setting { config, sysconfdir, libexecdir, efi, arch: trimmed(machine) };
            &&& job.after(events).state == JobState::Done
            &&& job.after(events).config == config
            &&& !ended(job.after(events.drop_last()))
            &&& job.wrote(events) == expected(entries, Seq::empty(), setting, version)
        }),
{
    reveal(ConfigJobView::wrote_for);
    let job = ConfigJobView::started(config, sysconfdir, libexecdir);
    let firmware = EventView::Firmware { efi };
    let told = EventView::Listing { entries: listing(entries) };
    let nothing = Seq::<Seq<Seq<char>>>::empty();
    let top = Seq::<char>::empty();
    let walk = answers(entries, false, version);
    lemma_after_one(job, firmware);
    let asked = job.step(firmware).0;
    lemma_after_one(asked, well(machine));
    let ready = asked.step(well(machine)).0;
    lemma_after_both(job, seq![firmware], seq![well(machine)]);
    assert(ready.pending =~= Seq::<WorkView>::empty().push(WorkView::Dir { path: top }));
    lemma_walk_listing(ready, listing(entries), top, Seq::empty());
    let listed = ready.after(seq![told]);
    lemma_after_both(job, seq![firmware] + seq![well(machine)], seq![told]);
    lemma_walk(listed, entries, top, Seq::empty(), version);
    let lead = (seq![firmware] + seq![well(machine)]) + seq![told];
    lemma_after_both(job, lead, walk);
    assert(lead =~= seq![firmware, well(machine), told]);
    assert(job.wrote(lead) =~= nothing);
    assert(nothing + listed.wrote(walk) =~= listed.wrote(walk));
    let events = lead + walk;
    let before = job.after(events.drop_last());
    if walk.len() > 0 {
        lemma_walk_busy(listed, entries, top, Seq::empty(), version);
        lemma_after_both(job, lead, walk.drop_last());
        assert(events.drop_last() =~= lead + walk.drop_last());
    } else {
        assert(events.drop_last() =~= seq![firmware] + seq![well(machine)]);
    }
    if before.state == JobState::Failed {
        lemma_after_both(job, events.drop_last(), seq![events.last()]);
        assert(events.drop_last() + seq![events.last()] =~= events);
        lemma_ended_stays(before, seq![events.last()]);
    }
}

/// The rendering is past finding out how the machine was started, the
/// machine was not started by UEFI, and the request names no boot device.
pub open spec fn lacks_boot_device(job: ConfigJobView) -> bool {
    &&& job.state != JobState::Firmware
    &&& job.state != JobState::Writing
    &&& !job.efi
    &&& job.config.bootdisk is None
}

/// On a machine without UEFI, a rendering whose request names no boot
/// device never has a file written, whatever it is told.
pub proof fn lemma_no_boot_device_writes_nothing(job: ConfigJobView, events: Seq<EventView>)
    requires
        lacks_boot_device(job),
    ensures
        lacks_boot_device(job.after(events)),
        job.wrote(events) == Seq::<Seq<Seq<char>>>::empty(),
    decreases events.len(),
{
    reveal(ConfigJobView::next);
    reveal(ConfigJobView::wrote_for);
    if events.len() > 0 {
        lemma_no_boot_device_writes_nothing(job, events.drop_last());
        lemma_step_progress(job.after(events.drop_last()), events.last());
    }
}

} // verus!
