//! The renderer: a template's placeholders, each replaced where it first
//! stands, in a fixed order.

use crate::config::{Choices, ChoicesView, MakeConfig, MakeConfigView, Selections, SelectionsView, UserConfig, UserConfigView};
use crate::error::{text_result, InstallError, InstallErrorView};
use crate::stanza::{autologin, autologin_stanza, bootloader, bootloader_stanza, keyboard, keyboard_stanza, locale, locale_stanza, network, network_stanza, packages, packages_stanza, state_version, state_version_stanza, system, system_name, timezone, timezone_stanza, DESKTOP, STATE_VERSION_LEN};
use crate::text::{indent_lines, indented, replace_first, replace_once};
use vstd::prelude::*;

verus! {

/// The placeholder of hardware acceleration.
pub const TOKEN_NVIDIAOFFLOAD: &'static str = "@NVIDIAOFFLOAD@";

/// The placeholder of the system's name.
pub const TOKEN_ARCH: &'static str = "@ARCH@";

/// The placeholder of the boot loader.
pub const TOKEN_BOOTLOADER: &'static str = "@BOOTLOADER@";

/// The placeholder of the network.
pub const TOKEN_NETWORK: &'static str = "@NETWORK@";

/// The placeholder of the time zone.
pub const TOKEN_TIMEZONE: &'static str = "@TIMEZONE@";

/// The placeholder of the locale.
pub const TOKEN_LOCALE: &'static str = "@LOCALE@";

/// The placeholder of the keyboard.
pub const TOKEN_KEYBOARD: &'static str = "@KEYBOARD@";

/// The placeholder of the desktop.
pub const TOKEN_DESKTOP: &'static str = "@DESKTOP@";

/// The placeholder of the user's name.
pub const TOKEN_USERNAME: &'static str = "@USERNAME@";

/// The placeholder of the user's display name.
pub const TOKEN_FULLNAME: &'static str = "@FULLNAME@";

/// The placeholder of the machine's name.
pub const TOKEN_HOSTNAME: &'static str = "@HOSTNAME@";

/// The placeholder of the automatic login.
pub const TOKEN_AUTOLOGIN: &'static str = "@AUTOLOGIN@";

/// The placeholder of the package list.
pub const TOKEN_PACKAGES: &'static str = "@PACKAGES@";

/// The placeholder of the state version.
pub const TOKEN_STATEVERSION: &'static str = "@STATEVERSION@";

/// What stands before and after a feature group's identifier in its
/// placeholder.
pub const TOKEN_MARK: &'static str = "@";

/// The placeholder of the feature group `id`.
pub open spec fn group_token(id: Seq<char>) -> Seq<char> {
    TOKEN_MARK@ + id + TOKEN_MARK@
}

/// The configuration text of a feature group: that of each of its selected
/// options in their order, every line indented.
pub open spec fn group_text(choices: ChoicesView) -> Seq<char>
    decreases choices.len(),
{
    if choices.len() == 0 {
        Seq::empty()
    } else {
        group_text(choices.drop_last()) + match choices.last().1.config {
            Some(block) => indented(block),
            None => Seq::empty(),
        }
    }
}

/// The packages of a feature group: those of each of its selected options,
/// in their order.
pub open spec fn group_packages(choices: ChoicesView) -> Seq<Seq<char>>
    decreases choices.len(),
{
    if choices.len() == 0 {
        Seq::empty()
    } else {
        group_packages(choices.drop_last()) + match choices.last().1.packages {
            Some(names) => names,
            None => Seq::empty(),
        }
    }
}

/// The packages of all selected options, in the order in which groups and
/// options were met; a package named twice stands twice.
pub open spec fn extra_packages(list: SelectionsView) -> Seq<Seq<char>>
    decreases list.len(),
{
    if list.len() == 0 {
        Seq::empty()
    } else {
        extra_packages(list.drop_last()) + group_packages(list.last().1)
    }
}

/// `text` after the placeholders of the machine: hardware acceleration
/// (cleared), architecture, boot loader, network.
pub open spec fn with_machine(
    text: Seq<char>,
    arch: Seq<char>,
    boot: Seq<char>,
    hostname: Seq<char>,
) -> Seq<char> {
    let text = replace_first(text, TOKEN_NVIDIAOFFLOAD@, Seq::empty());
    let text = replace_first(text, TOKEN_ARCH@, system_name(arch));
    let text = replace_first(text, TOKEN_BOOTLOADER@, boot);
    replace_first(text, TOKEN_NETWORK@, network_stanza(hostname))
}

/// `text` after the placeholders of time zone, locale and keyboard, each
/// only where the user chose one, and of the desktop.
pub open spec fn with_locale(text: Seq<char>, cfg: MakeConfigView) -> Seq<char> {
    let text = match cfg.timezone {
        Some(zone) => replace_first(text, TOKEN_TIMEZONE@, timezone_stanza(zone)),
        None => text,
    };
    let text = match cfg.language {
        Some(language) => replace_first(text, TOKEN_LOCALE@, locale_stanza(language)),
        None => text,
    };
    let text = match cfg.keyboard {
        Some(keymap) => replace_first(text, TOKEN_KEYBOARD@, keyboard_stanza(keymap)),
        None => text,
    };
    replace_first(text, TOKEN_DESKTOP@, DESKTOP@)
}

/// `text` after the placeholders of user name, full name and host name,
/// where a user is configured.
pub open spec fn with_names(text: Seq<char>, user: Option<UserConfigView>) -> Seq<char> {
    match user {
        Some(user) => {
            let text = replace_first(text, TOKEN_USERNAME@, user.username);
            let text = replace_first(text, TOKEN_FULLNAME@, user.name);
            replace_first(text, TOKEN_HOSTNAME@, user.hostname)
        },
        None => text,
    }
}

/// What stands in for the automatic login: its stanza where a user is
/// configured who asked for it, else nothing.
pub open spec fn autologin_text(user: Option<UserConfigView>) -> Seq<char> {
    match user {
        Some(user) => if user.autologin {
            autologin_stanza(user.username)
        } else {
            Seq::empty()
        },
        None => Seq::empty(),
    }
}

/// `text` after the placeholders of the user's names and of the automatic
/// login.
pub open spec fn with_user(text: Seq<char>, user: Option<UserConfigView>) -> Seq<char> {
    replace_first(with_names(text, user), TOKEN_AUTOLOGIN@, autologin_text(user))
}

/// `text` after the placeholder of each feature group, in the groups'
/// order.
pub open spec fn with_features(text: Seq<char>, list: SelectionsView) -> Seq<char>
    decreases list.len(),
{
    if list.len() == 0 {
        text
    } else {
        replace_first(
            with_features(text, list.drop_last()),
            group_token(list.last().0),
            group_text(list.last().1),
        )
    }
}

/// `text` after every placeholder, given the stanzas of boot loader and
/// state version.
pub open spec fn substituted(
    text: Seq<char>,
    cfg: MakeConfigView,
    arch: Seq<char>,
    boot: Seq<char>,
    state: Seq<char>,
) -> Seq<char> {
    let text = with_machine(text, arch, boot, cfg.hostname());
    let text = with_locale(text, cfg);
    let text = with_user(text, cfg.user);
    let text = with_features(text, cfg.list);
    let text = replace_first(text, TOKEN_PACKAGES@, packages_stanza(extra_packages(cfg.list)));
    replace_first(text, TOKEN_STATEVERSION@, state)
}

/// What rendering `template` gives: the text after every placeholder, or
/// the first thing that is missing for it, the boot device before the
/// version.
pub open spec fn rendered(
    template: Seq<char>,
    cfg: MakeConfigView,
    efi: bool,
    arch: Seq<char>,
    version: Seq<char>,
) -> Result<Seq<char>, InstallErrorView> {
    match bootloader_stanza(efi, cfg.bootdisk) {
        None => Err(InstallErrorView::NoBootDevice),
        Some(boot) => match state_version_stanza(version) {
            None => Err(InstallErrorView::NoVersion),
            Some(state) => Ok(substituted(template, cfg, arch, boot, state)),
        },
    }
}

fn machine_pass(template: &str, arch: &str, boot: &str, hostname: &str) -> (out: String)
    ensures
        out@ == with_machine(template@, arch@, boot@, hostname@),
{
    let empty = String::new();
    let text = replace_once(template, TOKEN_NVIDIAOFFLOAD, empty.as_str());
    let text = replace_once(text.as_str(), TOKEN_ARCH, system(arch).as_str());
    let text = replace_once(text.as_str(), TOKEN_BOOTLOADER, boot);
    replace_once(text.as_str(), TOKEN_NETWORK, network(hostname).as_str())
}

fn locale_pass(text: String, cfg: &MakeConfig) -> (out: String)
    ensures
        out@ == with_locale(text@, cfg@),
{
    let text = match &cfg.timezone {
        Some(zone) => replace_once(text.as_str(), TOKEN_TIMEZONE, timezone(zone.as_str()).as_str()),
        None => text,
    };
    let text = match &cfg.language {
        Some(language) => replace_once(
            text.as_str(),
            TOKEN_LOCALE,
            locale(language.as_str()).as_str(),
        ),
        None => text,
    };
    let text = match &cfg.keyboard {
        Some(keymap) => replace_once(
            text.as_str(),
            TOKEN_KEYBOARD,
            keyboard(keymap.as_str()).as_str(),
        ),
        None => text,
    };
    replace_once(text.as_str(), TOKEN_DESKTOP, DESKTOP)
}

fn user_pass(text: String, user: &Option<UserConfig>) -> (out: String)
    ensures
        out@ == with_user(text@, user.deep_view()),
{
    match user {
        Some(user) => {
            let text = replace_once(text.as_str(), TOKEN_USERNAME, user.username.as_str());
            let text = replace_once(text.as_str(), TOKEN_FULLNAME, user.name.as_str());
            let text = replace_once(text.as_str(), TOKEN_HOSTNAME, user.hostname.as_str());
            let login = if user.autologin {
                autologin(user.username.as_str())
            } else {
                String::new()
            };
            replace_once(text.as_str(), TOKEN_AUTOLOGIN, login.as_str())
        },
        None => {
            let empty = String::new();
            replace_once(text.as_str(), TOKEN_AUTOLOGIN, empty.as_str())
        },
    }
}

/// The configuration text of a feature group.
pub fn group_config(choices: &Choices) -> (out: String)
    ensures
        out@ == group_text(choices.deep_view()),
{
    let mut out = String::new();
    let mut j: usize = 0;
    while j < choices.len()
        invariant
            j <= choices.len(),
            out@ == group_text(choices.deep_view().take(j as int)),
        decreases choices.len() - j,
    {
        proof {
            let all = choices.deep_view();
            assert(all.take(j + 1).drop_last() =~= all.take(j as int));
            assert(all.take(j + 1).last() == all[j as int]);
            assert(all[j as int].1 == choices@[j as int].1@);
        }
        match &choices[j].1.config {
            Some(block) => {
                indent_lines(&mut out, block.as_str());
            },
            None => {
                assert(out@ + Seq::<char>::empty() =~= out@);
            },
        }
        j += 1;
    }
    proof {
        assert(choices.deep_view().take(j as int) =~= choices.deep_view());
    }
    out
}

/// Appends the packages of a feature group to `names`.
fn append_packages(names: &mut Vec<String>, choices: &Choices)
    ensures
        final(names).deep_view() == old(names).deep_view() + group_packages(choices.deep_view()),
{
    let ghost base = names.deep_view();
    let mut j: usize = 0;
    proof {
        assert(base + Seq::<Seq<char>>::empty() =~= base);
    }
    while j < choices.len()
        invariant
            j <= choices.len(),
            names.deep_view() == base + group_packages(choices.deep_view().take(j as int)),
        decreases choices.len() - j,
    {
        let ghost so_far = names.deep_view();
        let ghost group = group_packages(choices.deep_view().take(j as int));
        proof {
            let all = choices.deep_view();
            assert(all.take(j + 1).drop_last() =~= all.take(j as int));
            assert(all.take(j + 1).last() == all[j as int]);
            assert(all[j as int].1 == choices@[j as int].1@);
        }
        match &choices[j].1.packages {
            Some(more) => {
                let mut k: usize = 0;
                proof {
                    assert(so_far + more.deep_view().take(0) =~= so_far);
                }
                while k < more.len()
                    invariant
                        k <= more.len(),
                        names.deep_view() == so_far + more.deep_view().take(k as int),
                    decreases more.len() - k,
                {
                    let ghost prev = names.deep_view();
                    names.push(more[k].clone());
                    proof {
                        assert(names.deep_view() =~= prev.push(more@[k as int]@));
                        assert(more.deep_view().take(k + 1) =~= more.deep_view().take(
                            k as int,
                        ).push(more@[k as int]@));
                        assert(names.deep_view() =~= so_far + more.deep_view().take(k + 1));
                    }
                    k += 1;
                }
                proof {
                    assert(more.deep_view().take(k as int) =~= more.deep_view());
                    assert((base + group) + more.deep_view() =~= base + (group
                        + more.deep_view()));
                }
            },
            None => {
                assert(group + Seq::<Seq<char>>::empty() =~= group);
            },
        }
        j += 1;
    }
    proof {
        assert(choices.deep_view().take(j as int) =~= choices.deep_view());
    }
}

/// The packages of all selected options, in the order in which they were
/// met.
pub fn collect_packages(list: &Selections) -> (names: Vec<String>)
    ensures
        names.deep_view() == extra_packages(list.deep_view()),
{
    let mut names: Vec<String> = Vec::new();
    let mut i: usize = 0;
    proof {
        assert(names.deep_view() =~= Seq::<Seq<char>>::empty());
    }
    while i < list.len()
        invariant
            i <= list.len(),
            names.deep_view() == extra_packages(list.deep_view().take(i as int)),
        decreases list.len() - i,
    {
        proof {
            let all = list.deep_view();
            assert(all.take(i + 1).drop_last() =~= all.take(i as int));
            assert(all.take(i + 1).last() == all[i as int]);
            assert(all[i as int].1 == list@[i as int].1.deep_view());
        }
        append_packages(&mut names, &list[i].1);
        i += 1;
    }
    proof {
        assert(list.deep_view().take(i as int) =~= list.deep_view());
    }
    names
}

fn features_pass(text: String, list: &Selections) -> (out: String)
    ensures
        out@ == with_features(text@, list.deep_view()),
{
    let ghost start = text@;
    let mut text = text;
    let mut i: usize = 0;
    while i < list.len()
        invariant
            i <= list.len(),
            text@ == with_features(start, list.deep_view().take(i as int)),
        decreases list.len() - i,
    {
        proof {
            let all = list.deep_view();
            assert(all.take(i + 1).drop_last() =~= all.take(i as int));
            assert(all.take(i + 1).last() == all[i as int]);
            assert(all[i as int].0 == list@[i as int].0@);
            assert(all[i as int].1 == list@[i as int].1.deep_view());
        }
        let mut token = String::from_str(TOKEN_MARK);
        token.append(list[i].0.as_str());
        token.append(TOKEN_MARK);
        let block = group_config(&list[i].1);
        text = replace_once(text.as_str(), token.as_str(), block.as_str());
        i += 1;
    }
    proof {
        assert(list.deep_view().take(i as int) =~= list.deep_view());
    }
    text
}

/// Renders one template: every placeholder replaced where it first stands.
/// Fails, before anything is replaced, where a boot loader without UEFI
/// has no device or the system's version is too short.
pub fn render(template: &str, cfg: &MakeConfig, efi: bool, arch: &str, version: &str) -> (r: Result<
    String,
    InstallError,
>)
    ensures
        text_result(r) == rendered(template@, cfg@, efi, arch@, version@),
{
    let boot = match bootloader(efi, &cfg.bootdisk) {
        Some(boot) => boot,
        None => {
            return Err(InstallError::NoBootDevice);
        },
    };
    let state = match state_version(version) {
        Some(state) => state,
        None => {
            return Err(InstallError::NoVersion);
        },
    };
    let text = machine_pass(template, arch, boot.as_str(), cfg.hostname());
    let text = locale_pass(text, cfg);
    let text = user_pass(text, &cfg.user);
    let text = features_pass(text, &cfg.list);
    let names = collect_packages(&cfg.list);
    let text = replace_once(text.as_str(), TOKEN_PACKAGES, packages(&names).as_str());
    let text = replace_once(text.as_str(), TOKEN_STATEVERSION, state.as_str());
    Ok(text)
}


/// Without a configured user the placeholders of user name, full name and
/// host name are left as they stand, and nothing stands in for the
/// automatic login.
pub proof fn lemma_render_without_user(text: Seq<char>)
    ensures
        with_names(text, None) == text,
        autologin_text(None) == Seq::<char>::empty(),
        with_user(text, None) == replace_first(text, TOKEN_AUTOLOGIN@, Seq::empty()),
{
}

/// A user who did not ask for it gets no automatic login either.
pub proof fn lemma_render_without_autologin(user: UserConfigView)
    requires
        !user.autologin,
    ensures
        autologin_text(Some(user)) == Seq::<char>::empty(),
{
}

/// On a machine without UEFI, a request without a boot device is not
/// rendered, whatever the template and the system's version.
pub proof fn lemma_no_boot_device_no_rendering(
    template: Seq<char>,
    cfg: MakeConfigView,
    arch: Seq<char>,
    version: Seq<char>,
)
    requires
        cfg.bootdisk is None,
    ensures
        rendered(template, cfg, false, arch, version) == Err::<Seq<char>, InstallErrorView>(
            InstallErrorView::NoBootDevice,
        ),
{
}

/// A template is rendered exactly when the boot loader can be written and
/// the system's version is long enough.
pub proof fn lemma_rendered_when(
    template: Seq<char>,
    cfg: MakeConfigView,
    efi: bool,
    arch: Seq<char>,
    version: Seq<char>,
)
    ensures
        rendered(template, cfg, efi, arch, version) is Ok <==> (efi || cfg.bootdisk is Some)
            && version.len() >= STATE_VERSION_LEN,
{
}

/// The packages of the groups `first` followed by the groups `second` are
/// those of `first` followed by those of `second`: the order in which they
/// were met is kept, and nothing is dropped.
pub proof fn lemma_extra_packages_concat(first: SelectionsView, second: SelectionsView)
    ensures
        extra_packages(first + second) == extra_packages(first) + extra_packages(second),
    decreases second.len(),
{
    if second.len() == 0 {
        assert(first + second =~= first);
        assert(extra_packages(first) + extra_packages(second) =~= extra_packages(first));
    } else {
        lemma_extra_packages_concat(first, second.drop_last());
        assert((first + second).drop_last() =~= first + second.drop_last());
        assert((first + second).last() == second.last());
        assert(extra_packages(first) + (extra_packages(second.drop_last()) + group_packages(
            second.last().1,
        )) =~= (extra_packages(first) + extra_packages(second.drop_last())) + group_packages(
            second.last().1,
        ));
    }
}

} // verus!
