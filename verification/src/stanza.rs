//! The configuration text that stands in for each placeholder.

use crate::text::{after, before, chars_of, index_of, lemma_prefix_len, lemma_prefix_len_is, leading_chars};
use vstd::prelude::*;

verus! {

/// The boot loader of a machine with UEFI.
pub const EFI_BOOTLOADER: &'static str =
    "  # Bootloader.\n  boot.loader.systemd-boot.enable = true;\n  boot.loader.efi.canTouchEfiVariables = true;\n  boot.loader.efi.efiSysMountPoint = \"/boot/efi\";";

/// The boot loader of a machine without UEFI, up to its device.
pub const GRUB_HEAD: &'static str =
    "  # Bootloader.\n  boot.loader.grub.enable = true;\n  boot.loader.grub.device = \"";

/// The boot loader of a machine without UEFI, after its device.
pub const GRUB_TAIL: &'static str = "\";\n  boot.loader.grub.useOSProber = true;";

/// The network, up to the machine's name.
pub const NETWORK_HEAD: &'static str =
    "  # Define your hostname.\n  networking.hostName = \"";

/// The network, after the machine's name.
pub const NETWORK_TAIL: &'static str =
    "\";\n\n  # Enable networking\n  networking.networkmanager.enable = true;";

/// The time zone, up to its name.
pub const TIMEZONE_HEAD: &'static str = "  # Set your time zone.\n  time.timeZone = \"";

/// The locale, up to its name.
pub const LOCALE_HEAD: &'static str =
    "  # Select internationalisation properties.\n  i18n.defaultLocale = \"";

/// The end of a stanza that is one assignment of a quoted value.
pub const QUOTED_END: &'static str = "\";";

/// The keyboard without a variant, up to the layout.
pub const LAYOUT_HEAD: &'static str =
    "  # Set the keyboard layout.\n  services.xserver.layout = \"";

/// The keyboard without a variant, after the layout.
pub const LAYOUT_TAIL: &'static str = "\";\n  console.useXkbConfig = true;";

/// The keyboard with a variant, up to the layout.
pub const VARIANT_HEAD: &'static str =
    "  # Set the keyboard layout.\n  services.xserver = {\n    layout = \"";

/// The keyboard with a variant, between layout and variant.
pub const VARIANT_MIDDLE: &'static str = "\";\n    xkbVariant = \"";

/// The keyboard with a variant, after the variant.
pub const VARIANT_TAIL: &'static str = "\";\n  };\n  console.useXkbConfig = true;";

/// The desktop.
pub const DESKTOP: &'static str =
    "  # Enable the X11 windowing system.\n  services.xserver.enable = true;\n  # Enable the GNOME Desktop Environment.\n  services.xserver.displayManager.gdm.enable = true;\n  services.xserver.desktopManager.gnome.enable = true;";

/// The automatic login, up to the user's name.
pub const AUTOLOGIN_HEAD: &'static str =
    "  # Enable automatic login for the user.\n  services.xserver.displayManager.autoLogin.enable = true;\n  services.xserver.displayManager.autoLogin.user = \"";

/// The end of the automatic login's assignment, and the workaround that the
/// display manager needs with it.
pub const AUTOLOGIN_TAIL: &'static str =
    "\";\n  # Workaround for GNOME autologin: https://github.com/NixOS/nixpkgs/issues/103746#issuecomment-945091229\n  systemd.services.\"getty@tty1\".enable = false;\n  systemd.services.\"autovt@tty1\".enable = false;\n";

/// The start of the package list, with the package that is always
/// installed.
pub const PACKAGES_HEAD: &'static str =
    "  # List packages installed in system profile.\n  environment.systemPackages = with pkgs; [\n    firefox";

/// What stands before each further package of the list.
pub const PACKAGE_LEAD: &'static str = "\n    ";

/// The end of the package list.
pub const PACKAGES_TAIL: &'static str = "\n  ];";

/// The state version, up to the version.
pub const STATE_VERSION_HEAD: &'static str = "  system.stateVersion = \"";

/// The state version, after the version.
pub const STATE_VERSION_TAIL: &'static str = "\"; # Did you read the comment?";

/// What is appended to the machine's architecture to name its system.
pub const SYSTEM_SUFFIX: &'static str = "-linux";

/// How many characters of the system's version make the state version.
pub const STATE_VERSION_LEN: usize = 5;

/// `head`, `value` and `tail` in a row.
fn wrap(head: &str, value: &str, tail: &str) -> (out: String)
    ensures
        out@ == head@ + value@ + tail@,
{
    let mut out = String::from_str(head);
    out.append(value);
    out.append(tail);
    out
}

/// The name of the system of a machine of architecture `arch`.
pub open spec fn system_name(arch: Seq<char>) -> Seq<char> {
    arch + SYSTEM_SUFFIX@
}

/// The name of the system of a machine of architecture `arch`.
pub fn system(arch: &str) -> (out: String)
    ensures
        out@ == system_name(arch@),
{
    let mut out = String::from_str(arch);
    out.append(SYSTEM_SUFFIX);
    out
}

/// The boot loader: that of UEFI on a machine with UEFI, else GRUB on the
/// device `bootdisk`, and nothing where that device is wanted and missing.
pub open spec fn bootloader_stanza(efi: bool, bootdisk: Option<Seq<char>>) -> Option<Seq<char>> {
    if efi {
        Some(EFI_BOOTLOADER@)
    } else {
        match bootdisk {
            Some(disk) => Some(GRUB_HEAD@ + disk + GRUB_TAIL@),
            None => None,
        }
    }
}

/// The boot loader's stanza, if it can be written.
pub fn bootloader(efi: bool, bootdisk: &Option<String>) -> (r: Option<String>)
    ensures
        r.deep_view() == bootloader_stanza(efi, bootdisk.deep_view()),
{
    if efi {
        Some(String::from_str(EFI_BOOTLOADER))
    } else {
        match bootdisk {
            Some(disk) => Some(wrap(GRUB_HEAD, disk.as_str(), GRUB_TAIL)),
            None => None,
        }
    }
}

/// The network of a machine named `hostname`.
pub open spec fn network_stanza(hostname: Seq<char>) -> Seq<char> {
    NETWORK_HEAD@ + hostname + NETWORK_TAIL@
}

/// The network's stanza.
pub fn network(hostname: &str) -> (out: String)
    ensures
        out@ == network_stanza(hostname@),
{
    wrap(NETWORK_HEAD, hostname, NETWORK_TAIL)
}

/// The time zone `timezone`.
pub open spec fn timezone_stanza(timezone: Seq<char>) -> Seq<char> {
    TIMEZONE_HEAD@ + timezone + QUOTED_END@
}

/// The time zone's stanza.
pub fn timezone(zone: &str) -> (out: String)
    ensures
        out@ == timezone_stanza(zone@),
{
    wrap(TIMEZONE_HEAD, zone, QUOTED_END)
}

/// The locale `locale`.
pub open spec fn locale_stanza(locale: Seq<char>) -> Seq<char> {
    LOCALE_HEAD@ + locale + QUOTED_END@
}

/// The locale's stanza.
pub fn locale(language: &str) -> (out: String)
    ensures
        out@ == locale_stanza(language@),
{
    wrap(LOCALE_HEAD, language, QUOTED_END)
}

/// The layout that a keyboard string with a `+` in it names: what stands
/// before the first `+`.
pub open spec fn keyboard_layout(keymap: Seq<char>) -> Seq<char> {
    before(keymap, '+')
}

/// The variant that a keyboard string with a `+` in it names: what stands
/// between the first `+` and the next, or the end.
pub open spec fn keyboard_variant(keymap: Seq<char>) -> Seq<char> {
    before(after(keymap, '+'), '+')
}

/// The keyboard: layout and variant where `keymap` holds a `+`, else
/// `keymap` as the layout.
pub open spec fn keyboard_stanza(keymap: Seq<char>) -> Seq<char> {
    if keymap.contains('+') {
        VARIANT_HEAD@ + keyboard_layout(keymap) + VARIANT_MIDDLE@ + keyboard_variant(keymap)
            + VARIANT_TAIL@
    } else {
        LAYOUT_HEAD@ + keymap + LAYOUT_TAIL@
    }
}

/// The keyboard's stanza.
pub fn keyboard(keymap: &str) -> (out: String)
    ensures
        out@ == keyboard_stanza(keymap@),
{
    let v = chars_of(keymap);
    let n = v.len();
    let plus = index_of(&v, 0, '+');
    proof {
        assert(keymap@.skip(0) =~= keymap@);
        lemma_prefix_len(keymap@, '+');
        if plus < n {
            assert(keymap@[plus as int] == '+');
        }
    }
    if plus < n {
        let next = index_of(&v, plus + 1, '+');
        let mut out = String::from_str(VARIANT_HEAD);
        out.append(keymap.substring_char(0, plus));
        out.append(VARIANT_MIDDLE);
        out.append(keymap.substring_char(plus + 1, next));
        out.append(VARIANT_TAIL);
        proof {
            let rest = keymap@.skip(plus + 1);
            assert(after(keymap@, '+') == rest);
            assert(keymap@.subrange(0, plus as int) =~= keyboard_layout(keymap@));
            assert(keymap@.subrange(plus + 1, next as int) =~= rest.take(next - (plus + 1)));
        }
        out
    } else {
        wrap(LAYOUT_HEAD, keymap, LAYOUT_TAIL)
    }
}

/// The automatic login of `username`, with the workaround that the display
/// manager needs.
pub open spec fn autologin_stanza(username: Seq<char>) -> Seq<char> {
    AUTOLOGIN_HEAD@ + username + AUTOLOGIN_TAIL@
}

/// The stanza of the automatic login.
pub fn autologin(username: &str) -> (out: String)
    ensures
        out@ == autologin_stanza(username@),
{
    wrap(AUTOLOGIN_HEAD, username, AUTOLOGIN_TAIL)
}

/// One line for each of `packages`, in their order.
pub open spec fn package_lines(packages: Seq<Seq<char>>) -> Seq<char>
    decreases packages.len(),
{
    if packages.len() == 0 {
        Seq::empty()
    } else {
        package_lines(packages.drop_last()) + PACKAGE_LEAD@ + packages.last()
    }
}

/// The package list: the package that is always installed, then `extra` in
/// their order, repeated where they repeat.
pub open spec fn packages_stanza(extra: Seq<Seq<char>>) -> Seq<char> {
    PACKAGES_HEAD@ + package_lines(extra) + PACKAGES_TAIL@
}

/// The stanza of the package list.
pub fn packages(extra: &Vec<String>) -> (out: String)
    ensures
        out@ == packages_stanza(extra.deep_view()),
{
    let mut out = String::from_str(PACKAGES_HEAD);
    let mut i: usize = 0;
    while i < extra.len()
        invariant
            i <= extra.len(),
            out@ == PACKAGES_HEAD@ + package_lines(extra.deep_view().take(i as int)),
        decreases extra.len() - i,
    {
        proof {
            let all = extra.deep_view();
            assert(all.take(i + 1).drop_last() =~= all.take(i as int));
            assert(all.take(i + 1).last() == extra@[i as int]@);
        }
        out.append(PACKAGE_LEAD);
        out.append(extra[i].as_str());
        i += 1;
    }
    proof {
        assert(extra.deep_view().take(i as int) =~= extra.deep_view());
    }
    out.append(PACKAGES_TAIL);
    out
}

/// The state version: the first characters of the system's version, and
/// nothing where the version is too short.
pub open spec fn state_version_stanza(version: Seq<char>) -> Option<Seq<char>> {
    if version.len() < STATE_VERSION_LEN {
        None
    } else {
        Some(STATE_VERSION_HEAD@ + version.take(STATE_VERSION_LEN as int) + STATE_VERSION_TAIL@)
    }
}

/// The state version's stanza, if it can be written.
pub fn state_version(version: &str) -> (r: Option<String>)
    ensures
        r.deep_view() == state_version_stanza(version@),
{
    match leading_chars(version, STATE_VERSION_LEN) {
        Some(head) => Some(wrap(STATE_VERSION_HEAD, head.as_str(), STATE_VERSION_TAIL)),
        None => None,
    }
}


/// A keyboard string without `+` is the layout, and no variant is named.
pub proof fn lemma_keyboard_layout_only(keymap: Seq<char>)
    requires
        !keymap.contains('+'),
    ensures
        keyboard_stanza(keymap) == LAYOUT_HEAD@ + keymap + LAYOUT_TAIL@,
{
}

/// A layout and a variant, neither with a `+` in it, joined by `+`, give
/// the stanza that names both.
pub proof fn lemma_keyboard_layout_and_variant(layout: Seq<char>, variant: Seq<char>)
    requires
        !layout.contains('+'),
        !variant.contains('+'),
    ensures
        keyboard_stanza(layout + seq!['+'] + variant) == VARIANT_HEAD@ + layout + VARIANT_MIDDLE@
            + variant + VARIANT_TAIL@,
{
    let keymap = layout + seq!['+'] + variant;
    let at = layout.len() as int;
    assert(keymap[at] == '+');
    assert forall|k: int| 0 <= k < at implies keymap[k] != '+' by {
        assert(keymap[k] == layout[k]);
    }
    lemma_prefix_len_is(keymap, '+', at);
    assert(keymap.take(at) =~= layout);
    assert(keymap.skip(at + 1) =~= variant);
    assert forall|k: int| 0 <= k < variant.len() implies variant[k] != '+' by {
        assert(variant.contains(variant[k]));
    }
    lemma_prefix_len_is(variant, '+', variant.len() as int);
    assert(variant.take(variant.len() as int) =~= variant);
}

} // verus!
