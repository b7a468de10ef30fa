//! What the user chose: the account to create, the optional features, and
//! the request from which the configuration files are rendered.

use vstd::prelude::*;

verus! {

/// The account to create and the name of the machine.
#[derive(Clone, Debug, PartialEq, Eq)]
pub struct UserConfig {
    /// The display name.
    pub name: String,
    pub username: String,
    pub hostname: String,
    pub password: String,
    /// The password of root, if root is to have one.
    pub rootpassword: Option<String>,
    /// Whether the user is logged in without being asked.
    pub autologin: bool,
}

/// A `UserConfig` as mathematical data.
pub struct UserConfigView {
    pub name: Seq<char>,
    pub username: Seq<char>,
    pub hostname: Seq<char>,
    pub password: Seq<char>,
    pub rootpassword: Option<Seq<char>>,
    pub autologin: bool,
}

impl View for UserConfig {
    type V = UserConfigView;

    open spec fn view(&self) -> UserConfigView {
        UserConfigView {
            name: self.name@,
            username: self.username@,
            hostname: self.hostname@,
            password: self.password@,
            rootpassword: self.rootpassword.deep_view(),
            autologin: self.autologin,
        }
    }
}

impl DeepView for UserConfig {
    type V = UserConfigView;

    open spec fn deep_view(&self) -> UserConfigView {
        self.view()
    }
}

/// What one option of a feature group contributes.
#[derive(Clone, Debug, PartialEq, Eq)]
pub struct Choice {
    /// Packages to install.
    pub packages: Option<Vec<String>>,
    /// Configuration text to put in the group's place.
    pub config: Option<String>,
}

/// A `Choice` as mathematical data.
pub struct ChoiceView {
    pub packages: Option<Seq<Seq<char>>>,
    pub config: Option<Seq<char>>,
}

impl View for Choice {
    type V = ChoiceView;

    open spec fn view(&self) -> ChoiceView {
        ChoiceView { packages: self.packages.deep_view(), config: self.config.deep_view() }
    }
}

impl DeepView for Choice {
    type V = ChoiceView;

    open spec fn deep_view(&self) -> ChoiceView {
        self.view()
    }
}

/// The selected options of one feature group, each under its identifier, in
/// the order in which they were selected.
pub type Choices = Vec<(String, Choice)>;

/// The feature groups with their selected options, each under its
/// identifier, in the order in which they were met.
pub type Selections = Vec<(String, Choices)>;

/// `Choices` as mathematical data.
pub type ChoicesView = Seq<(Seq<char>, ChoiceView)>;

/// `Selections` as mathematical data.
pub type SelectionsView = Seq<(Seq<char>, ChoicesView)>;

/// No identifier names two groups, and within a group none names two
/// options.
pub open spec fn selections_wf(list: SelectionsView) -> bool {
    &&& forall|i: int, j: int| 0 <= i < j < list.len() ==> list[i].0 != list[j].0
    &&& forall|g: int, i: int, j: int|
        0 <= g < list.len() && 0 <= i < j < list[g].1.len() ==> list[g].1[i].0 != list[g].1[j].0
}

/// How the configuration files are laid out.
#[derive(Clone, Copy, Debug, PartialEq, Eq, Structural)]
pub enum ConfigType {
    /// One flat directory.
    Standard,
    /// The hardware facts under a directory named after the architecture
    /// and the host, and no flat entry file.
    Snowfall,
}

/// What the configuration files are rendered from.
#[derive(Clone, Debug, PartialEq, Eq)]
pub struct MakeConfig {
    /// The template set to use.
    pub id: String,
    pub language: Option<String>,
    pub timezone: Option<String>,
    /// The keyboard layout, or layout and variant with `+` between them.
    pub keyboard: Option<String>,
    pub user: Option<UserConfig>,
    pub list: Selections,
    /// The device for a boot loader without UEFI.
    pub bootdisk: Option<String>,
}

/// A `MakeConfig` as mathematical data.
pub struct MakeConfigView {
    pub id: Seq<char>,
    pub language: Option<Seq<char>>,
    pub timezone: Option<Seq<char>>,
    pub keyboard: Option<Seq<char>>,
    pub user: Option<UserConfigView>,
    pub list: SelectionsView,
    pub bootdisk: Option<Seq<char>>,
}

impl View for MakeConfig {
    type V = MakeConfigView;

    open spec fn view(&self) -> MakeConfigView {
        MakeConfigView {
            id: self.id@,
            language: self.language.deep_view(),
            timezone: self.timezone.deep_view(),
            keyboard: self.keyboard.deep_view(),
            user: self.user.deep_view(),
            list: self.list.deep_view(),
            bootdisk: self.bootdisk.deep_view(),
        }
    }
}

impl DeepView for MakeConfig {
    type V = MakeConfigView;

    open spec fn deep_view(&self) -> MakeConfigView {
        self.view()
    }
}

/// The name that a machine without a configured user gets.
pub const DEFAULT_HOSTNAME: &'static str = "nixos";

impl MakeConfigView {
    /// The name of the machine: the user's choice, or the default.
    pub open spec fn hostname(self) -> Seq<char> {
        match self.user {
            Some(user) => user.hostname,
            None => DEFAULT_HOSTNAME@,
        }
    }
}

impl MakeConfig {
    /// The name of the machine: the user's choice, or the default.
    pub fn hostname(&self) -> (r: &str)
        ensures
            r@ == self@.hostname(),
    {
        match &self.user {
            Some(user) => user.hostname.as_str(),
            None => DEFAULT_HOSTNAME,
        }
    }
}

} // verus!
