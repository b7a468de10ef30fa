//! How the target's storage is laid out, and which device the boot loader
//! of a machine without UEFI is installed on.

use crate::error::{InstallError, InstallErrorView};
use crate::text::same_text;
use vstd::prelude::*;

verus! {

/// The mount point of the root file system.
pub const ROOT_MOUNTPOINT: &'static str = "/";

/// One partition of a custom layout.
#[derive(Clone, Debug, PartialEq, Eq)]
pub struct CustomPartition {
    /// The file system to create on it, if any.
    pub format: Option<String>,
    /// Where it is mounted in the installed system, if anywhere.
    pub mountpoint: Option<String>,
    /// The path of its block device.
    pub device: String,
}

/// A `CustomPartition` as mathematical data.
pub struct CustomPartitionView {
    pub format: Option<Seq<char>>,
    pub mountpoint: Option<Seq<char>>,
    pub device: Seq<char>,
}

impl View for CustomPartition {
    type V = CustomPartitionView;

    open spec fn view(&self) -> CustomPartitionView {
        CustomPartitionView {
            format: self.format.deep_view(),
            mountpoint: self.mountpoint.deep_view(),
            device: self.device@,
        }
    }
}

impl DeepView for CustomPartition {
    type V = CustomPartitionView;

    open spec fn deep_view(&self) -> CustomPartitionView {
        self.view()
    }
}

impl CustomPartitionView {
    /// The partition holds the root file system.
    pub open spec fn is_root(self) -> bool {
        self.mountpoint == Some(ROOT_MOUNTPOINT@)
    }
}

impl CustomPartition {
    /// Whether the partition holds the root file system.
    pub fn is_root(&self) -> (r: bool)
        ensures
            r == self@.is_root(),
    {
        match &self.mountpoint {
            Some(m) => same_text(m.as_str(), ROOT_MOUNTPOINT),
            None => false,
        }
    }
}

/// The layout of the target's storage: a whole disk, wiped and used as
/// one, or chosen partitions, each under the identifier the user gave it, in
/// the order in which they were chosen.
#[derive(Clone, Debug, PartialEq, Eq)]
pub enum PartitionSchema {
    FullDisk(String),
    Custom(Vec<(String, CustomPartition)>),
}

/// A `PartitionSchema` as mathematical data.
pub enum PartitionSchemaView {
    FullDisk(Seq<char>),
    Custom(Seq<(Seq<char>, CustomPartitionView)>),
}

impl View for PartitionSchema {
    type V = PartitionSchemaView;

    open spec fn view(&self) -> PartitionSchemaView {
        match self {
            PartitionSchema::FullDisk(disk) => PartitionSchemaView::FullDisk(disk@),
            PartitionSchema::Custom(parts) => PartitionSchemaView::Custom(parts.deep_view()),
        }
    }
}

impl DeepView for PartitionSchema {
    type V = PartitionSchemaView;

    open spec fn deep_view(&self) -> PartitionSchemaView {
        self.view()
    }
}

/// The device of the last partition among `parts` that holds the root file
/// system, if there is one.
pub open spec fn root_device(parts: Seq<(Seq<char>, CustomPartitionView)>) -> Option<Seq<char>>
    decreases parts.len(),
{
    if parts.len() == 0 {
        None
    } else if parts.last().1.is_root() {
        Some(parts.last().1.device)
    } else {
        root_device(parts.drop_last())
    }
}

impl PartitionSchemaView {
    /// No identifier names two partitions, and at most one partition holds
    /// the root file system.
    pub open spec fn wf(self) -> bool {
        match self {
            PartitionSchemaView::FullDisk(_) => true,
            PartitionSchemaView::Custom(parts) => {
                &&& forall|i: int, j: int|
                    0 <= i < j < parts.len() ==> parts[i].0 != parts[j].0
                &&& forall|i: int, j: int|
                    0 <= i < j < parts.len() ==> !(parts[i].1.is_root() && parts[j].1.is_root())
            },
        }
    }

    /// The device that a boot loader without UEFI is installed on: the
    /// disk of a whole-disk layout, the device of the root partition of a
    /// custom one.
    pub open spec fn boot_device(self) -> Option<Seq<char>> {
        match self {
            PartitionSchemaView::FullDisk(disk) => Some(disk),
            PartitionSchemaView::Custom(parts) => root_device(parts),
        }
    }
}

impl PartitionSchema {
    /// The device that a boot loader without UEFI is installed on, if the
    /// layout names one.
    pub fn boot_device(&self) -> (r: Option<String>)
        ensures
            r.deep_view() == self@.boot_device(),
    {
        match self {
            PartitionSchema::FullDisk(disk) => Some(disk.clone()),
            PartitionSchema::Custom(parts) => {
                let mut found: Option<String> = None;
                let mut i: usize = 0;
                while i < parts.len()
                    invariant
                        i <= parts.len(),
                        found.deep_view() == root_device(parts.deep_view().take(i as int)),
                    decreases parts.len() - i,
                {
                    proof {
                        let all = parts.deep_view();
                        assert(all.take(i + 1).drop_last() =~= all.take(i as int));
                        assert(all.take(i + 1).last() == all[i as int]);
                    }
                    if parts[i].1.is_root() {
                        found = Some(parts[i].1.device.clone());
                    }
                    i += 1;
                }
                proof {
                    assert(parts.deep_view().take(i as int) =~= parts.deep_view());
                }
                found
            },
        }
    }
}

/// The boot device of the layout `scheme`, where one is given.
pub open spec fn resolved(scheme: Option<PartitionSchemaView>) -> Result<
    Option<Seq<char>>,
    InstallErrorView,
> {
    match scheme {
        Some(scheme) => Ok(scheme.boot_device()),
        None => Err(InstallErrorView::NoPartitions),
    }
}

/// A resolver's result with the device as mathematical data.
pub open spec fn device_result(r: Result<Option<String>, InstallError>) -> Result<
    Option<Seq<char>>,
    InstallErrorView,
> {
    match r {
        Ok(device) => Ok(device.deep_view()),
        Err(e) => Err(e@),
    }
}

/// Resolves the device that a boot loader without UEFI is installed on.
/// Without a layout there is nothing to resolve, which is an error.
pub fn resolve_boot_device(scheme: &Option<PartitionSchema>) -> (r: Result<
    Option<String>,
    InstallError,
>)
    ensures
        device_result(r) == resolved(scheme.deep_view()),
{
    match scheme {
        Some(scheme) => Ok(scheme.boot_device()),
        None => Err(InstallError::NoPartitions),
    }
}

/// The boot device of a whole-disk layout is that disk.
pub proof fn lemma_full_disk_boot_device(disk: Seq<char>)
    ensures
        PartitionSchemaView::FullDisk(disk).boot_device() == Some(disk),
{
}

/// With no root partition there is no boot device.
pub proof fn lemma_no_root_no_boot_device(parts: Seq<(Seq<char>, CustomPartitionView)>)
    requires
        forall|i: int| 0 <= i < parts.len() ==> !parts[i].1.is_root(),
    ensures
        PartitionSchemaView::Custom(parts).boot_device() is None,
    decreases parts.len(),
{
    if parts.len() > 0 {
        lemma_no_root_no_boot_device(parts.drop_last());
    }
}

/// In a well-formed custom layout the device of a root partition is the
/// boot device.
pub proof fn lemma_root_boot_device(parts: Seq<(Seq<char>, CustomPartitionView)>, k: int)
    requires
        PartitionSchemaView::Custom(parts).wf(),
        0 <= k < parts.len(),
        parts[k].1.is_root(),
    ensures
        PartitionSchemaView::Custom(parts).boot_device() == Some(parts[k].1.device),
{
    lemma_single_root_boot_device(parts, k);
}

/// With exactly one root partition, its device is the boot device.
pub proof fn lemma_single_root_boot_device(parts: Seq<(Seq<char>, CustomPartitionView)>, k: int)
    requires
        0 <= k < parts.len(),
        parts[k].1.is_root(),
        forall|i: int| 0 <= i < parts.len() && i != k ==> !parts[i].1.is_root(),
    ensures
        PartitionSchemaView::Custom(parts).boot_device() == Some(parts[k].1.device),
    decreases parts.len(),
{
    if k < parts.len() - 1 {
        lemma_single_root_boot_device(parts.drop_last(), k);
    }
}

} // verus!
