//! Support for the dependency management of multi-image setups.
//!
//! Each image carries a version, and may declare that it depends on another
//! image being at least at some version. The versions and dependencies that
//! the test images carry are synthesized here from a description of the
//! test.

use crate::image::ImageVersion;
use vstd::prelude::*;

verus! {

/// The version of image `image_id` in slot `slot`: the image number sets the
/// major version (by an arbitrary factor), the slot raises it and gives the
/// build number, and `minor` can force versions apart.
pub open spec fn synthetic_version(image_id: u8, slot: u8, minor: u8) -> ImageVersion {
    ImageVersion {
        major: (image_id * 20 + slot) as u8,
        minor,
        revision: 1,
        build_num: slot as u32,
    }
}

impl ImageVersion {
    /// Generates an image version based on some key information.
    pub fn new_synthetic(image_id: u8, slot: u8, minor: u8) -> (version: ImageVersion)
        requires
            image_id * 20 + slot <= u8::MAX,
        ensures
            version == synthetic_version(image_id, slot, minor),
    {
        ImageVersion { major: image_id * 20 + slot, minor, revision: 1, build_num: slot as u32 }
    }
}

/// Describes the various types of dependency information that can be
/// provided.
#[derive(Copy, Clone, Debug, PartialEq, Eq, Structural)]
pub enum DepType {
    /// Do not include dependency information
    Nothing,
    /// Provide dependency information that matches the other image.
    Correct,
    /// Provide a dependency that matches the old version of the other
    /// image.
    OldCorrect,
    /// Provide dependency information describing something newer than the
    /// other image.
    Newer,
    /// Don't provide an upgrade image at all for this image
    NoUpgrade,
}

/// Describes what our expectation is for an upgrade.
#[derive(Copy, Clone, Debug, PartialEq, Eq, Structural)]
pub enum UpgradeInfo {
    /// The current version should be held.
    Held,
    /// The image should be upgraded
    Upgraded,
}

/// An individual test of the dependency mechanism describes one of the
/// possibilities for the dependency information for each image, and what
/// the expected outcome is.
#[derive(Copy, Clone, Debug)]
pub struct DepTest {
    /// What kinds of dependency should be installed in the image.
    pub depends: [DepType; 2],
    /// What is the expected outcome of the upgrade.
    pub upgrades: [UpgradeInfo; 2],
    /// Should this be considered a downgrade (cause the version number to
    /// decrease).
    pub downgrade: bool,
}

/// The test that gives no dependency information; see `no_deps`.
pub open spec fn plain_test() -> DepTest {
    DepTest {
        depends: [DepType::Nothing, DepType::Nothing],
        upgrades: [UpgradeInfo::Upgraded, UpgradeInfo::Upgraded],
        downgrade: false,
    }
}

/// A "test" that gives no dependency information.
pub fn no_deps() -> (test: DepTest)
    ensures
        test == plain_test(),
        test.depends@ == seq![DepType::Nothing, DepType::Nothing],
        test.upgrades@ == seq![UpgradeInfo::Upgraded, UpgradeInfo::Upgraded],
        !test.downgrade,
{
    let test = DepTest {
        depends: [DepType::Nothing, DepType::Nothing],
        upgrades: [UpgradeInfo::Upgraded, UpgradeInfo::Upgraded],
        downgrade: false,
    };
    assert(test.depends@ =~= seq![DepType::Nothing, DepType::Nothing]);
    assert(test.upgrades@ =~= seq![UpgradeInfo::Upgraded, UpgradeInfo::Upgraded]);
    test
}

/// A "test" with no dependency information, and the images marked as a
/// downgrade.
pub fn rev_deps() -> (test: DepTest)
    ensures
        test.depends@ == seq![DepType::Nothing, DepType::Nothing],
        test.upgrades@ == seq![UpgradeInfo::Held, UpgradeInfo::Held],
        test.downgrade,
{
    let test = DepTest {
        depends: [DepType::Nothing, DepType::Nothing],
        upgrades: [UpgradeInfo::Held, UpgradeInfo::Held],
        downgrade: true,
    };
    assert(test.depends@ =~= seq![DepType::Nothing, DepType::Nothing]);
    assert(test.upgrades@ =~= seq![UpgradeInfo::Held, UpgradeInfo::Held]);
    test
}

/// The slot whose number shapes the version of the image in `slot`: the slot
/// itself, or the other one where the test is a downgrade.
pub open spec fn version_slot(downgrade: bool, slot: usize) -> int {
    if downgrade {
        1 - slot
    } else {
        slot as int
    }
}

/// A source of the versions and dependencies that an image is given.
pub trait Depender {
    /// The image number can be given a version for `slot`.
    spec fn versioned(&self, slot: usize) -> bool;

    /// The image can be given dependencies for `slot`.
    spec fn dependable(&self, slot: usize) -> bool;

    /// The version of this image in `slot`.
    spec fn version_of(&self, slot: usize) -> ImageVersion;

    /// The versions this image depends on when in `slot`.
    spec fn deps_of(&self, slot: usize) -> Seq<ImageVersion>;

    /// The number of the image that the dependencies are on.
    spec fn other(&self) -> u8;

    /// Generate a version for this particular image.  The slot indicates
    /// which slot this is being put in.
    fn my_version(&self, offset: usize, slot: usize) -> (version: ImageVersion)
        requires
            self.versioned(slot),
        ensures
            version == self.version_of(slot),
    ;

    /// Return dependencies for this image/slot combination.
    fn my_deps(&self, offset: usize, slot: usize) -> (deps: Vec<ImageVersion>)
        requires
            self.dependable(slot),
        ensures
            deps@ == self.deps_of(slot),
    ;

    /// Return the image ID of the other version.
    fn other_id(&self) -> (id: u8)
        requires
            exists|slot: usize| self.dependable(slot),
        ensures
            id == self.other(),
    ;
}

/// A boring image is used when we aren't testing dependencies.  There will
/// be meaningful version numbers.  The size field is the image number we
/// are.
pub struct BoringDep {
    pub number: usize,
    pub test: DepTest,
}

impl BoringDep {
    pub fn new(number: usize, test: &DepTest) -> (dep: BoringDep)
        ensures
            dep.number == number,
            dep.test == *test,
    {
        BoringDep { number, test: *test }
    }
}

impl Depender for BoringDep {
    open spec fn versioned(&self, slot: usize) -> bool {
        &&& self.test.downgrade ==> slot <= 1
        &&& self.number <= u8::MAX
        &&& version_slot(self.test.downgrade, slot) <= u8::MAX
        &&& self.number * 20 + version_slot(self.test.downgrade, slot) <= u8::MAX
    }

    open spec fn dependable(&self, slot: usize) -> bool {
        true
    }

    open spec fn version_of(&self, slot: usize) -> ImageVersion {
        synthetic_version(self.number as u8, version_slot(self.test.downgrade, slot) as u8, 0)
    }

    open spec fn deps_of(&self, slot: usize) -> Seq<ImageVersion> {
        Seq::empty()
    }

    open spec fn other(&self) -> u8 {
        0
    }

    fn my_version(&self, _offset: usize, slot: usize) -> (version: ImageVersion) {
        let slot = if self.test.downgrade {
            1 - slot
        } else {
            slot
        };
        ImageVersion::new_synthetic(self.number as u8, slot as u8, 0)
    }

    fn my_deps(&self, _offset: usize, _slot: usize) -> (deps: Vec<ImageVersion>) {
        Vec::new()
    }

    fn other_id(&self) -> (id: u8) {
        0
    }
}

/// A PairDep describes the dependencies between two pairs.
pub struct PairDep {
    /// The image number of this image.
    pub number: usize,
    pub test: DepTest,
}

impl PairDep {
    /// The dependencies of image `my_image` of two, as `deps` describes them.
    pub fn new(total_image: usize, my_image: usize, deps: &DepTest) -> (dep: PairDep)
        requires
            total_image == 2,
        ensures
            dep.number == my_image,
            dep.test == *deps,
    {
        PairDep { number: my_image, test: *deps }
    }
}

/// The dependencies that image `number` of a pair declares in `slot` when
/// the test asks for dependencies of type `kind`: none in slot zero; in the
/// other slot the version of the other image that the type names.
pub open spec fn pair_deps(kind: DepType, number: usize, slot: usize) -> Seq<ImageVersion> {
    if slot == 0 {
        Seq::empty()
    } else {
        match kind {
            DepType::Nothing => Seq::empty(),
            DepType::NoUpgrade => Seq::empty(),
            DepType::Correct => seq![synthetic_version((1 - number) as u8, slot as u8, 0)],
            DepType::OldCorrect => seq![synthetic_version((1 - number) as u8, 0, 0)],
            DepType::Newer => seq![synthetic_version((1 - number) as u8, slot as u8, 1)],
        }
    }
}

impl Depender for PairDep {
    open spec fn versioned(&self, slot: usize) -> bool {
        &&& self.test.downgrade ==> slot <= 1
        &&& self.number <= u8::MAX
        &&& version_slot(self.test.downgrade, slot) <= u8::MAX
        &&& self.number * 20 + version_slot(self.test.downgrade, slot) <= u8::MAX
    }

    open spec fn dependable(&self, slot: usize) -> bool {
        &&& self.number < 2
        &&& slot != 0 ==> self.test.depends[self.number as int] != DepType::NoUpgrade && slot
            <= u8::MAX && (1 - self.number) * 20 + slot <= u8::MAX
    }

    open spec fn version_of(&self, slot: usize) -> ImageVersion {
        synthetic_version(self.number as u8, version_slot(self.test.downgrade, slot) as u8, 0)
    }

    open spec fn deps_of(&self, slot: usize) -> Seq<ImageVersion> {
        pair_deps(self.test.depends[self.number as int], self.number, slot)
    }

    open spec fn other(&self) -> u8 {
        (1 - self.number) as u8
    }

    fn my_version(&self, _offset: usize, slot: usize) -> (version: ImageVersion) {
        let slot = if self.test.downgrade {
            1 - slot
        } else {
            slot
        };
        ImageVersion::new_synthetic(self.number as u8, slot as u8, 0)
    }

    fn my_deps(&self, _offset: usize, slot: usize) -> (deps: Vec<ImageVersion>) {
        // For now, don't put any dependencies in slot zero.  They could be
        // added here if we someday implement checking these.
        let mut deps: Vec<ImageVersion> = Vec::new();
        if slot != 0 {
            match self.test.depends[self.number] {
                DepType::Nothing => {},
                DepType::NoUpgrade => {},
                DepType::Correct => {
                    deps.push(ImageVersion::new_synthetic(self.other_id(), slot as u8, 0));
                },
                DepType::OldCorrect => {
                    deps.push(ImageVersion::new_synthetic(self.other_id(), 0, 0));
                },
                DepType::Newer => {
                    deps.push(ImageVersion::new_synthetic(self.other_id(), slot as u8, 1));
                },
            }
        }
        assert(deps@ =~= self.deps_of(slot));
        deps
    }

    fn other_id(&self) -> (id: u8) {
        (1 - self.number) as u8
    }
}

/// In the upgrade slot, a dependency of type `Correct` names exactly the
/// version that the other image has there, one of type `OldCorrect` the
/// version it has in the primary slot, and one of type `Newer` a version
/// that comes after the one it has in the upgrade slot.
pub proof fn law_pair_dependencies(me: PairDep, other: PairDep, slot: usize)
    requires
        me.number < 2,
        other.number == 1 - me.number,
        !other.test.downgrade,
        slot == 1,
    ensures
        me.test.depends[me.number as int] == DepType::Correct ==> me.deps_of(slot) == seq![
            other.version_of(slot),
        ],
        me.test.depends[me.number as int] == DepType::OldCorrect ==> me.deps_of(slot) == seq![
            other.version_of(0),
        ],
        me.test.depends[me.number as int] == DepType::Newer ==> me.deps_of(slot).len() == 1
            && other.version_of(slot).precedes(me.deps_of(slot)[0]),
{
}

} // verus!
