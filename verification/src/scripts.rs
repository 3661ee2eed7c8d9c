//! The scenarios.
//!
//! Each scenario is the script of a test of the bootloader: what is marked
//! in the trailers, when the bootloader runs and with what budget, and what
//! is then expected in flash. The scripts are data: `scenario::Run` runs
//! them.

use crate::caps::{BootInfo, Caps};
use crate::checks::Images;
use crate::crypto::random_between;
use crate::depends::{DepTest, UpgradeInfo};
use crate::flash::RATE_ONE;
use crate::image::Abort;
use crate::install::{BOOT_SET, BOOT_UNSET};
use crate::scenario::{script_wf, BootRequest, Check, Op};
use vstd::prelude::*;

verus! {

/// The step that runs the bootloader with the budget `counter`.
pub open spec fn boot_op(counter: Option<i32>, catch_asserts: bool) -> Op {
    Op::Boot(BootRequest { counter, catch_asserts })
}

/// The step that runs the bootloader with the budget `counter`.
#[verifier::when_used_as_spec(boot_op)]
pub fn boot(counter: Option<i32>, catch_asserts: bool) -> (op: Op)
    ensures
        op == boot_op(counter, catch_asserts),
{
    Op::Boot(BootRequest { counter, catch_asserts })
}

/// The step that expects slot `slot` of every image to hold what was
/// installed in slot `against`.
pub open spec fn images_op(slot: usize, against: usize) -> Op {
    Op::Expect(Check::Images { slot, against })
}

/// The step that expects slot `slot` of every image to hold what was
/// installed in slot `against`.
#[verifier::when_used_as_spec(images_op)]
pub fn images(slot: usize, against: usize) -> (op: Op)
    ensures
        op == images_op(slot, against),
{
    Op::Expect(Check::Images { slot, against })
}

/// The step that expects the trailer of slot `slot` of every image to have
/// its magic good or unset as `magic` is 1 or 3, and its image-ok and
/// copy-done flags set or unset likewise.
pub open spec fn trailers_op(slot: usize, magic: u8, image_ok: u8, copy_done: u8) -> Op {
    Op::Expect(
        Check::Trailers {
            slot,
            magic: Some(magic),
            image_ok: Some(image_ok),
            copy_done: Some(copy_done),
        },
    )
}

/// The step that expects the trailer of slot `slot` of every image to hold
/// the given values.
#[verifier::when_used_as_spec(trailers_op)]
pub fn trailers(slot: usize, magic: u8, image_ok: u8, copy_done: u8) -> (op: Op)
    ensures
        op == trailers_op(slot, magic, image_ok, copy_done),
{
    Op::Expect(
        Check::Trailers {
            slot,
            magic: Some(magic),
            image_ok: Some(image_ok),
            copy_done: Some(copy_done),
        },
    )
}

/// The step that expects the last boot to have succeeded.
pub open spec fn zero_op() -> Op {
    Op::Expect(Check::StatusZero)
}

/// The step that expects the last boot to have succeeded.
#[verifier::when_used_as_spec(zero_op)]
pub fn zero() -> (op: Op)
    ensures
        op == zero_op(),
{
    Op::Expect(Check::StatusZero)
}

/// The step that expects the last boot to have halted.
pub open spec fn halted_op() -> Op {
    Op::Expect(Check::StatusHalted)
}

/// The step that expects the last boot to have halted.
#[verifier::when_used_as_spec(halted_op)]
pub fn halted() -> (op: Op)
    ensures
        op == halted_op(),
{
    Op::Expect(Check::StatusHalted)
}

/// An upgrade, optionally stopped after `stop` flash operations and then
/// left to finish, with its flash operations counted: from the installed
/// state, with the upgrade marked permanent if `permanent`.
pub open spec fn upgrade_script(stop: Option<i32>, permanent: bool) -> Seq<Op> {
    let counter = match stop {
        Some(budget) => budget,
        None => 0,
    };
    (if permanent {
        seq![Op::Restart, Op::MarkPermanent(1)]
    } else {
        seq![Op::Restart]
    }) + seq![boot(Some(counter), false), Op::CountFirst(stop), Op::Resume, Op::CountResume]
}

/// Appends the steps of `more` to `ops`.
pub fn append(ops: &mut Vec<Op>, more: &Vec<Op>)
    ensures
        final(ops)@ == old(ops)@ + more@,
{
    let mut i: usize = 0;
    while i < more.len()
        invariant
            i <= more.len(),
            ops@ == old(ops)@ + more@.take(i as int),
        decreases more.len() - i,
    {
        ops.push(more[i]);
        assert(ops@ =~= old(ops)@ + more@.take(i + 1));
        i = i + 1;
    }
    assert(more@.take(more@.len() as int) =~= more@);
}

/// The steps of an upgrade; see `upgrade_script`.
pub fn try_upgrade(stop: Option<i32>, permanent: bool) -> (ops: Vec<Op>)
    ensures
        ops@ == upgrade_script(stop, permanent),
        script_wf(ops@),
{
    let mut ops: Vec<Op> = Vec::new();
    ops.push(Op::Restart);
    if permanent {
        ops.push(Op::MarkPermanent(1));
    }
    let counter = match stop {
        Some(budget) => budget,
        None => 0,
    };
    ops.push(boot(Some(counter), false));
    ops.push(Op::CountFirst(stop));
    ops.push(Op::Resume);
    ops.push(Op::CountResume);
    assert(ops@ =~= upgrade_script(stop, permanent));
    ops
}

/// A simple upgrade without forced failures: the upgrade, then the
/// expectations that the primary slot holds the upgrade and that its
/// trailer has a good magic and both flags set.
pub open spec fn basic_upgrade_script(permanent: bool) -> Seq<Op> {
    upgrade_script(None, permanent) + seq![
        images(0, 1),
        trailers(0, BOOT_SET, BOOT_SET, BOOT_SET),
    ]
}

/// The number of flash operations of a basic upgrade that came to `failed`
/// and `count`: the count, unless the images or the trailer did not match.
pub open spec fn basic_upgrade_count(failed: bool, count: i32) -> Option<i32> {
    if failed {
        None
    } else {
        Some(count)
    }
}

/// The number of flash operations that a set of images is taken to need for
/// its upgrade, when the basic upgrade came to `outcome`: that of the
/// outcome; zero where there is none but the test expects an image to be
/// held. Where there is none and every image is expected to upgrade, the
/// basic upgrade has failed and there is no number.
pub open spec fn total_count_for(outcome: Option<i32>, deps: DepTest) -> Option<i32> {
    match outcome {
        Some(count) => Some(count),
        None => if deps.upgrades[0] == UpgradeInfo::Held || deps.upgrades[1]
            == UpgradeInfo::Held {
            Some(0)
        } else {
            None
        },
    }
}

/// The bootstrap scenario: with nothing in the primary slot, a bootloader
/// that can bootstrap copies the upgrade there.
pub open spec fn bootstrap_script(caps: u32) -> Seq<Op> {
    if Caps::Bootstrap.in_set(caps) {
        seq![
            Op::Restart,
            boot(None, false),
            zero(),
            images(0, 1),
            trailers(0, BOOT_SET, BOOT_SET, BOOT_SET),
        ]
    } else {
        seq![Op::Restart]
    }
}

/// The dependency scenario: a permanent upgrade, after which each image is
/// expected to be upgraded or held as the test `deps` says.
pub open spec fn check_deps_script(deps: DepTest) -> Seq<Op> {
    upgrade_script(None, true) + seq![Op::Expect(Check::Deps(deps))]
}

/// `count` boots, each of which must succeed without an assert.
pub open spec fn clean_boots(count: nat) -> Seq<Op>
    decreases count,
{
    if count == 0 {
        Seq::empty()
    } else {
        clean_boots((count - 1) as nat) + seq![boot(None, false), Op::NeedClean]
    }
}

/// One round of the revert scenario: `count` boots from the installed
/// state, after which the primary slot is expected to hold the primary
/// image again.
pub open spec fn revert_round(count: nat) -> Seq<Op> {
    seq![Op::Restart] + clean_boots(count) + seq![images(0, 0)]
}

/// The revert scenario: an upgrade that was not marked permanent is rolled
/// back by the next boot, and further boots change nothing. It is tried
/// with two, three and four boots. A bootloader that overwrites cannot
/// revert, and one that does not swap is not tried.
pub open spec fn basic_revert_script(info: BootInfo) -> Seq<Op> {
    if Caps::OverwriteUpgrade.in_set(info.caps) || !info.swaps() {
        Seq::empty()
    } else {
        revert_round(2) + revert_round(3) + revert_round(4)
    }
}

/// What is expected after a permanent upgrade.
pub open spec fn upgraded_checks(swaps: bool) -> Seq<Op> {
    seq![
        images(0, 1),
        trailers(0, BOOT_SET, BOOT_SET, BOOT_SET),
        trailers(1, BOOT_UNSET, BOOT_UNSET, BOOT_UNSET),
    ] + (if swaps {
        seq![images(1, 0)]
    } else {
        Seq::empty()
    })
}

/// One round of the sweep of interrupted upgrades: a permanent upgrade
/// interrupted after `stop` flash operations and resumed, after which the
/// devices are expected to be as after an upgrade that was not interrupted.
pub open spec fn interrupted_round(stop: i32, swaps: bool) -> Seq<Op> {
    upgrade_script(Some(stop), true) + upgraded_checks(swaps)
}

/// The rounds of the sweep for the interruption points from `from` up to,
/// but not including, `to`.
pub open spec fn interrupted_rounds(from: int, to: int, swaps: bool) -> Seq<Op>
    decreases to - from,
{
    if from >= to {
        Seq::empty()
    } else {
        interrupted_rounds(from, to - 1, swaps) + interrupted_round((to - 1) as i32, swaps)
    }
}

/// One round of the sweep of interrupted reverts: an upgrade interrupted
/// after `stop` flash operations and resumed, then a revert interrupted
/// likewise and resumed, then one more boot, with what is expected between
/// them.
pub open spec fn revert_fail_round(stop: i32) -> Seq<Op> {
    seq![
        Op::Restart,
        boot(Some(stop), false),
        halted(),
        Op::Expect(
            Check::TrailersLoose {
                slot: 0,
                magic: None,
                image_ok: None,
                copy_done: Some(BOOT_UNSET),
            },
        ),
        boot(None, false),
        zero(),
        images(0, 1),
        images(1, 0),
        trailers(0, BOOT_SET, BOOT_UNSET, BOOT_SET),
        trailers(1, BOOT_UNSET, BOOT_UNSET, BOOT_UNSET),
        boot(Some(stop), false),
        halted(),
        boot(None, false),
        zero(),
        images(0, 0),
        images(1, 1),
        trailers(0, BOOT_SET, BOOT_SET, BOOT_SET),
        trailers(1, BOOT_UNSET, BOOT_UNSET, BOOT_UNSET),
        boot(None, false),
        zero(),
        images(0, 0),
        images(1, 1),
    ]
}

/// The rounds of the sweep of interrupted reverts for the interruption
/// points from `from` up to, but not including, `to`.
pub open spec fn revert_fail_rounds(from: int, to: int) -> Seq<Op>
    decreases to - from,
{
    if from >= to {
        Seq::empty()
    } else {
        revert_fail_rounds(from, to - 1) + revert_fail_round((to - 1) as i32)
    }
}

/// The sweep of interrupted reverts, for every interruption point from 1 up
/// to the number of flash operations of an upgrade. A bootloader that
/// overwrites cannot revert, and one that does not swap is not tried.
pub open spec fn revert_with_fails_script(info: BootInfo, total: i32) -> Seq<Op> {
    if Caps::OverwriteUpgrade.in_set(info.caps) || !info.swaps() {
        Seq::empty()
    } else {
        revert_fail_rounds(1, total as int)
    }
}

/// The scenario of an upgrade that is then made permanent: after the
/// upgrade the image is marked as good, and the next boot is expected to
/// leave it in place.
pub open spec fn norevert_script(caps: u32) -> Seq<Op> {
    if Caps::OverwriteUpgrade.in_set(caps) {
        Seq::empty()
    } else {
        seq![
            Op::Restart,
            boot(None, false),
            zero(),
            images(0, 1),
            trailers(0, BOOT_SET, BOOT_UNSET, BOOT_SET),
            trailers(1, BOOT_UNSET, BOOT_UNSET, BOOT_UNSET),
            Op::MarkPermanent(0),
            trailers(0, BOOT_SET, BOOT_SET, BOOT_SET),
            boot(None, false),
            zero(),
            trailers(0, BOOT_SET, BOOT_SET, BOOT_SET),
            images(0, 1),
        ]
    }
}

/// The scenario of a refused downgrade: a bootloader that prevents
/// downgrades is expected to leave the primary image in place.
pub open spec fn nodowngrade_script(caps: u32) -> Seq<Op> {
    if !Caps::DowngradePrevention.in_set(caps) {
        Seq::empty()
    } else {
        seq![Op::Restart, boot(None, false), zero(), images(0, 0)]
    }
}

/// The scenario of a new image in the primary slot that bears the magic but
/// no flags, with nothing to upgrade to: nothing is expected to change.
pub open spec fn norevert_newimage_script() -> Seq<Op> {
    seq![
        Op::Restart,
        Op::MarkUpgrades(0),
        trailers(0, BOOT_SET, BOOT_UNSET, BOOT_UNSET),
        boot(None, false),
        zero(),
        images(0, 0),
        trailers(0, BOOT_SET, BOOT_UNSET, BOOT_UNSET),
        trailers(1, BOOT_UNSET, BOOT_UNSET, BOOT_UNSET),
    ]
}

/// The scenario of an upgrade with a bad signature: the upgrade is expected
/// to be refused, and the primary slot and its trailer to stay as they
/// were.
pub open spec fn signfail_script() -> Seq<Op> {
    seq![
        Op::Restart,
        Op::MarkUpgrades(0),
        Op::MarkPermanent(0),
        Op::MarkUpgrades(1),
        trailers(0, BOOT_SET, BOOT_SET, BOOT_UNSET),
        boot(None, false),
        zero(),
        images(0, 0),
        trailers(0, BOOT_SET, BOOT_SET, BOOT_UNSET),
    ]
}

/// The scenario of a trailer left over in an otherwise erased secondary
/// slot: the bootloader is expected to erase it.
pub open spec fn leftover_trailer_script() -> Seq<Op> {
    seq![
        Op::Restart,
        Op::MarkPermanent(1),
        Op::MarkUpgrades(1),
        boot(None, false),
        zero(),
        images(0, 0),
        trailers(1, BOOT_UNSET, BOOT_UNSET, BOOT_UNSET),
    ]
}

/// The scenario of an upgrade during which every write to the status area
/// fails: a bootloader that validates the primary slot is expected to
/// complete the upgrade without an assert, and to boot again.
pub open spec fn status_fails_complete_script(caps: u32) -> Seq<Op> {
    if !Caps::ValidatePrimarySlot.in_set(caps) {
        Seq::empty()
    } else {
        seq![
            Op::Restart,
            Op::MarkPermanent(1),
            Op::MarkBadStatus(0, RATE_ONE),
            boot(None, true),
            zero(),
            Op::Expect(Check::NoAsserts),
            trailers(0, BOOT_SET, BOOT_SET, BOOT_SET),
            images(0, 1),
            boot(None, false),
            zero(),
        ]
    }
}

/// The scenario of an upgrade with failing writes to the status area that
/// is interrupted half way. A bootloader that validates the primary slot is
/// expected to get through the first part without an assert, with every
/// other status write failing, and through the rest, with the status area
/// healed and write verification off, with one assert at most. One that does
/// not validate is expected to assert when every status write fails. A
/// bootloader that overwrites keeps no status.
pub open spec fn status_fails_with_reset_script(caps: u32, total: i32) -> Seq<Op> {
    if Caps::OverwriteUpgrade.in_set(caps) {
        Seq::empty()
    } else if Caps::ValidatePrimarySlot.in_set(caps) {
        seq![
            Op::Restart,
            Op::MarkPermanent(1),
            Op::MarkBadStatus(0, 0x80_0000),
            boot(Some((total / 2) as i32), true),
            Op::Expect(Check::NoAsserts),
            Op::ResetBadStatus(0),
            boot(None, true),
            Op::Expect(Check::AtMostOneAssert),
        ]
    } else {
        seq![
            Op::Restart,
            Op::MarkPermanent(1),
            Op::MarkBadStatus(0, RATE_ONE),
            boot(None, true),
            Op::Expect(Check::SomeAssert),
        ]
    }
}

/// The budgets `resets` are such as are drawn for `total` flash operations:
/// each is at least one and less than half of what the budgets before it
/// have left.
pub open spec fn resets_fit(resets: Seq<i32>, total: int) -> bool
    decreases resets.len(),
{
    if resets.len() == 0 {
        true
    } else {
        let left = total - sum_of(resets.drop_last());
        &&& resets_fit(resets.drop_last(), total)
        &&& 1 <= resets.last() < left / 2
    }
}

/// The sum of `resets`.
pub open spec fn sum_of(resets: Seq<i32>) -> int
    decreases resets.len(),
{
    if resets.len() == 0 {
        0
    } else {
        sum_of(resets.drop_last()) + resets.last()
    }
}

/// The boots of the scenario of random interruptions: one for each budget,
/// each of which may halt or finish.
pub open spec fn reset_boots(resets: Seq<i32>) -> Seq<Op>
    decreases resets.len(),
{
    if resets.len() == 0 {
        Seq::empty()
    } else {
        reset_boots(resets.drop_last()) + seq![
            boot(Some(resets.last()), false),
            Op::NeedZeroOrHalted,
        ]
    }
}

/// The scenario of an upgrade that is interrupted at random points: a
/// permanent upgrade that is given the budgets `resets` one after the other
/// and then left to finish, after which the devices are expected to be as
/// after an upgrade that was not interrupted.
pub open spec fn random_fails_script(resets: Seq<i32>, swaps: bool) -> Seq<Op> {
    seq![Op::Restart, Op::MarkPermanent(1)] + reset_boots(resets) + seq![
        boot(None, false),
        Op::NeedZero,
        images(0, 1),
    ] + (if swaps {
        seq![images(1, 0)]
    } else {
        Seq::empty()
    }) + seq![
        trailers(0, BOOT_SET, BOOT_SET, BOOT_SET),
        trailers(1, BOOT_UNSET, BOOT_UNSET, BOOT_UNSET),
    ]
}

/// Whether `count` budgets can be drawn from `total` flash operations
/// whatever is drawn: at least four operations are left before each draw,
/// also where every draw before it took the most it could, which is one
/// less than half of what was left.
pub open spec fn room_for(total: int, count: nat) -> bool
    decreases count,
{
    count == 0 || (total / 2 > 1 && room_for(total - total / 2 + 1, (count - 1) as nat))
}

/// With more operations there is room for as many budgets.
pub proof fn lemma_room_grows(total: int, more: int, count: nat)
    requires
        total <= more,
        room_for(total, count),
    ensures
        room_for(more, count),
    decreases count,
{
    if count > 0 {
        lemma_room_grows(total - total / 2 + 1, more - more / 2 + 1, (count - 1) as nat);
    }
}

/// Draws `count` budgets for an upgrade of `total_ops` flash operations:
/// each at random from one up to half of what the budgets before it have
/// left. Where less than four operations are left there is nothing to draw
/// from.
pub fn draw_resets(total_ops: i32, count: usize) -> (drawn: Result<Vec<i32>, Abort>)
    ensures
        match drawn {
            Ok(resets) => resets@.len() == count && resets_fit(resets@, total_ops as int),
            Err(e) => e == Abort::NoRoom,
        },
        room_for(total_ops as int, count as nat) ==> drawn is Ok,
{
    let mut resets: Vec<i32> = Vec::new();
    let mut remaining_ops = total_ops;
    let mut i: usize = 0;
    while i < count
        invariant
            i <= count,
            resets@.len() == i,
            resets_fit(resets@, total_ops as int),
            remaining_ops == total_ops - sum_of(resets@),
            room_for(total_ops as int, count as nat) ==> room_for(
                remaining_ops as int,
                (count - i) as nat,
            ),
        decreases count - i,
    {
        if remaining_ops / 2 <= 1 {
            return Err(Abort::NoRoom);
        }
        let reset_counter = random_between(1, remaining_ops / 2);
        proof {
            assert(resets@.push(reset_counter).drop_last() =~= resets@);
            if room_for(total_ops as int, count as nat) {
                lemma_room_grows(
                    remaining_ops - remaining_ops / 2 + 1,
                    remaining_ops - reset_counter,
                    (count - i - 1) as nat,
                );
            }
        }
        resets.push(reset_counter);
        remaining_ops = remaining_ops - reset_counter;
        i = i + 1;
    }
    Ok(resets)
}

/// The steps of the scenario of random interruptions at the budgets
/// `resets`; see `random_fails_script`.
pub fn random_fails(resets: &Vec<i32>, swaps: bool) -> (ops: Vec<Op>)
    ensures
        ops@ == random_fails_script(resets@, swaps),
        script_wf(ops@),
{
    let mut ops: Vec<Op> = Vec::new();
    ops.push(Op::Restart);
    ops.push(Op::MarkPermanent(1));
    let ghost head = ops@;
    let mut i: usize = 0;
    while i < resets.len()
        invariant
            i <= resets.len(),
            ops@ == head + reset_boots(resets@.take(i as int)),
            script_wf(ops@),
        decreases resets.len() - i,
    {
        ops.push(boot(Some(resets[i]), false));
        ops.push(Op::NeedZeroOrHalted);
        proof {
            assert(resets@.take(i + 1).drop_last() =~= resets@.take(i as int));
            assert(ops@ =~= head + reset_boots(resets@.take(i + 1)));
        }
        i = i + 1;
    }
    assert(resets@.take(resets@.len() as int) =~= resets@);
    ops.push(boot(None, false));
    ops.push(Op::NeedZero);
    ops.push(images(0, 1));
    if swaps {
        ops.push(images(1, 0));
    }
    ops.push(trailers(0, BOOT_SET, BOOT_SET, BOOT_SET));
    ops.push(trailers(1, BOOT_UNSET, BOOT_UNSET, BOOT_UNSET));
    assert(ops@ =~= random_fails_script(resets@, swaps));
    ops
}

/// The steps of one round of the sweep of interrupted reverts; see
/// `revert_fail_round`.
pub fn try_revert_with_fail_at(stop: i32) -> (ops: Vec<Op>)
    ensures
        ops@ == revert_fail_round(stop),
        script_wf(ops@),
{
    let mut ops: Vec<Op> = Vec::new();
    ops.push(Op::Restart);
    ops.push(boot(Some(stop), false));
    ops.push(halted());
    // In a multi-image setup, copy done might be set if any number of
    // images was already successfully swapped.
    ops.push(
        Op::Expect(
            Check::TrailersLoose {
                slot: 0,
                magic: None,
                image_ok: None,
                copy_done: Some(BOOT_UNSET),
            },
        ),
    );
    ops.push(boot(None, false));
    ops.push(zero());
    ops.push(images(0, 1));
    ops.push(images(1, 0));
    ops.push(trailers(0, BOOT_SET, BOOT_UNSET, BOOT_SET));
    ops.push(trailers(1, BOOT_UNSET, BOOT_UNSET, BOOT_UNSET));
    // Do Revert
    ops.push(boot(Some(stop), false));
    ops.push(halted());
    ops.push(boot(None, false));
    ops.push(zero());
    ops.push(images(0, 0));
    ops.push(images(1, 1));
    ops.push(trailers(0, BOOT_SET, BOOT_SET, BOOT_SET));
    ops.push(trailers(1, BOOT_UNSET, BOOT_UNSET, BOOT_UNSET));
    ops.push(boot(None, false));
    ops.push(zero());
    ops.push(images(0, 0));
    ops.push(images(1, 1));
    assert(ops@ =~= revert_fail_round(stop));
    ops
}

/// The steps of `count` boots from the installed state, after which the
/// primary slot is expected to hold the primary image; see `revert_round`.
pub fn try_revert(count: usize) -> (ops: Vec<Op>)
    ensures
        ops@ == revert_round(count as nat),
        script_wf(ops@),
{
    let mut ops: Vec<Op> = Vec::new();
    ops.push(Op::Restart);
    let ghost head = ops@;
    let mut i: usize = 0;
    while i < count
        invariant
            i <= count,
            ops@ == head + clean_boots(i as nat),
            script_wf(ops@),
        decreases count - i,
    {
        ops.push(boot(None, false));
        ops.push(Op::NeedClean);
        assert(ops@ =~= head + clean_boots((i + 1) as nat));
        i = i + 1;
    }
    ops.push(images(0, 0));
    assert(ops@ =~= revert_round(count as nat));
    ops
}

impl Images {
    /// A simple upgrade without forced failures.
    ///
    /// The run of this script ends with the number of flash operations,
    /// which can later be used to inject failures at chosen steps.
    pub fn run_basic_upgrade(&self, permanent: bool) -> (ops: Vec<Op>)
        ensures
            ops@ == basic_upgrade_script(permanent),
            script_wf(ops@),
    {
        let mut ops = try_upgrade(None, permanent);
        ops.push(images(0, 1));
        ops.push(trailers(0, BOOT_SET, BOOT_SET, BOOT_SET));
        assert(ops@ =~= basic_upgrade_script(permanent));
        ops
    }

    /// The script of the bootstrap scenario.
    pub fn run_bootstrap(&self, info: &BootInfo) -> (ops: Vec<Op>)
        ensures
            ops@ == bootstrap_script(info.caps),
            script_wf(ops@),
    {
        let mut ops: Vec<Op> = Vec::new();
        ops.push(Op::Restart);
        if Caps::Bootstrap.present(info.caps) {
            ops.push(boot(None, false));
            ops.push(zero());
            ops.push(images(0, 1));
            ops.push(trailers(0, BOOT_SET, BOOT_SET, BOOT_SET));
        }
        assert(ops@ =~= bootstrap_script(info.caps));
        ops
    }

    /// Test a simple upgrade, with dependencies given, and verify that the
    /// image does as is described in the test.
    pub fn run_check_deps(&self, deps: &DepTest) -> (ops: Vec<Op>)
        ensures
            ops@ == check_deps_script(*deps),
            script_wf(ops@),
    {
        let mut ops = try_upgrade(None, true);
        ops.push(Op::Expect(Check::Deps(*deps)));
        ops
    }

    /// The script of the revert scenario.
    pub fn run_basic_revert(&self, info: &BootInfo) -> (ops: Vec<Op>)
        ensures
            ops@ == basic_revert_script(*info),
            script_wf(ops@),
    {
        let mut ops: Vec<Op> = Vec::new();
        if Caps::OverwriteUpgrade.present(info.caps) {
            return ops;
        }
        if info.is_swap_upgrade() {
            append(&mut ops, &try_revert(2));
            append(&mut ops, &try_revert(3));
            append(&mut ops, &try_revert(4));
        }
        assert(ops@ =~= basic_revert_script(*info));
        ops
    }

    /// The script of the sweep of interrupted upgrades: for every
    /// interruption point from 1 up to the number of flash operations of an
    /// upgrade, one round.
    pub fn run_perm_with_fails(&self, info: &BootInfo) -> (ops: Vec<Op>)
        requires
            self.total_count is Some,
        ensures
            ops@ == interrupted_rounds(1, self.total_count.unwrap() as int, info.swaps()),
            script_wf(ops@),
    {
        let total_flash_ops = self.total_count.unwrap();
        let swaps = info.is_swap_upgrade();
        let mut ops: Vec<Op> = Vec::new();
        let mut i: i32 = 1;
        while i < total_flash_ops
            invariant
                1 <= i,
                i <= total_flash_ops || (total_flash_ops < 1 && i == 1),
                ops@ == interrupted_rounds(1, i as int, swaps),
                script_wf(ops@),
            decreases total_flash_ops - i,
        {
            let ghost before = ops@;
            append(&mut ops, &try_upgrade(Some(i), true));
            ops.push(images(0, 1));
            ops.push(trailers(0, BOOT_SET, BOOT_SET, BOOT_SET));
            ops.push(trailers(1, BOOT_UNSET, BOOT_UNSET, BOOT_UNSET));
            if swaps {
                ops.push(images(1, 0));
            }
            assert(ops@ =~= before + interrupted_round(i, swaps));
            i = i + 1;
        }
        ops
    }

    /// The script of the scenario of random interruptions, with
    /// `total_fails` interruptions drawn for the number of flash operations
    /// of an upgrade.
    pub fn run_perm_with_random_fails(&self, total_fails: usize, info: &BootInfo) -> (ops: Result<
        Vec<Op>,
        Abort,
    >)
        requires
            self.total_count is Some,
        ensures
            match ops {
                Ok(script) => script_wf(script@) && exists|resets: Seq<i32>|
                    #![trigger resets_fit(resets, self.total_count.unwrap() as int)]
                    resets.len() == total_fails && resets_fit(
                        resets,
                        self.total_count.unwrap() as int,
                    ) && script@ == random_fails_script(resets, info.swaps()),
                Err(e) => e == Abort::NoRoom,
            },
            room_for(self.total_count.unwrap() as int, total_fails as nat) ==> ops is Ok,
    {
        let resets = draw_resets(self.total_count.unwrap(), total_fails)?;
        Ok(random_fails(&resets, info.is_swap_upgrade()))
    }

    /// The script of the sweep of interrupted reverts.
    pub fn run_revert_with_fails(&self, info: &BootInfo) -> (ops: Vec<Op>)
        requires
            self.total_count is Some,
        ensures
            ops@ == revert_with_fails_script(*info, self.total_count.unwrap()),
            script_wf(ops@),
    {
        let mut ops: Vec<Op> = Vec::new();
        if Caps::OverwriteUpgrade.present(info.caps) {
            return ops;
        }
        if info.is_swap_upgrade() {
            let total = self.total_count.unwrap();
            let mut i: i32 = 1;
            while i < total
                invariant
                    1 <= i,
                    i <= total || (total < 1 && i == 1),
                    ops@ == revert_fail_rounds(1, i as int),
                    script_wf(ops@),
                decreases total - i,
            {
                append(&mut ops, &try_revert_with_fail_at(i));
                i = i + 1;
            }
        }
        ops
    }

    /// The script of the scenario of an upgrade that is then made
    /// permanent.
    pub fn run_norevert(&self, info: &BootInfo) -> (ops: Vec<Op>)
        ensures
            ops@ == norevert_script(info.caps),
            script_wf(ops@),
    {
        let mut ops: Vec<Op> = Vec::new();
        if Caps::OverwriteUpgrade.present(info.caps) {
            return ops;
        }
        ops.push(Op::Restart);
        // First do a normal upgrade...
        ops.push(boot(None, false));
        ops.push(zero());
        ops.push(images(0, 1));
        ops.push(trailers(0, BOOT_SET, BOOT_UNSET, BOOT_SET));
        ops.push(trailers(1, BOOT_UNSET, BOOT_UNSET, BOOT_UNSET));
        // Marks image in the primary slot as permanent,
        // no revert should happen...
        ops.push(Op::MarkPermanent(0));
        ops.push(trailers(0, BOOT_SET, BOOT_SET, BOOT_SET));
        ops.push(boot(None, false));
        ops.push(zero());
        ops.push(trailers(0, BOOT_SET, BOOT_SET, BOOT_SET));
        ops.push(images(0, 1));
        assert(ops@ =~= norevert_script(info.caps));
        ops
    }

    /// Test that an upgrade is rejected.  Assumes that the image was build
    /// such that the upgrade is instead a downgrade.
    pub fn run_nodowngrade(&self, info: &BootInfo) -> (ops: Vec<Op>)
        ensures
            ops@ == nodowngrade_script(info.caps),
            script_wf(ops@),
    {
        let mut ops: Vec<Op> = Vec::new();
        if !Caps::DowngradePrevention.present(info.caps) {
            return ops;
        }
        ops.push(Op::Restart);
        ops.push(boot(None, false));
        ops.push(zero());
        ops.push(images(0, 0));
        assert(ops@ =~= nodowngrade_script(info.caps));
        ops
    }

    /// Tests a new image written to the primary slot that already has magic and
    /// image_ok set while there is no image on the secondary slot, so no revert
    /// should ever happen...
    pub fn run_norevert_newimage(&self) -> (ops: Vec<Op>)
        ensures
            ops@ == norevert_newimage_script(),
            script_wf(ops@),
    {
        let mut ops: Vec<Op> = Vec::new();
        ops.push(Op::Restart);
        ops.push(Op::MarkUpgrades(0));
        // This simulates writing an image created by imgtool to
        // the primary slot
        ops.push(trailers(0, BOOT_SET, BOOT_UNSET, BOOT_UNSET));
        // Run the bootloader...
        ops.push(boot(None, false));
        ops.push(zero());
        // State should not have changed
        ops.push(images(0, 0));
        ops.push(trailers(0, BOOT_SET, BOOT_UNSET, BOOT_UNSET));
        ops.push(trailers(1, BOOT_UNSET, BOOT_UNSET, BOOT_UNSET));
        assert(ops@ =~= norevert_newimage_script());
        ops
    }

    /// Tests an upgrade to an image with a bad signature: the upgrade must
    /// be refused.
    pub fn run_signfail_upgrade(&self) -> (ops: Vec<Op>)
        ensures
            ops@ == signfail_script(),
            script_wf(ops@),
    {
        let mut ops: Vec<Op> = Vec::new();
        ops.push(Op::Restart);
        ops.push(Op::MarkUpgrades(0));
        ops.push(Op::MarkPermanent(0));
        ops.push(Op::MarkUpgrades(1));
        ops.push(trailers(0, BOOT_SET, BOOT_SET, BOOT_UNSET));
        // Run the bootloader...
        ops.push(boot(None, false));
        ops.push(zero());
        // State should not have changed
        ops.push(images(0, 0));
        ops.push(trailers(0, BOOT_SET, BOOT_SET, BOOT_UNSET));
        assert(ops@ =~= signfail_script());
        ops
    }

    /// Should detect there is a leftover trailer in an otherwise erased
    /// secondary slot and erase its trailer.
    pub fn run_secondary_leftover_trailer(&self) -> (ops: Vec<Op>)
        ensures
            ops@ == leftover_trailer_script(),
            script_wf(ops@),
    {
        let mut ops: Vec<Op> = Vec::new();
        ops.push(Op::Restart);
        // Add a trailer on the secondary slot
        ops.push(Op::MarkPermanent(1));
        ops.push(Op::MarkUpgrades(1));
        // Run the bootloader...
        ops.push(boot(None, false));
        ops.push(zero());
        // State should not have changed
        ops.push(images(0, 0));
        ops.push(trailers(1, BOOT_UNSET, BOOT_UNSET, BOOT_UNSET));
        assert(ops@ =~= leftover_trailer_script());
        ops
    }

    /// This test runs a simple upgrade with no fails in the images, but
    /// allowing for fails in the status area. This should run to the end
    /// and warn that write fails were detected...
    pub fn run_with_status_fails_complete(&self, info: &BootInfo) -> (ops: Vec<Op>)
        ensures
            ops@ == status_fails_complete_script(info.caps),
            script_wf(ops@),
    {
        let mut ops: Vec<Op> = Vec::new();
        if !Caps::ValidatePrimarySlot.present(info.caps) {
            return ops;
        }
        ops.push(Op::Restart);
        ops.push(Op::MarkPermanent(1));
        ops.push(Op::MarkBadStatus(0, RATE_ONE));
        ops.push(boot(None, true));
        ops.push(zero());
        // Failed writes to the marked "bad" region don't assert anymore.
        // Any detected assert() is happening in another part of the code.
        ops.push(Op::Expect(Check::NoAsserts));
        ops.push(trailers(0, BOOT_SET, BOOT_SET, BOOT_SET));
        ops.push(images(0, 1));
        // validate primary slot enabled; re-run of boot_go should just work
        ops.push(boot(None, false));
        ops.push(zero());
        assert(ops@ =~= status_fails_complete_script(info.caps));
        ops
    }

    /// This test runs a simple upgrade with no fails in the images, but
    /// allowing for fails in the status area, and interrupts it half way.
    pub fn run_with_status_fails_with_reset(&self, info: &BootInfo) -> (ops: Vec<Op>)
        requires
            self.total_count is Some,
            self.total_count.unwrap() >= 0,
        ensures
            ops@ == status_fails_with_reset_script(info.caps, self.total_count.unwrap()),
            script_wf(ops@),
    {
        let mut ops: Vec<Op> = Vec::new();
        if Caps::OverwriteUpgrade.present(info.caps) {
            return ops;
        } else if Caps::ValidatePrimarySlot.present(info.caps) {
            let count = self.total_count.unwrap() / 2;
            ops.push(Op::Restart);
            ops.push(Op::MarkPermanent(1));
            ops.push(Op::MarkBadStatus(0, 0x80_0000));
            // Should not fail, writing to bad regions does not assert
            ops.push(boot(Some(count), true));
            ops.push(Op::Expect(Check::NoAsserts));
            ops.push(Op::ResetBadStatus(0));
            // Resuming an interrupted swap operation.
            //
            // This might throw no asserts, for large sector devices, where
            // a single failure writing is indistinguishable from no failure,
            // or throw a single assert for small sector devices that fail
            // multiple times...
            ops.push(boot(None, true));
            ops.push(Op::Expect(Check::AtMostOneAssert));
        } else {
            ops.push(Op::Restart);
            ops.push(Op::MarkPermanent(1));
            ops.push(Op::MarkBadStatus(0, RATE_ONE));
            // This is expected to fail while writing to bad regions...
            ops.push(boot(None, true));
            ops.push(Op::Expect(Check::SomeAssert));
        }
        assert(ops@ =~= status_fails_with_reset_script(info.caps, self.total_count.unwrap()));
        ops
    }

    /// The number of flash operations of a basic upgrade that ended as
    /// `failed` and `count` say: the count, unless the images or the trailer
    /// did not match.
    pub fn basic_upgrade_result(failed: bool, count: i32) -> (total: Option<i32>)
        ensures
            total == basic_upgrade_count(failed, count),
    {
        if failed {
            None
        } else {
            Some(count)
        }
    }

    /// Records the number of flash operations of the basic upgrade of these
    /// images, which came to `outcome`, for a test `deps`. Where the upgrade
    /// failed though the test expects every image to upgrade, nothing can be
    /// recorded.
    pub fn set_total_count(&mut self, outcome: Option<i32>, deps: &DepTest) -> (done: bool)
        ensures
            done == total_count_for(outcome, *deps) is Some,
            done ==> final(self).total_count == total_count_for(outcome, *deps),
            !done ==> final(self).total_count == old(self).total_count,
            final(self).flash == old(self).flash,
            final(self).areadesc == old(self).areadesc,
            final(self).images == old(self).images,
    {
        let total_count = match outcome {
            Some(v) => v,
            None => {
                let held0 = match deps.upgrades[0] {
                    UpgradeInfo::Held => true,
                    UpgradeInfo::Upgraded => false,
                };
                let held1 = match deps.upgrades[1] {
                    UpgradeInfo::Held => true,
                    UpgradeInfo::Upgraded => false,
                };
                if held0 || held1 {
                    0
                } else {
                    return false;
                }
            },
        };
        self.total_count = Some(total_count);
        true
    }
}

} // verus!
