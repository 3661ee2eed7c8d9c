//! Running a scenario against a bootloader.
//!
//! A scenario is a script: marks written to the trailers, boots, and checks
//! of what the boots left in flash. The bootloader itself is not part of this
//! library. So a script is run one step at a time: each step either is taken
//! here, or asks for a boot, which whoever drives the run performs on the
//! run's devices before reporting its outcome and going on.

use crate::caps::{BootInfo, Caps};
use crate::checks::{
    deps_found, devices_present, image_checkable, images_found, permanents_markable,
    status_reachable, trailer_checkable, upgrades_markable, permanents_marked, some_trailer_found, states, status_marked_bad,
    status_reset, trailers_found, upgrades_marked, Images,
};
use crate::depends::DepTest;
use crate::flash::FlashState;
use crate::image::{all_wf, Abort, SimMultiFlash};
use vstd::prelude::*;

verus! {

broadcast use vstd::std_specs::hash::group_hash_axioms;

/// The status with which the bootloader reports that it halted because its
/// budget of flash operations ran out.
pub const HALTED: i32 = -0x13579;

/// What a boot is to be given.
#[derive(Copy, Clone, Debug, PartialEq, Eq, Structural)]
pub struct BootRequest {
    /// The number of flash operations after which the bootloader is halted;
    /// none to let it run to the end.
    pub counter: Option<i32>,
    /// Whether asserts in the bootloader are to be caught and counted.
    pub catch_asserts: bool,
}

/// What a boot came to.
#[derive(Copy, Clone, Debug, PartialEq, Eq, Structural)]
pub struct BootOutcome {
    /// The status: zero for success, `HALTED` where the budget ran out.
    pub result: i32,
    /// The number of asserts that were caught.
    pub asserts: u8,
    /// What is left of the budget; it goes below zero by one for each
    /// operation that is made without a budget.
    pub counter: i32,
}

/// Something that a scenario expects to find.
#[derive(Copy, Clone, Debug)]
pub enum Check {
    /// The last boot succeeded.
    StatusZero,
    /// The last boot halted.
    StatusHalted,
    /// The last boot caught no assert.
    NoAsserts,
    /// The last boot caught one assert at most.
    AtMostOneAssert,
    /// The last boot caught an assert.
    SomeAssert,
    /// Slot `slot` of every image holds what was installed in slot `against`.
    Images { slot: usize, against: usize },
    /// The trailer of slot `slot` of every image holds these values.
    Trailers { slot: usize, magic: Option<u8>, image_ok: Option<u8>, copy_done: Option<u8> },
    /// The trailer of slot `slot` of some image holds these values.
    TrailersLoose { slot: usize, magic: Option<u8>, image_ok: Option<u8>, copy_done: Option<u8> },
    /// The primary slot of every image holds what the test expects.
    Deps(DepTest),
}

/// One step of a scenario.
#[derive(Copy, Clone, Debug)]
pub enum Op {
    /// Start over with a copy of the devices as they were installed.
    Restart,
    /// Mark the slot with this index, of every image, for upgrade.
    MarkUpgrades(usize),
    /// Mark what is in the slot with this index, of every image, as
    /// permanent.
    MarkPermanent(usize),
    /// Make the status area of the slot with this index, of every image, a
    /// bad region that fails writes at this rate.
    MarkBadStatus(usize, u32),
    /// Remove the bad regions of the devices that hold the slot with this
    /// index, and stop verifying writes there.
    ResetBadStatus(usize),
    /// Run the bootloader.
    Boot(BootRequest),
    /// The scenario cannot go on unless the last boot succeeded.
    NeedZero,
    /// The scenario cannot go on unless the last boot succeeded or halted.
    NeedZeroOrHalted,
    /// The scenario cannot go on unless the last boot succeeded without an
    /// assert.
    NeedClean,
    /// Take note of whether the last boot, which was given this budget,
    /// was interrupted, and of the flash operations it made.
    CountFirst(Option<i32>),
    /// If the last boot was interrupted, boot again to let it finish.
    Resume,
    /// Add the flash operations of the boot that finished an interrupted
    /// one.
    CountResume,
    /// Look for something; not to find it makes the scenario fail.
    Expect(Check),
}

/// What is to happen next in a run.
#[derive(Copy, Clone, Debug, PartialEq, Eq, Structural)]
pub enum Step {
    /// The step was taken; take the next.
    Next,
    /// Run the bootloader on the run's devices, report the outcome, and take
    /// the next step.
    Boot(BootRequest),
    /// The scenario is over: whether something expected was not found, and
    /// the number of flash operations that the counted boots made.
    Done { failed: bool, count: i32 },
    /// The scenario cannot go on.
    Abort(Abort),
}

/// A scenario in progress.
pub struct Run {
    /// The devices that the scenario works on.
    pub flash: SimMultiFlash,
    /// The steps of the scenario.
    pub script: Vec<Op>,
    /// The number of steps taken.
    pub pc: usize,
    /// Whether something expected was not found.
    pub failed: bool,
    /// The outcome of the last boot.
    pub last: BootOutcome,
    /// Whether the counted boot was interrupted.
    pub interrupted: bool,
    /// The number of flash operations that the counted boots made.
    pub count: i32,
}

/// The state of a run.
pub struct RunState {
    pub devices: Map<u8, FlashState>,
    pub script: Seq<Op>,
    pub pc: nat,
    pub failed: bool,
    pub last: BootOutcome,
    pub interrupted: bool,
    pub count: i32,
}

impl View for Run {
    type V = RunState;

    open spec fn view(&self) -> RunState {
        RunState {
            devices: states(self.flash@),
            script: self.script@,
            pc: self.pc as nat,
            failed: self.failed,
            last: self.last,
            interrupted: self.interrupted,
            count: self.count,
        }
    }
}

/// The slots that `op` names exist.
pub open spec fn op_wf(op: Op) -> bool {
    match op {
        Op::MarkUpgrades(slot) => slot < 2,
        Op::MarkPermanent(slot) => slot < 2,
        Op::MarkBadStatus(slot, _) => slot < 2,
        Op::ResetBadStatus(slot) => slot < 2,
        Op::Expect(Check::Images { slot, against }) => slot < 2,
        Op::Expect(Check::Trailers { slot, magic, image_ok, copy_done }) => slot < 2,
        Op::Expect(Check::TrailersLoose { slot, magic, image_ok, copy_done }) => slot < 2,
        _ => true,
    }
}

/// The slots that the steps of `script` name exist.
pub open spec fn script_wf(script: Seq<Op>) -> bool {
    forall|i: int| 0 <= i < script.len() ==> op_wf(#[trigger] script[i])
}

/// What is expected by `check` is found in the state `run` of a run on
/// `images`.
pub open spec fn check_holds(check: Check, images: Images, info: BootInfo, run: RunState) -> bool {
    match check {
        Check::StatusZero => run.last.result == 0,
        Check::StatusHalted => run.last.result == HALTED,
        Check::NoAsserts => run.last.asserts == 0,
        Check::AtMostOneAssert => run.last.asserts <= 1,
        Check::SomeAssert => run.last.asserts != 0,
        Check::Images { slot, against } => images_found(
            images.images@,
            run.devices,
            slot,
            against,
            info.encrypts(),
        ),
        Check::Trailers { slot, magic, image_ok, copy_done } => trailers_found(
            images.images@,
            run.devices,
            slot,
            magic,
            image_ok,
            copy_done,
            info,
        ),
        Check::TrailersLoose { slot, magic, image_ok, copy_done } => some_trailer_found(
            images.images@,
            run.devices,
            slot,
            magic,
            image_ok,
            copy_done,
            info,
        ),
        Check::Deps(deps) => deps_found(images.images@, run.devices, deps, info.encrypts()),
    }
}

/// Whether what `check` expects is found can be decided in the state `run`
/// of a run on `images`: what the last boot came to always can; what is in
/// flash can where every slot that is looked at can be read.
pub open spec fn check_decided(check: Check, images: Images, info: BootInfo, run: RunState) -> bool {
    match check {
        Check::Images { slot, against } => forall|k: int|
            0 <= k < images.images@.len() ==> image_checkable(
                #[trigger] images.images@[k],
                run.devices,
                slot,
                against,
                info.encrypts(),
            ),
        Check::Trailers { slot, magic, image_ok, copy_done } => forall|k: int|
            0 <= k < images.images@.len() ==> trailer_checkable(
                #[trigger] images.images@[k],
                run.devices,
                slot,
                info,
            ),
        Check::TrailersLoose { slot, magic, image_ok, copy_done } => forall|k: int|
            0 <= k < images.images@.len() ==> trailer_checkable(
                #[trigger] images.images@[k],
                run.devices,
                slot,
                info,
            ),
        Check::Deps(deps) => forall|k: int|
            0 <= k < images.images@.len() && k < 2 ==> image_checkable(
                #[trigger] images.images@[k],
                run.devices,
                0,
                crate::checks::expected_after(deps, k),
                info.encrypts(),
            ),
        _ => true,
    }
}

/// The state `before` with one more step taken.
pub open spec fn advanced(before: RunState) -> RunState {
    RunState { pc: before.pc + 1, ..before }
}

/// The step `op`, taken in the state `before` of a run on `images`, leads
/// to the state `after` and to `step`.
///
/// A step that writes to the devices comes to nothing only where a write
/// is refused or can fail, or a device is missing; a check comes to nothing
/// only where a slot that it looks at cannot be read. Then the run is
/// aborted. Of every other outcome this says exactly what it is.
pub open spec fn op_follows(
    op: Op,
    images: Images,
    info: BootInfo,
    before: RunState,
    after: RunState,
    step: Step,
) -> bool {
    match op {
        Op::Restart => step == Step::Next && after == (RunState {
            devices: states(images.flash@),
            ..advanced(before)
        }),
        Op::MarkUpgrades(slot) => (step is Abort && !upgrades_markable(
            images.images@,
            slot,
            info,
            before.devices,
        )) || (step == Step::Next && after == (RunState {
            devices: upgrades_marked(images.images@, slot, info, before.devices),
            ..advanced(before)
        })),
        Op::MarkPermanent(slot) => (step is Abort && !permanents_markable(
            images.images@,
            slot,
            info,
            before.devices,
        )) || (step == Step::Next && after == (RunState {
            devices: permanents_marked(images.images@, slot, info, before.devices),
            ..advanced(before)
        })),
        Op::MarkBadStatus(slot, rate) => (step is Abort && !Caps::OverwriteUpgrade.in_set(info.caps)
            && !status_reachable(images.images@, slot, info, before.devices)) || (step
            == Step::Next && after == (RunState {
            devices: status_marked_bad(images.images@, slot, rate, info, before.devices),
            ..advanced(before)
        })),
        Op::ResetBadStatus(slot) => (step is Abort && Caps::ValidatePrimarySlot.in_set(info.caps)
            && !devices_present(images.images@, slot, before.devices)) || (step == Step::Next
            && after == (RunState {
            devices: status_reset(images.images@, slot, info, before.devices),
            ..advanced(before)
        })),
        Op::Boot(request) => step == Step::Boot(request) && after == advanced(before),
        Op::NeedZero => if before.last.result == 0 {
            step == Step::Next && after == advanced(before)
        } else if before.last.result == HALTED {
            step == Step::Abort(Abort::UnexpectedStatus)
        } else {
            step == Step::Abort(Abort::UnknownStatus)
        },
        Op::NeedZeroOrHalted => if before.last.result == 0 || before.last.result == HALTED {
            step == Step::Next && after == advanced(before)
        } else {
            step == Step::Abort(Abort::UnknownStatus)
        },
        Op::NeedClean => if before.last.result == 0 && before.last.asserts == 0 {
            step == Step::Next && after == advanced(before)
        } else {
            step == Step::Abort(Abort::UnexpectedStatus)
        },
        Op::CountFirst(stop) => if before.last.result == HALTED {
            match stop {
                Some(budget) => step == Step::Next && after == (RunState {
                    interrupted: true,
                    count: budget,
                    ..advanced(before)
                }),
                None => step == Step::Abort(Abort::UnexpectedStatus),
            }
        } else if before.last.result == 0 {
            if before.last.counter == i32::MIN {
                step == Step::Abort(Abort::Overflow)
            } else {
                step == Step::Next && after == (RunState {
                    interrupted: false,
                    count: (-before.last.counter) as i32,
                    ..advanced(before)
                })
            }
        } else {
            step == Step::Abort(Abort::UnknownStatus)
        },
        Op::Resume => if before.interrupted {
            step == Step::Boot(BootRequest { counter: Some(0), catch_asserts: false }) && after
                == advanced(before)
        } else {
            step == Step::Next && after == advanced(before)
        },
        Op::CountResume => if !before.interrupted {
            step == Step::Next && after == advanced(before)
        } else if before.last.result == HALTED {
            step == Step::Abort(Abort::UnexpectedStatus)
        } else if before.last.result != 0 {
            step == Step::Abort(Abort::UnknownStatus)
        } else if i32::MIN <= before.count - before.last.counter <= i32::MAX {
            step == Step::Next && after == (RunState {
                count: (before.count - before.last.counter) as i32,
                ..advanced(before)
            })
        } else {
            step == Step::Abort(Abort::Overflow)
        },
        Op::Expect(check) => (step is Abort && !check_decided(check, images, info, before)) || (step
            == Step::Next && after == (RunState {
            failed: before.failed || !check_holds(check, images, info, before),
            ..advanced(before)
        })),
    }
}

impl Run {
    /// The devices are well formed and the script names slots that exist.
    pub open spec fn wf(&self) -> bool {
        all_wf(self.flash@) && script_wf(self.script@)
    }

    /// A run of `script` on a copy of the devices of `images`, with no step
    /// taken.
    pub fn new(images: &Images, script: Vec<Op>) -> (run: Run)
        requires
            images.wf(),
            script_wf(script@),
        ensures
            run.wf(),
            run.script@ == script@,
            run@ == (RunState {
                devices: states(images.flash@),
                script: script@,
                pc: 0,
                failed: false,
                last: BootOutcome { result: 0, asserts: 0, counter: 0 },
                interrupted: false,
                count: 0,
            }),
    {
        Run {
            flash: images.flash.clone(),
            script,
            pc: 0,
            failed: false,
            last: BootOutcome { result: 0, asserts: 0, counter: 0 },
            interrupted: false,
            count: 0,
        }
    }

    /// Reports the outcome of the boot that the last step asked for.
    pub fn booted(&mut self, outcome: BootOutcome)
        ensures
            final(self)@ == (RunState { last: outcome, ..old(self)@ }),
            final(self).flash == old(self).flash,
            final(self).script == old(self).script,
    {
        self.last = outcome;
    }

    /// Whether what `check` expects is found.
    pub fn holds(&self, check: Check, images: &Images, info: &BootInfo) -> (found: Result<
        bool,
        Abort,
    >)
        requires
            self.wf(),
            info.wf(),
            op_wf(Op::Expect(check)),
        ensures
            found matches Ok(yes) ==> yes == check_holds(check, *images, *info, self@),
            check_decided(check, *images, *info, self@) ==> found is Ok,
    {
        match check {
            Check::StatusZero => Ok(self.last.result == 0),
            Check::StatusHalted => Ok(self.last.result == HALTED),
            Check::NoAsserts => Ok(self.last.asserts == 0),
            Check::AtMostOneAssert => Ok(self.last.asserts <= 1),
            Check::SomeAssert => Ok(self.last.asserts != 0),
            Check::Images { slot, against } => images.verify_images(
                &self.flash,
                slot,
                against,
                info,
            ),
            Check::Trailers { slot, magic, image_ok, copy_done } => images.verify_trailers(
                &self.flash,
                slot,
                magic,
                image_ok,
                copy_done,
                info,
            ),
            Check::TrailersLoose { slot, magic, image_ok, copy_done } => {
                images.verify_trailers_loose(&self.flash, slot, magic, image_ok, copy_done, info)
            },
            Check::Deps(deps) => images.verify_dep_images(&self.flash, &deps, info),
        }
    }

    /// Takes the next step of the scenario.
    ///
    /// When the script is exhausted, the scenario is done. Else the step at
    /// hand is taken, as `op_follows` says.
    pub fn step(&mut self, images: &Images, info: &BootInfo) -> (step: Step)
        requires
            old(self).wf(),
            images.wf(),
            info.wf(),
        ensures
            final(self).wf(),
            final(self).script == old(self).script,
            old(self).pc >= old(self).script@.len() ==> step == (Step::Done {
                failed: old(self).failed,
                count: old(self).count,
            }) && final(self)@ == old(self)@,
            old(self).pc < old(self).script@.len() ==> op_follows(
                old(self).script@[old(self).pc as int],
                *images,
                *info,
                old(self)@,
                final(self)@,
                step,
            ),
    {
        if self.pc >= self.script.len() {
            return Step::Done { failed: self.failed, count: self.count };
        }
        let op = self.script[self.pc];
        assert(op_wf(op));
        match op {
            Op::Restart => {
                self.flash = images.flash.clone();
                self.pc = self.pc + 1;
                Step::Next
            },
            Op::MarkUpgrades(slot) => {
                match images.mark_upgrades(&mut self.flash, slot, info) {
                    Ok(()) => {
                        self.pc = self.pc + 1;
                        Step::Next
                    },
                    Err(abort) => Step::Abort(abort),
                }
            },
            Op::MarkPermanent(slot) => {
                match images.mark_permanent_upgrades(&mut self.flash, slot, info) {
                    Ok(()) => {
                        self.pc = self.pc + 1;
                        Step::Next
                    },
                    Err(abort) => Step::Abort(abort),
                }
            },
            Op::MarkBadStatus(slot, rate) => {
                match images.mark_bad_status_with_rate(&mut self.flash, slot, rate, info) {
                    Ok(()) => {
                        self.pc = self.pc + 1;
                        Step::Next
                    },
                    Err(abort) => Step::Abort(abort),
                }
            },
            Op::ResetBadStatus(slot) => {
                match images.reset_bad_status(&mut self.flash, slot, info) {
                    Ok(()) => {
                        self.pc = self.pc + 1;
                        Step::Next
                    },
                    Err(abort) => Step::Abort(abort),
                }
            },
            Op::Boot(request) => {
                self.pc = self.pc + 1;
                Step::Boot(request)
            },
            Op::NeedZero => {
                if self.last.result == 0 {
                    self.pc = self.pc + 1;
                    Step::Next
                } else if self.last.result == HALTED {
                    Step::Abort(Abort::UnexpectedStatus)
                } else {
                    Step::Abort(Abort::UnknownStatus)
                }
            },
            Op::NeedZeroOrHalted => {
                if self.last.result == 0 || self.last.result == HALTED {
                    self.pc = self.pc + 1;
                    Step::Next
                } else {
                    Step::Abort(Abort::UnknownStatus)
                }
            },
            Op::NeedClean => {
                if self.last.result == 0 && self.last.asserts == 0 {
                    self.pc = self.pc + 1;
                    Step::Next
                } else {
                    Step::Abort(Abort::UnexpectedStatus)
                }
            },
            Op::CountFirst(stop) => {
                if self.last.result == HALTED {
                    match stop {
                        Some(budget) => {
                            self.interrupted = true;
                            self.count = budget;
                            self.pc = self.pc + 1;
                            Step::Next
                        },
                        None => Step::Abort(Abort::UnexpectedStatus),
                    }
                } else if self.last.result == 0 {
                    if self.last.counter == i32::MIN {
                        Step::Abort(Abort::Overflow)
                    } else {
                        self.interrupted = false;
                        self.count = -self.last.counter;
                        self.pc = self.pc + 1;
                        Step::Next
                    }
                } else {
                    Step::Abort(Abort::UnknownStatus)
                }
            },
            Op::Resume => {
                self.pc = self.pc + 1;
                if self.interrupted {
                    Step::Boot(BootRequest { counter: Some(0), catch_asserts: false })
                } else {
                    Step::Next
                }
            },
            Op::CountResume => {
                if !self.interrupted {
                    self.pc = self.pc + 1;
                    Step::Next
                } else if self.last.result == HALTED {
                    Step::Abort(Abort::UnexpectedStatus)
                } else if self.last.result != 0 {
                    Step::Abort(Abort::UnknownStatus)
                } else {
                    match self.count.checked_sub(self.last.counter) {
                        Some(count) => {
                            self.count = count;
                            self.pc = self.pc + 1;
                            Step::Next
                        },
                        None => Step::Abort(Abort::Overflow),
                    }
                }
            },
            Op::Expect(check) => {
                match self.holds(check, images, info) {
                    Ok(found) => {
                        self.failed = self.failed || !found;
                        self.pc = self.pc + 1;
                        Step::Next
                    },
                    Err(abort) => Step::Abort(abort),
                }
            },
        }
    }
}

} // verus!
