//! Running the scenarios and keeping count of how they went.

use crate::checks::Images;
use crate::caps::BootInfo;
use crate::image::Abort;
use crate::scenario::{script_wf, Op};
use crate::scripts::{
    basic_revert_script, basic_upgrade_script, bootstrap_script, interrupted_rounds,
    leftover_trailer_script, nodowngrade_script, norevert_newimage_script, norevert_script,
    random_fails_script, resets_fit, revert_with_fails_script, room_for, signfail_script,
    status_fails_complete_script, status_fails_with_reset_script,
};
use vstd::prelude::*;

verus! {

/// The sets of images that scenarios are run on.
#[derive(Copy, Clone, Debug, PartialEq, Eq, Structural)]
pub enum ImageSet {
    /// An upgrade with a bad signature in the secondary slot.
    BadSecondarySlot,
    /// Images in both slots, with no upgrade marked.
    NoUpgrade,
    /// Images in both slots, with the upgrade marked, permanent or not.
    Upgrade { permanent: bool },
    /// Nothing in the secondary slot.
    ErasedSecondary,
    /// Nothing in the primary slot.
    Bootstrap,
}

/// The scenarios.
#[derive(Copy, Clone, Debug, PartialEq, Eq, Structural)]
pub enum Scenario {
    BasicUpgrade { permanent: bool },
    Bootstrap,
    BasicRevert,
    PermWithFails,
    PermWithRandomFails(usize),
    RevertWithFails,
    NoRevert,
    NoDowngrade,
    NoRevertNewImage,
    SignfailUpgrade,
    SecondaryLeftoverTrailer,
    StatusFailsComplete,
    StatusFailsWithReset,
}

/// The scenarios that make one run on a device, each with the images it is
/// run on, in order.
pub open spec fn single_run() -> Seq<(ImageSet, Scenario)> {
    seq![
        (ImageSet::BadSecondarySlot, Scenario::SignfailUpgrade),
        (ImageSet::NoUpgrade, Scenario::NoRevertNewImage),
        (ImageSet::Upgrade { permanent: true }, Scenario::BasicRevert),
        (ImageSet::Upgrade { permanent: true }, Scenario::RevertWithFails),
        (ImageSet::Upgrade { permanent: true }, Scenario::PermWithFails),
        (ImageSet::Upgrade { permanent: true }, Scenario::PermWithRandomFails(5)),
        (ImageSet::Upgrade { permanent: true }, Scenario::NoRevert),
        (ImageSet::Upgrade { permanent: true }, Scenario::StatusFailsComplete),
        (ImageSet::Upgrade { permanent: true }, Scenario::StatusFailsWithReset),
    ]
}

/// Some scenario of a run failed.
pub open spec fn any_failed(results: Seq<bool>) -> bool {
    exists|i: int| 0 <= i < results.len() && #[trigger] results[i]
}

/// How many runs passed and how many failed.
pub struct RunStatus {
    failures: usize,
    passes: usize,
}

impl RunStatus {
    /// The number of runs that failed.
    pub closed spec fn failed(&self) -> nat {
        self.failures as nat
    }

    /// The number of runs that passed.
    pub closed spec fn passed(&self) -> nat {
        self.passes as nat
    }

    /// No run yet.
    pub fn new() -> (status: RunStatus)
        ensures
            status.failed() == 0,
            status.passed() == 0,
    {
        RunStatus { failures: 0, passes: 0 }
    }

    /// The scenarios that make one run on a device, each with the images it
    /// is run on.
    pub fn plan() -> (plan: Vec<(ImageSet, Scenario)>)
        ensures
            plan@ == single_run(),
    {
        let upgraded = ImageSet::Upgrade { permanent: true };
        let mut plan: Vec<(ImageSet, Scenario)> = Vec::new();
        // Creates a badly signed image in the secondary slot to check that
        // it is not upgraded to
        plan.push((ImageSet::BadSecondarySlot, Scenario::SignfailUpgrade));
        plan.push((ImageSet::NoUpgrade, Scenario::NoRevertNewImage));
        plan.push((upgraded, Scenario::BasicRevert));
        plan.push((upgraded, Scenario::RevertWithFails));
        plan.push((upgraded, Scenario::PermWithFails));
        plan.push((upgraded, Scenario::PermWithRandomFails(5)));
        plan.push((upgraded, Scenario::NoRevert));
        plan.push((upgraded, Scenario::StatusFailsComplete));
        plan.push((upgraded, Scenario::StatusFailsWithReset));
        assert(plan@ =~= single_run());
        plan
    }

    /// Takes note of one run on a device: `results` holds, for each scenario
    /// of the run, whether it failed. A device that was skipped, because no
    /// images could be built for it, has no results and is not counted. A run
    /// fails if any of its scenarios does.
    pub fn run_single(&mut self, results: &Option<Vec<bool>>)
        requires
            old(self).failed() + old(self).passed() < usize::MAX,
        ensures
            match *results {
                None => final(self).failed() == old(self).failed() && final(self).passed() == old(
                    self,
                ).passed(),
                Some(r) => if any_failed(r@) {
                    final(self).failed() == old(self).failed() + 1 && final(self).passed() == old(
                        self,
                    ).passed()
                } else {
                    final(self).failed() == old(self).failed() && final(self).passed() == old(
                        self,
                    ).passed() + 1
                },
            },
    {
        let results = match results {
            Some(results) => results,
            None => {
                return ;
            },
        };
        let mut failed = false;
        let mut i: usize = 0;
        while i < results.len()
            invariant
                i <= results.len(),
                failed == any_failed(results@.take(i as int)),
            decreases results.len() - i,
        {
            proof {
                let now = results@.take(i + 1);
                if any_failed(results@.take(i as int)) {
                    let w = choose|w: int| 0 <= w < i && results@.take(i as int)[w];
                    assert(now[w]);
                }
                if results@[i as int] {
                    assert(now[i as int]);
                }
                if any_failed(now) {
                    let w = choose|w: int| 0 <= w < i + 1 && now[w];
                    if w < i {
                        assert(results@.take(i as int)[w]);
                    }
                }
            }
            failed = failed || results[i];
            i = i + 1;
        }
        assert(results@.take(results@.len() as int) =~= results@);
        if failed {
            self.failures = self.failures + 1;
        } else {
            self.passes = self.passes + 1;
        }
    }

    /// The number of runs that failed.
    pub fn failures(&self) -> (n: usize)
        ensures
            n == self.failed(),
    {
        self.failures
    }

    /// The number of runs that passed.
    pub fn passes(&self) -> (n: usize)
        ensures
            n == self.passed(),
    {
        self.passes
    }
}

impl Default for RunStatus {
    fn default() -> (status: RunStatus)
        ensures
            status.failed() == 0,
            status.passed() == 0,
    {
        RunStatus::new()
    }
}

/// What a scenario is run by.
pub enum Scripted {
    /// These steps.
    Fixed(Seq<Op>),
    /// The steps of the random interruptions of an upgrade of so many
    /// flash operations, at so many budgets that are drawn.
    Drawn(i32, usize),
    /// No steps: the number of flash operations that the scenario sweeps
    /// over is missing or negative.
    Nothing,
}

impl Scripted {
    /// Whether `ops` is what comes of this: the fixed steps; for drawn
    /// budgets the steps of one draw of them, which is owed where there is
    /// room for every draw; and no steps where there are none.
    pub open spec fn gives(self, ops: Result<Vec<Op>, Abort>, swaps: bool) -> bool {
        match self {
            Scripted::Fixed(steps) => ops matches Ok(script) && script@ == steps,
            Scripted::Drawn(total, fails) => {
                &&& room_for(total as int, fails as nat) ==> ops is Ok
                &&& ops matches Ok(script) ==> exists|resets: Seq<i32>|
                    #![trigger resets_fit(resets, total as int)]
                    resets.len() == fails && resets_fit(resets, total as int) && script@
                        == random_fails_script(resets, swaps)
            },
            Scripted::Nothing => ops is Err,
        }
    }
}

/// What `scenario` is run by on images whose upgrade takes `total` flash
/// operations, if that is known, against a bootloader of `info`.
pub open spec fn scenario_script(scenario: Scenario, total: Option<i32>, info: BootInfo) -> Scripted {
    match scenario {
        Scenario::BasicUpgrade { permanent } => Scripted::Fixed(basic_upgrade_script(permanent)),
        Scenario::Bootstrap => Scripted::Fixed(bootstrap_script(info.caps)),
        Scenario::BasicRevert => Scripted::Fixed(basic_revert_script(info)),
        Scenario::NoRevert => Scripted::Fixed(norevert_script(info.caps)),
        Scenario::NoDowngrade => Scripted::Fixed(nodowngrade_script(info.caps)),
        Scenario::NoRevertNewImage => Scripted::Fixed(norevert_newimage_script()),
        Scenario::SignfailUpgrade => Scripted::Fixed(signfail_script()),
        Scenario::SecondaryLeftoverTrailer => Scripted::Fixed(leftover_trailer_script()),
        Scenario::StatusFailsComplete => Scripted::Fixed(status_fails_complete_script(info.caps)),
        Scenario::PermWithFails => match total {
            Some(count) => Scripted::Fixed(interrupted_rounds(1, count as int, info.swaps())),
            None => Scripted::Nothing,
        },
        Scenario::PermWithRandomFails(fails) => match total {
            Some(count) => Scripted::Drawn(count, fails),
            None => Scripted::Nothing,
        },
        Scenario::RevertWithFails => match total {
            Some(count) => Scripted::Fixed(revert_with_fails_script(info, count)),
            None => Scripted::Nothing,
        },
        Scenario::StatusFailsWithReset => match total {
            Some(count) => if count >= 0 {
                Scripted::Fixed(status_fails_with_reset_script(info.caps, count))
            } else {
                Scripted::Nothing
            },
            None => Scripted::Nothing,
        },
    }
}

impl Images {
    /// The script of `scenario` for these images. The scenarios that sweep
    /// over the flash operations of an upgrade need their number to be
    /// known, and the sweep of status failures needs it not to be negative:
    /// without it they have no script. The scenario of random interruptions
    /// has a script for each draw of budgets, and one is owed where there is
    /// room for every draw.
    pub fn script(&self, scenario: Scenario, info: &BootInfo) -> (ops: Result<Vec<Op>, Abort>)
        ensures
            ops matches Ok(script) ==> script_wf(script@),
            ops matches Err(e) ==> e == Abort::NoRoom,
            scenario_script(scenario, self.total_count, *info).gives(ops, info.swaps()),
    {
        match scenario {
            Scenario::BasicUpgrade { permanent } => Ok(self.run_basic_upgrade(permanent)),
            Scenario::Bootstrap => Ok(self.run_bootstrap(info)),
            Scenario::BasicRevert => Ok(self.run_basic_revert(info)),
            Scenario::NoRevert => Ok(self.run_norevert(info)),
            Scenario::NoDowngrade => Ok(self.run_nodowngrade(info)),
            Scenario::NoRevertNewImage => Ok(self.run_norevert_newimage()),
            Scenario::SignfailUpgrade => Ok(self.run_signfail_upgrade()),
            Scenario::SecondaryLeftoverTrailer => Ok(self.run_secondary_leftover_trailer()),
            Scenario::StatusFailsComplete => Ok(self.run_with_status_fails_complete(info)),
            Scenario::PermWithFails => match self.total_count {
                Some(_) => Ok(self.run_perm_with_fails(info)),
                None => Err(Abort::NoRoom),
            },
            Scenario::PermWithRandomFails(fails) => match self.total_count {
                Some(total) => {
                    let drawn = self.run_perm_with_random_fails(fails, info);
                    assert(room_for(total as int, fails as nat) ==> drawn is Ok);
                    assert(drawn matches Ok(script) ==> exists|resets: Seq<i32>|
                        #![trigger resets_fit(resets, total as int)]
                        resets.len() == fails && resets_fit(resets, total as int) && script@
                            == random_fails_script(resets, info.swaps()));
                    drawn
                },
                None => Err(Abort::NoRoom),
            },
            Scenario::RevertWithFails => match self.total_count {
                Some(_) => Ok(self.run_revert_with_fails(info)),
                None => Err(Abort::NoRoom),
            },
            Scenario::StatusFailsWithReset => match self.total_count {
                Some(total) => if total >= 0 {
                    Ok(self.run_with_status_fails_with_reset(info))
                } else {
                    Err(Abort::NoRoom)
                },
                None => Err(Abort::NoRoom),
            },
        }
    }
}

} // verus!
