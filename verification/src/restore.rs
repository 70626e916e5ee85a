//! Taking a wallpaper off an output again.
//!
//! The record of the output goes only once the desktop is seen to show what it
//! was given back.

use vstd::prelude::*;

use crate::apply;
use crate::apply::{
    restore_error, restore_target, target_output, verify_restore, ApplyError, RestoreTarget,
};
use crate::assignments;
use crate::assignments::Assignment;
use crate::identity;
use crate::probe;
use crate::probe::{OutputInfo, ProbeError};
use crate::script;
use crate::script::restore_script;
use crate::text;

verus! {

/// What a restore waits for.
#[derive(Debug, Clone, Copy, PartialEq, Eq, Structural)]
pub enum RestoreStage {
    /// The restore script.
    Switching,
    /// The enumeration that confirms it.
    Verifying,
    /// The removal of the output's record.
    Clearing,
    Done,
}

/// The stages that may follow a stage.
pub open spec fn may_follow(from: RestoreStage, to: RestoreStage) -> bool {
    match from {
        RestoreStage::Switching => to == RestoreStage::Verifying,
        RestoreStage::Verifying => to == RestoreStage::Clearing || to == RestoreStage::Done,
        RestoreStage::Clearing => to == RestoreStage::Done,
        RestoreStage::Done => false,
    }
}

/// A restore under way.
pub struct Restore {
    pub output_name: String,
    pub target: RestoreTarget,
    /// The script that puts the target on the desktop.
    pub script: String,
    /// The output has a record to clear.
    pub had_record: bool,
    pub stage: RestoreStage,
}

pub open spec fn record_view(stored: Option<Assignment>) -> Option<
    crate::assignments::AssignmentView,
> {
    match stored {
        Some(record) => Some(record@),
        None => None,
    }
}

impl Restore {
    /// The script is the one for the target on this desktop.
    pub open spec fn carries_target(&self, desktop_index: usize) -> bool {
        match self.target.image {
            Some(image) => exists|value: &str|
                value@ == image@ && self.script@ == #[trigger] script::restore_text(
                    desktop_index as nat,
                    self.target.wallpaper_plugin@,
                    self.target.config_group@,
                    Some(value),
                ),
            None => self.script@ == script::restore_text(
                desktop_index as nat,
                self.target.wallpaper_plugin@,
                self.target.config_group@,
                None,
            ),
        }
    }

    /// The target is the choice between the record and the stock image.
    pub open spec fn chose(
        &self,
        stored: Option<Assignment>,
        stock_image: Option<String>,
    ) -> bool {
        let (choice, mode) = apply::restore_choice(
            record_view(stored),
            probe::option_view(stock_image),
        );
        &&& self.target.wallpaper_plugin@ == choice.wallpaper_plugin
        &&& text::views(self.target.config_group@) == choice.config_group
        &&& probe::option_view(self.target.image) == choice.image
        &&& self.target.mode@ == mode
    }

    /// Begins a restore over a fresh enumeration, the output's record and the
    /// stock image of this system.
    pub fn begin(
        output_name: String,
        enumerated: Result<Vec<OutputInfo>, ApplyError>,
        stored: Option<Assignment>,
        stock_image: Option<String>,
    ) -> (begun: Result<Restore, ApplyError>)
        ensures
            match begun {
                Ok(restore) => {
                    &&& enumerated matches Ok(outputs) && apply::target_refusal(
                        outputs@,
                        output_name@,
                    ) is None && (apply::output_named(outputs@, output_name@)->0.desktop_index matches Some(
                        index,
                    ) && restore.carries_target(index))
                    &&& restore.output_name == output_name
                    &&& restore.chose(stored, stock_image)
                    &&& restore.had_record == (stored is Some)
                    &&& restore.stage == RestoreStage::Switching
                },
                Err(error) => match enumerated {
                    Err(failure) => error == failure,
                    Ok(outputs) => match apply::target_refusal(outputs@, output_name@) {
                        Some((true, detail)) => error is OutputMissing && error.text() == Some(
                            detail,
                        ),
                        Some((false, detail)) => error is Transaction && error.text() == Some(
                            detail,
                        ),
                        None => error is RestoreFailed && script_refused(
                            apply::restore_choice(
                                record_view(stored),
                                probe::option_view(stock_image),
                            ).0,
                            error,
                        ),
                    },
                },
            },
    {
        let outputs: Vec<OutputInfo> = match enumerated {
            Ok(outputs) => outputs,
            Err(error) => { return Err(error) },
        };
        let desktop_index: usize = match target_output(&outputs, output_name.as_str()) {
            Ok((_, index)) => index,
            Err(error) => { return Err(error) },
        };
        let had_record: bool = stored.is_some();
        let target = restore_target(stored, stock_image);
        let image: Option<&str> = match &target.image {
            Some(value) => Some(value.as_str()),
            None => None,
        };
        match restore_script(
            desktop_index,
            target.wallpaper_plugin.as_str(),
            target.config_group.as_slice(),
            image,
        ) {
            Ok(script) => Ok(
                Restore {
                    output_name,
                    target,
                    script,
                    had_record,
                    stage: RestoreStage::Switching,
                },
            ),
            Err(refusal) => {
                let detail = "script error: ".to_owned().concat(refusal.as_str());
                proof {
                    lemma_script_refused(&target, image, refusal@);
                }
                Err(ApplyError::RestoreFailed(detail))
            },
        }
    }

    /// Takes what the restore script came to.
    pub fn switched(&mut self, result: Result<(), ProbeError>) -> (next: Result<(), ApplyError>)
        requires
            old(self).stage == RestoreStage::Switching,
        ensures
            final(self).output_name == old(self).output_name,
            final(self).target == old(self).target,
            final(self).script == old(self).script,
            final(self).had_record == old(self).had_record,
            match result {
                Ok(()) => next is Ok && final(self).stage == RestoreStage::Verifying && may_follow(
                    old(self).stage,
                    final(self).stage,
                ),
                Err(failure) => final(self).stage == old(self).stage && (next matches Err(error)
                    && error.text() == Some(failure.text()) && (if failure is Unreachable {
                    error is ShellUnreachable
                } else {
                    error is RestoreFailed
                })),
            },
    {
        match result {
            Ok(()) => {
                self.stage = RestoreStage::Verifying;
                Ok(())
            },
            Err(failure) => Err(restore_error(failure)),
        }
    }

    /// Takes the enumeration made after the script: the record is cleared only
    /// when the desktop shows the target's plugin.
    pub fn verified(&mut self, enumerated: Result<Vec<OutputInfo>, ApplyError>) -> (next: Result<
        (),
        ApplyError,
    >)
        requires
            old(self).stage == RestoreStage::Verifying,
        ensures
            final(self).output_name == old(self).output_name,
            final(self).target == old(self).target,
            final(self).script == old(self).script,
            final(self).had_record == old(self).had_record,
            match enumerated {
                Err(failure) => next == Err::<(), ApplyError>(failure) && final(self).stage == old(self).stage,
                Ok(outputs) => match apply::restored_refusal(
                    outputs@,
                    old(self).output_name@,
                    old(self).target.wallpaper_plugin@,
                ) {
                    None => next is Ok && final(self).stage == (if old(self).had_record {
                        RestoreStage::Clearing
                    } else {
                        RestoreStage::Done
                    }) && may_follow(old(self).stage, final(self).stage),
                    Some(detail) => final(self).stage == old(self).stage && (next matches Err(error)
                        && error is RestoreFailed && error.text() == Some(detail)),
                },
            },
    {
        let outputs: Vec<OutputInfo> = match enumerated {
            Ok(outputs) => outputs,
            Err(error) => { return Err(error) },
        };
        match verify_restore(
            &outputs,
            self.output_name.as_str(),
            self.target.wallpaper_plugin.as_str(),
        ) {
            Ok(()) => {
                if self.had_record {
                    self.stage = RestoreStage::Clearing;
                } else {
                    self.stage = RestoreStage::Done;
                }
                Ok(())
            },
            Err(error) => Err(error),
        }
    }

    /// The record was told to go, whatever came of it.
    pub fn cleared(&mut self)
        requires
            old(self).stage == RestoreStage::Clearing,
        ensures
            final(self).output_name == old(self).output_name,
            final(self).target == old(self).target,
            final(self).script == old(self).script,
            final(self).had_record == old(self).had_record,
            final(self).stage == RestoreStage::Done,
            may_follow(old(self).stage, final(self).stage),
    {
        self.stage = RestoreStage::Done;
    }
}

/// The script over this wallpaper is refused, and the error says why.
pub open spec fn script_refused(
    choice: crate::assignments::PreviousView,
    error: ApplyError,
) -> bool {
    exists|group: Seq<String>, image: Option<&str>, reason: Seq<char>|
        {
            &&& text::views(group) == choice.config_group
            &&& apply::borrowed_view(image) == choice.image
            &&& #[trigger] script::restore_refusal(choice.wallpaper_plugin, group, image) == Some(
                reason,
            )
            &&& error.text() == Some(#[trigger] ("script error: "@ + reason))
        }
}

proof fn lemma_script_refused(target: &RestoreTarget, image: Option<&str>, reason: Seq<char>)
    requires
        apply::borrowed_view(image) == probe::option_view(target.image),
        script::restore_refusal(target.wallpaper_plugin@, target.config_group@, image) == Some(
            reason,
        ),
    ensures
        forall|error: ApplyError|
            error.text() == Some("script error: "@ + reason) ==> #[trigger] script_refused(
                crate::assignments::PreviousView {
                    wallpaper_plugin: target.wallpaper_plugin@,
                    config_group: text::views(target.config_group@),
                    image: probe::option_view(target.image),
                },
                error,
            ),
{
}

/// The record of an output is cleared only right after the desktop was seen to
/// show what it was given back.
pub proof fn law_record_outlives_an_unverified_restore(from: RestoreStage)
    ensures
        may_follow(from, RestoreStage::Clearing) ==> from == RestoreStage::Verifying,
        may_follow(from, RestoreStage::Verifying) ==> from == RestoreStage::Switching,
{
}

/// A restore is never refused for its script: whatever the store may hold can
/// be written into one, and so can a stock image of this system. What is left
/// to fail is the shell.
pub proof fn law_what_is_stored_can_be_restored(
    output: Seq<char>,
    stored: Option<Assignment>,
    stock_image: Option<Seq<char>>,
    group: Seq<String>,
    image: Option<&str>,
)
    requires
        stored matches Some(record) ==> assignments::assignment_refusal(output, record@) is None,
        stock_image matches Some(path) ==> script::valid_image(path),
        text::views(group) == apply::restore_choice(
            record_view(stored),
            stock_image,
        ).0.config_group,
        apply::borrowed_view(image) == apply::restore_choice(record_view(stored), stock_image).0.image,
    ensures
        script::restore_refusal(
            apply::restore_choice(record_view(stored), stock_image).0.wallpaper_plugin,
            group,
            image,
        ) is None,
{
    let choice = apply::restore_choice(record_view(stored), stock_image).0;
    reveal_strlit("org.kde.image");
    reveal_strlit("Wallpaper");
    reveal_strlit("General");
    assert(group.len() == text::views(group).len());
    assert forall|i: int| 0 <= i < group.len() implies identity::valid_identity(
        #[trigger] group[i]@,
    ) by {
        assert(text::views(group)[i] == group[i]@);
        assert(identity::valid_identity(choice.config_group[i]));
    }
}

} // verus!
