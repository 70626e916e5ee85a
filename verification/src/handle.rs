//! The apply service: its store, its enumeration cache and its lock.

use vstd::prelude::*;

use crate::apply;
use crate::apply::{enumeration_error, ApplyError};
use crate::assignments::{Assignment, AssignmentStore};
use crate::identity;
use crate::names::NameMap;
use crate::probe;
use crate::probe::{
    assemble_outputs, OutputCache, OutputInfo, ProbeError, ProbeReply, SystemOutput,
};
use crate::script;
use crate::script::probe_script;
use crate::text;

verus! {

/// How the service is set up.
#[derive(Debug, PartialEq, Eq)]
pub struct ApplyConfig {
    pub state_dir: String,
    /// The shell's service name on the session bus.
    pub shell_service: String,
    pub qdbus_binary: Option<String>,
    /// A command that stands in for the whole shell.
    pub switch_command: Option<String>,
    pub kscreen_binary: String,
    pub systemctl_binary: Option<String>,
    pub probe_timeout_ms: u64,
    pub promotion_timeout_ms: u64,
    /// Where scenes find shared assets.
    pub scene_assets_dir: Option<String>,
}

/// The state of the apply service.
pub struct ApplyHandle {
    pub store: AssignmentStore,
    pub outputs_cache: OutputCache,
    /// A transaction is in flight.
    pub applying: bool,
    pub promotion_timeout_ms: u64,
    pub scene_assets_dir: Option<String>,
}

/// The apply service.
pub struct ApplyService {
    pub handle: ApplyHandle,
}

impl ApplyService {
    /// Starts the service over an opened store.
    pub fn new(config: ApplyConfig, opened: Result<AssignmentStore, String>) -> (service: Result<
        Self,
        String,
    >)
        requires
            opened matches Ok(store) ==> store.wf(),
        ensures
            match service {
                Ok(started) => opened matches Ok(store) && started.handle.store == store
                    && started.handle.wf() && started.handle.outputs_cache.cached_at is None
                    && !started.handle.applying && started.handle.promotion_timeout_ms
                    == config.promotion_timeout_ms && started.handle.scene_assets_dir
                    == config.scene_assets_dir,
                Err(error) => opened == Err::<AssignmentStore, String>(error),
            },
    {
        match opened {
            Ok(store) => Ok(
                ApplyService {
                    handle: ApplyHandle {
                        store,
                        outputs_cache: OutputCache::stale(),
                        applying: false,
                        promotion_timeout_ms: config.promotion_timeout_ms,
                        scene_assets_dir: config.scene_assets_dir,
                    },
                },
            ),
            Err(error) => Err(error),
        }
    }

    /// The service's state.
    pub fn handle(&self) -> (handle: &ApplyHandle)
        ensures
            *handle == self.handle,
    {
        &self.handle
    }
}

/// Reads the reply to the enumeration script, which `decode` turns into
/// desktops and connectors. A shell that printed nothing gave no reply.
pub fn parse_probe_reply<D: FnOnce(&str) -> Result<ProbeReply, String>>(
    text: &str,
    decode: D,
) -> (reply: Result<ProbeReply, ProbeError>)
    requires
        text@.len() > 0 ==> call_requires(decode, (text,)),
    ensures
        match reply {
            Ok(value) => text@.len() > 0 && call_ensures(decode, (text,), Ok(value)),
            Err(error) => error is Parse && if text@.len() == 0 {
                error.text() == "empty probe reply (the shell returned no print() output)"@
            } else {
                exists|failure: String|
                    #[trigger] call_ensures(decode, (text,), Err(failure)) && error.text()
                        == "probe reply is not the expected JSON: "@ + failure@
            },
        },
{
    if text.is_empty() {
        return Err(
            ProbeError::Parse(
                "empty probe reply (the shell returned no print() output)".to_owned(),
            ),
        );
    }
    match decode(text) {
        Ok(reply) => Ok(reply),
        Err(failure) => {
            let detail = "probe reply is not the expected JSON: ".to_owned().concat(
                failure.as_str(),
            );
            Err(ProbeError::Parse(detail))
        },
    }
}

/// The names of the outputs.
pub open spec fn output_names(system: Seq<SystemOutput>) -> Seq<Seq<char>> {
    Seq::new(system.len(), |i: int| system[i].name@)
}

/// The enumeration script over these outputs, or why it cannot be built: every
/// output name must be an identity part.
pub fn enumeration_script(system: &Vec<SystemOutput>) -> (built: Result<String, ApplyError>)
    ensures
        match built {
            Ok(text) => exists|names: Seq<String>|
                text::views(names) == output_names(system@) && script::valid_names(names) && text@
                    == #[trigger] script::probe_text(names),
            Err(error) => {
                &&& exists|i: int|
                    0 <= i < system@.len() && !identity::valid_identity(
                        #[trigger] system@[i].name@,
                    )
                &&& error is ShellUnreachable
                &&& error.text() == Some(
                    "cannot build the enumeration script: "@ + identity::identity_error(
                        "connector"@,
                    ),
                )
            },
        },
{
    let mut names: Vec<String> = Vec::new();
    let mut i: usize = 0;
    while i < system.len()
        invariant
            i <= system@.len(),
            names@.len() == i,
            forall|j: int| 0 <= j < i ==> #[trigger] names@[j]@ == system@[j].name@,
        decreases system.len() - i,
    {
        names.push(system[i].name.clone());
        i = i + 1;
    }
    assert(text::views(names@) =~= output_names(system@));
    match probe_script(names.as_slice()) {
        Ok(text) => Ok(text),
        Err(failure) => {
            proof {
                let k = choose|k: int|
                    0 <= k < names@.len() && !identity::valid_identity(#[trigger] names@[k]@);
                assert(!identity::valid_identity(system@[k].name@));
            }
            let detail = "cannot build the enumeration script: ".to_owned().concat(
                failure.as_str(),
            );
            Err(ApplyError::ShellUnreachable(detail))
        },
    }
}

/// The script is the enumeration over these outputs.
pub open spec fn asks_for(script: Seq<char>, system: Seq<SystemOutput>) -> bool {
    exists|names: Seq<String>|
        text::views(names) == output_names(system) && script::valid_names(names) && script
            == #[trigger] script::probe_text(names)
}

/// The system can have listed these outputs, over which the script is the
/// enumeration.
pub open spec fn enumerates<S: FnOnce() -> Result<Vec<SystemOutput>, ProbeError>>(
    system_outputs: S,
    system: Vec<SystemOutput>,
    script: &str,
) -> bool {
    call_ensures(system_outputs, (), Ok(system)) && asks_for(script@, system@)
}

/// The script is the enumeration over outputs that the system can have listed.
pub open spec fn asks<S: FnOnce() -> Result<Vec<SystemOutput>, ProbeError>>(
    system_outputs: S,
    script: &str,
) -> bool {
    exists|system: Vec<SystemOutput>| #[trigger] enumerates(system_outputs, system, script)
}

/// The text is what the shell can have answered to the enumeration.
pub open spec fn answers<
    S: FnOnce() -> Result<Vec<SystemOutput>, ProbeError>,
    E: FnOnce(&str) -> Result<String, ProbeError>,
>(system_outputs: S, evaluate_script: E, text: &str) -> bool {
    exists|script: &str, answer: String|
        {
            &&& asks(system_outputs, script)
            &&& #[trigger] call_ensures(evaluate_script, (script,), Ok(answer))
            &&& text@ == answer@
        }
}

/// The shell can have replied so to the enumeration over these outputs.
pub open spec fn can_reply<
    E: FnOnce(&str) -> Result<String, ProbeError>,
    D: FnOnce(&str) -> Result<ProbeReply, String>,
>(evaluate_script: E, decode: D, system: Seq<SystemOutput>, reply: ProbeReply) -> bool {
    exists|script: &str, answer: String, text: &str|
        {
            &&& asks_for(script@, system)
            &&& #[trigger] call_ensures(evaluate_script, (script,), Ok(answer))
            &&& text@ == answer@
            &&& #[trigger] call_ensures(decode, (text,), Ok(reply))
        }
}

/// The merged outputs over a system and a reply.
pub open spec fn all_merged(
    merged: Seq<OutputInfo>,
    system: Seq<SystemOutput>,
    reply: ProbeReply,
) -> bool {
    merged.len() == system.len() && forall|i: int|
        0 <= i < system.len() ==> probe::merged(
            system[i]@,
            reply.desktops@,
            reply.connectors@,
            #[trigger] merged[i],
        )
}

/// These merged outputs are what the enumeration can give.
pub open spec fn enumeration_can_give<
    S: FnOnce() -> Result<Vec<SystemOutput>, ProbeError>,
    E: FnOnce(&str) -> Result<String, ProbeError>,
    D: FnOnce(&str) -> Result<ProbeReply, String>,
>(system_outputs: S, evaluate_script: E, decode: D, merged: Seq<OutputInfo>) -> bool {
    exists|system: Vec<SystemOutput>, reply: ProbeReply|
        #![trigger all_merged(merged, system@, reply)]
        call_ensures(system_outputs, (), Ok(system)) && can_reply(
            evaluate_script,
            decode,
            system@,
            reply,
        ) && all_merged(merged, system@, reply)
}

/// `error` is what an enumeration that failed so is answered.
pub open spec fn reports(error: ApplyError, failure: ProbeError) -> bool {
    error.text() == Some(failure.text()) && if failure is DisplayUnavailable {
        error is DisplayUnavailable
    } else {
        error is ShellUnreachable
    }
}

/// `error` is what some step of the enumeration can have failed with.
pub open spec fn enumeration_can_fail<
    S: FnOnce() -> Result<Vec<SystemOutput>, ProbeError>,
    E: FnOnce(&str) -> Result<String, ProbeError>,
    D: FnOnce(&str) -> Result<ProbeReply, String>,
>(system_outputs: S, evaluate_script: E, decode: D, error: ApplyError) -> bool {
    // The outputs could not be listed.
    ||| exists|failure: ProbeError|
        #[trigger] call_ensures(system_outputs, (), Err(failure)) && reports(error, failure)
    // A name among them is no identity part.
    ||| exists|system: Vec<SystemOutput>|
        #[trigger] call_ensures(system_outputs, (), Ok(system)) && !(forall|i: int|
            0 <= i < system@.len() ==> identity::valid_identity(#[trigger] system@[i].name@))
            && error is ShellUnreachable && error.text() == Some(
            "cannot build the enumeration script: "@ + identity::identity_error("connector"@),
        )
    // The shell did not evaluate the enumeration over them.
    ||| exists|script: &str, failure: ProbeError|
        asks(system_outputs, script) && #[trigger] call_ensures(
            evaluate_script,
            (script,),
            Err(failure),
        ) && reports(error, failure)
    // Its reply was empty, or not understood.
    ||| exists|text: &str|
        #[trigger] answers(system_outputs, evaluate_script, text) && text@.len() == 0
            && error is ShellUnreachable && error.text() == Some(
            "empty probe reply (the shell returned no print() output)"@,
        )
    ||| exists|text: &str, failure: String|
        answers(system_outputs, evaluate_script, text) && text@.len() > 0
            && #[trigger] call_ensures(decode, (text,), Err(failure))
            && error is ShellUnreachable && error.text() == Some(
            "probe reply is not the expected JSON: "@ + failure@,
        )
}

/// An enumeration of the outputs: what the system reports, merged with what the
/// shell replies to the enumeration script.
pub fn enumerate_fresh<
    S: FnOnce() -> Result<Vec<SystemOutput>, ProbeError>,
    E: FnOnce(&str) -> Result<String, ProbeError>,
    D: FnOnce(&str) -> Result<ProbeReply, String>,
>(system_outputs: S, evaluate_script: E, decode: D) -> (outputs: Result<
    Vec<OutputInfo>,
    ApplyError,
>)
    requires
        call_requires(system_outputs, ()),
        // The shell is asked for nothing but the enumeration, and nothing but
        // its reply is decoded.
        forall|script: &str|
            asks(system_outputs, script) ==> #[trigger] call_requires(evaluate_script, (script,)),
        forall|reply: &str|
            answers(system_outputs, evaluate_script, reply) && reply@.len() > 0
                ==> #[trigger] call_requires(decode, (reply,)),
        forall|reply: &str, value: ProbeReply|
            call_ensures(decode, (reply,), Ok(value)) ==> value.connectors.wf(),
    ensures
        match outputs {
            Ok(merged) => enumeration_can_give(system_outputs, evaluate_script, decode, merged@),
            Err(error) => enumeration_can_fail(system_outputs, evaluate_script, decode, error),
        },
{
    let system = match system_outputs() {
        Ok(system) => system,
        Err(error) => { return Err(enumeration_error(error)) },
    };
    let ghost listed = system;
    assert(call_ensures(system_outputs, (), Ok(listed)));
    let script = match enumeration_script(&system) {
        Ok(script) => script,
        Err(error) => { return Err(error) },
    };
    let asked: &str = script.as_str();
    assert(asks_for(asked@, listed@));
    assert(enumerates(system_outputs, listed, asked));
    let answer = match evaluate_script(asked) {
        Ok(answer) => answer,
        Err(error) => { return Err(enumeration_error(error)) },
    };
    let text: &str = answer.as_str();
    assert(call_ensures(evaluate_script, (asked,), Ok(answer)));
    assert(answers(system_outputs, evaluate_script, text));
    let reply = match parse_probe_reply(text, decode) {
        Ok(reply) => reply,
        Err(error) => {
            proof {
                if text@.len() > 0 {
                    let failure = choose|failure: String|
                        #[trigger] call_ensures(decode, (text,), Err(failure)) && error.text()
                            == "probe reply is not the expected JSON: "@ + failure@;
                    assert(call_ensures(decode, (text,), Err(failure)));
                }
            }
            return Err(enumeration_error(error))
        },
    };
    let ghost shown = reply;
    assert(can_reply(evaluate_script, decode, listed@, shown)) by {
        assert(asks_for(asked@, listed@));
        assert(call_ensures(evaluate_script, (asked,), Ok(answer)));
        assert(call_ensures(decode, (text,), Ok(shown)));
    }
    let merged = assemble_outputs(system, reply.desktops, reply.connectors);
    proof {
        assert(all_merged(merged@, listed@, shown));
        assert(call_ensures(system_outputs, (), Ok(listed)));
        assert(enumeration_can_give(system_outputs, evaluate_script, decode, merged@));
    }
    Ok(merged)
}

impl ApplyHandle {
    pub open spec fn wf(&self) -> bool {
        self.store.wf()
    }

    /// Everything but the cache and the lock.
    pub open spec fn same_settings(before: &Self, after: &Self) -> bool {
        &&& after.store == before.store
        &&& after.promotion_timeout_ms == before.promotion_timeout_ms
        &&& after.scene_assets_dir == before.scene_assets_dir
    }

    /// Where scenes find shared assets.
    pub fn scene_assets_dir(&self) -> (directory: Option<&str>)
        ensures
            apply::borrowed_view(directory) == probe::option_view(self.scene_assets_dir),
    {
        match &self.scene_assets_dir {
            Some(directory) => Some(directory.as_str()),
            None => None,
        }
    }

    /// Takes the lock: one transaction at a time.
    pub fn acquire_apply_lock(&mut self) -> (taken: Result<(), ApplyError>)
        ensures
            Self::same_settings(old(self), final(self)),
            final(self).outputs_cache == old(self).outputs_cache,
            final(self).applying,
            match taken {
                Ok(()) => !old(self).applying,
                Err(error) => old(self).applying && error is Busy,
            },
    {
        if self.applying {
            Err(ApplyError::Busy)
        } else {
            self.applying = true;
            Ok(())
        }
    }

    /// Gives the lock back.
    pub fn release_apply_lock(&mut self)
        ensures
            Self::same_settings(old(self), final(self)),
            final(self).outputs_cache == old(self).outputs_cache,
            !final(self).applying,
    {
        self.applying = false;
    }

    /// The outputs, enumerated at most once per freshness window. A failed
    /// enumeration is not remembered.
    pub fn outputs<F: FnOnce() -> Result<Vec<OutputInfo>, ApplyError>>(
        &mut self,
        now_ms: u64,
        enumerate: F,
    ) -> (result: Result<(), ApplyError>)
        requires
            !old(self).outputs_cache.serves(now_ms) ==> call_requires(enumerate, ()),
        ensures
            Self::same_settings(old(self), final(self)),
            final(self).applying == old(self).applying,
            if old(self).outputs_cache.serves(now_ms) {
                result is Ok && final(self).outputs_cache == old(self).outputs_cache
            } else {
                match result {
                    Ok(()) => call_ensures(enumerate, (), Ok(final(self).outputs_cache.entries))
                        && final(self).outputs_cache.cached_at == Some(now_ms),
                    Err(error) => call_ensures(enumerate, (), Err(error))
                        && final(self).outputs_cache == old(self).outputs_cache,
                }
            },
    {
        if self.outputs_cache.fresh(now_ms) {
            return Ok(());
        }
        match enumerate() {
            Ok(entries) => {
                self.outputs_cache.store(entries, now_ms);
                Ok(())
            },
            Err(error) => Err(error),
        }
    }

    /// The record of one output.
    pub fn stored_assignment(&self, output_name: &str) -> (record: Option<Assignment>)
        requires
            self.wf(),
        ensures
            match record {
                Some(copy) => self.store@.contains_key(output_name@) && copy@
                    == self.store@[output_name@]@,
                None => !self.store@.contains_key(output_name@),
            },
    {
        match self.store.get(output_name) {
            Some(record) => Some(record.clone()),
            None => None,
        }
    }

    /// Every record.
    pub fn assignments(&self) -> (records: &NameMap<Assignment>)
        requires
            self.wf(),
        ensures
            records.wf(),
            records@ == self.store@,
    {
        self.store.all()
    }
}

} // verus!
