//! The demonstration applications' policy: a mode handler that accepts
//! every transition unless told to refuse `Working`, and the command-line
//! flags that configure it.

use vstd::prelude::*;
use vstd::string::StringExecFns;

use crate::text::{decimal_u64, parse_u64, text_eq};
use crate::types::{HealthState, SystemMode};

verus! {

/// A mode handler that agrees to prepare and commit every mode change,
/// unless it is set to reject transitions into `Working` (always, or just
/// once) to exercise SAM's rejection path.
pub struct DemoHandler {
    name: &'static str,
    current_mode: SystemMode,
    health: HealthState,
    reject_working: bool,
    reject_working_once: bool,
}

impl DemoHandler {
    pub closed spec fn spec_name(&self) -> Seq<char> {
        self.name@
    }

    pub closed spec fn spec_mode(&self) -> SystemMode {
        self.current_mode
    }

    pub closed spec fn spec_health(&self) -> HealthState {
        self.health
    }

    pub closed spec fn rejects_always(&self) -> bool {
        self.reject_working
    }

    pub closed spec fn rejects_once(&self) -> bool {
        self.reject_working_once
    }

    /// A handler in `Startup` mode that reports `health`.
    pub fn new(name: &'static str, reject_working: bool, health: HealthState) -> (handler: Self)
        ensures
            handler.spec_name() == name@,
            handler.spec_mode() == SystemMode::Startup,
            handler.spec_health() == health,
            handler.rejects_always() == reject_working,
            !handler.rejects_once(),
    {
        DemoHandler { name, current_mode: SystemMode::Startup, health, reject_working, reject_working_once: false }
    }

    /// Sets up one intentional rejection, after which later `Working`
    /// requests are accepted.
    pub fn reject_working_once(self, enabled: bool) -> (handler: Self)
        ensures
            handler.spec_name() == self.spec_name(),
            handler.spec_mode() == self.spec_mode(),
            handler.spec_health() == self.spec_health(),
            handler.rejects_always() == self.rejects_always(),
            handler.rejects_once() == enabled,
    {
        DemoHandler { reject_working_once: enabled, ..self }
    }

    /// The health to report in heartbeats.
    pub fn health(&self) -> (health: HealthState)
        ensures
            health == self.spec_health(),
    {
        self.health
    }

    /// The mode to report in heartbeats.
    pub fn current_mode(&self) -> (mode: SystemMode)
        ensures
            mode == self.spec_mode(),
    {
        self.current_mode
    }

    /// Whether the handler can prepare for `requested`. A `Working`
    /// request is refused while a rejection is configured; a one-time
    /// rejection is used up by it.
    pub fn prepare_mode(&mut self, requested: SystemMode) -> (decision: Result<(), String>)
        ensures
            final(self).spec_name() == old(self).spec_name(),
            final(self).spec_mode() == old(self).spec_mode(),
            final(self).spec_health() == old(self).spec_health(),
            final(self).rejects_always() == old(self).rejects_always(),
            if requested == SystemMode::Working && (old(self).rejects_always() || old(self).rejects_once()) {
                &&& !final(self).rejects_once()
                &&& decision matches Err(reason) && reason@ == old(self).spec_name() + " configured to reject Working"@
            } else {
                &&& final(self).rejects_once() == old(self).rejects_once()
                &&& decision is Ok
            },
    {
        if requested == SystemMode::Working && (self.reject_working || self.reject_working_once) {
            self.reject_working_once = false;
            proof {
                reveal_strlit(" configured to reject Working");
            }
            Err(String::from_str(self.name).concat(" configured to reject Working"))
        } else {
            Ok(())
        }
    }

    /// Applies a committed mode.
    pub fn commit_mode(&mut self, mode: SystemMode) -> (outcome: Result<(), String>)
        ensures
            outcome is Ok,
            final(self).spec_mode() == mode,
            final(self).spec_name() == old(self).spec_name(),
            final(self).spec_health() == old(self).spec_health(),
            final(self).rejects_always() == old(self).rejects_always(),
            final(self).rejects_once() == old(self).rejects_once(),
    {
        self.current_mode = mode;
        Ok(())
    }

    /// The name the handler logs under.
    pub fn name(&self) -> (name: &'static str)
        ensures
            name@ == self.spec_name(),
    {
        self.name
    }
}

/// The texts of a list of arguments.
pub open spec fn texts(args: Seq<String>) -> Seq<Seq<char>> {
    args.map_values(|a: String| a@)
}

/// The health that the arguments ask for: `--failed` wins outright,
/// `--degraded` applies otherwise, and no flag means healthy.
pub open spec fn flagged_health(args: Seq<Seq<char>>) -> HealthState {
    if args.contains("--failed"@) {
        HealthState::Failed
    } else if args.contains("--degraded"@) {
        HealthState::Degraded
    } else {
        HealthState::Healthy
    }
}

/// The health this process should report, from its arguments.
pub fn health_from(args: &Vec<String>) -> (health: HealthState)
    ensures
        health == flagged_health(texts(args@)),
{
    proof {
        reveal_strlit("--failed");
        reveal_strlit("--degraded");
    }
    let mut health = HealthState::Healthy;
    let mut i: usize = 0;
    while i < args.len()
        invariant
            i <= args@.len(),
            forall|j: int| 0 <= j < i ==> args@[j]@ != "--failed"@,
            (health == HealthState::Degraded) == (exists|j: int| 0 <= j < i && (#[trigger] args@[j])@ == "--degraded"@),
            health == HealthState::Healthy || health == HealthState::Degraded,
        decreases args@.len() - i,
    {
        if text_eq(args[i].as_str(), "--failed") {
            proof {
                assert(texts(args@)[i as int] == "--failed"@);
            }
            return HealthState::Failed;
        }
        if text_eq(args[i].as_str(), "--degraded") {
            health = HealthState::Degraded;
        }
        i = i + 1;
    }
    proof {
        let t = texts(args@);
        if t.contains("--failed"@) {
            let j = choose|j: int| 0 <= j < t.len() && t[j] == "--failed"@;
            assert(args@[j]@ == "--failed"@);
        }
        if health == HealthState::Degraded {
            let j = choose|j: int| 0 <= j < i && (#[trigger] args@[j])@ == "--degraded"@;
            assert(t[j] == "--degraded"@);
        } else if t.contains("--degraded"@) {
            let j = choose|j: int| 0 <= j < t.len() && t[j] == "--degraded"@;
            assert(args@[j]@ == "--degraded"@);
        }
    }
    health
}

/// Whether `flag` is among the arguments.
pub fn has_flag(args: &Vec<String>, flag: &str) -> (present: bool)
    ensures
        present == texts(args@).contains(flag@),
{
    let mut i: usize = 0;
    while i < args.len()
        invariant
            i <= args@.len(),
            forall|j: int| 0 <= j < i ==> args@[j]@ != flag@,
        decreases args@.len() - i,
    {
        if text_eq(args[i].as_str(), flag) {
            proof {
                assert(texts(args@)[i as int] == flag@);
            }
            return true;
        }
        i = i + 1;
    }
    proof {
        let t = texts(args@);
        if t.contains(flag@) {
            let j = choose|j: int| 0 <= j < t.len() && t[j] == flag@;
            assert(args@[j]@ == flag@);
        }
    }
    false
}

/// Whether the arguments ask to reject transitions to `Working`
/// (`--reject-working`).
pub fn reject_working_from(args: &Vec<String>) -> (reject: bool)
    ensures
        reject == texts(args@).contains("--reject-working"@),
{
    has_flag(args, "--reject-working")
}

/// What `--exit-after-ms` asks for, looking at its first occurrence: no
/// delay if it is absent, an error if its value is missing or not a
/// number of milliseconds.
pub open spec fn exit_after_spec(args: Seq<Seq<char>>) -> Result<Option<u64>, Seq<char>>
    decreases args.len(),
{
    if args.len() == 0 {
        Ok(None)
    } else if args[0] == "--exit-after-ms"@ {
        if args.len() < 2 {
            Err("--exit-after-ms requires a millisecond value"@)
        } else {
            match decimal_u64(args[1]) {
                Some(ms) => Ok(Some(ms)),
                None => Err("invalid --exit-after-ms value: "@ + args[1]),
            }
        }
    } else {
        exit_after_spec(args.drop_first())
    }
}

/// The delay, in milliseconds, after which the process should stop
/// abruptly (`--exit-after-ms <milliseconds>`), if any.
pub fn exit_after(args: &Vec<String>) -> (delay: Result<Option<u64>, String>)
    ensures
        match delay {
            Ok(d) => exit_after_spec(texts(args@)) == Ok::<Option<u64>, Seq<char>>(d),
            Err(message) => exit_after_spec(texts(args@)) == Err::<Option<u64>, Seq<char>>(message@),
        },
{
    proof {
        reveal_strlit("--exit-after-ms");
        reveal_strlit("--exit-after-ms requires a millisecond value");
        reveal_strlit("invalid --exit-after-ms value: ");
    }
    let ghost t = texts(args@);
    let mut i: usize = 0;
    assert(t.skip(0) =~= t);
    while i < args.len()
        invariant
            i <= args@.len(),
            t == texts(args@),
            exit_after_spec(t) == exit_after_spec(t.skip(i as int)),
        decreases args@.len() - i,
    {
        assert(t.skip(i as int)[0] == args@[i as int]@);
        if text_eq(args[i].as_str(), "--exit-after-ms") {
            if i + 1 >= args.len() {
                return Err(String::from_str("--exit-after-ms requires a millisecond value"));
            }
            assert(t.skip(i as int)[1] == args@[i + 1]@);
            let value = args[i + 1].as_str();
            return match parse_u64(value) {
                Some(ms) => Ok(Some(ms)),
                None => Err(String::from_str("invalid --exit-after-ms value: ").concat(value)),
            };
        }
        assert(t.skip(i as int).drop_first() =~= t.skip(i + 1));
        i = i + 1;
    }
    Ok(None)
}

} // verus!
