//! SAM's automatic demonstration mode: its configuration, read from SAM's
//! command-line arguments, and the checks it makes each time it looks at
//! the service while waiting for the system to reach a state.

use vstd::prelude::*;

use crate::messages::{
    debug_transition, health_name, mode_name, push_debug_transition, push_health_name, push_mode_name,
};
use crate::service::{service_error_text, ApplicationSnapshot, ServiceError};
use crate::text::{decimal_text, decimal_u64, parse_u64, push_decimal, text_eq};
use crate::types::{HealthState, SystemMode, TransitionId};

verus! {

/// How the automatic demonstration runs. Durations are whole seconds or
/// milliseconds, as the flags give them.
#[derive(Debug, Clone, PartialEq, Eq, Structural)]
pub struct AutoDemoConfig {
    pub enabled: bool,
    pub showcase: bool,
    pub expected_apps: usize,
    pub timeout_secs: u64,
    pub hold_ms: u64,
}

/// Why the demonstration could not be configured or did not pass.
#[derive(Debug)]
pub enum AutoDemoError {
    UnknownArgument(String),
    MissingValue(String),
    InvalidValue(String),
    Timeout(String),
    UnexpectedState(String),
    Service(ServiceError),
}

/// The description of a demonstration error.
pub open spec fn auto_demo_error_text(error: AutoDemoError) -> Seq<char> {
    match error {
        AutoDemoError::UnknownArgument(a) => "unknown SAM argument: "@ + a@,
        AutoDemoError::MissingValue(flag) => "missing value after "@ + flag@,
        AutoDemoError::InvalidValue(flag) => "invalid numeric value after "@ + flag@,
        AutoDemoError::Timeout(what) => "timed out waiting for "@ + what@,
        AutoDemoError::UnexpectedState(what) => "showcase validation failed: "@ + what@,
        AutoDemoError::Service(e) => service_error_text(e@),
    }
}

impl AutoDemoError {
    /// The human-readable description of the error; a service error is
    /// described as the service describes it.
    pub fn to_string(&self) -> (text: String)
        ensures
            text@ == auto_demo_error_text(*self),
    {
        let (prefix, detail) = match self {
            AutoDemoError::UnknownArgument(a) => ("unknown SAM argument: ", a),
            AutoDemoError::MissingValue(flag) => ("missing value after ", flag),
            AutoDemoError::InvalidValue(flag) => ("invalid numeric value after ", flag),
            AutoDemoError::Timeout(what) => ("timed out waiting for ", what),
            AutoDemoError::UnexpectedState(what) => ("showcase validation failed: ", what),
            AutoDemoError::Service(error) => {
                return error.to_string();
            },
        };
        let mut text = String::from_str(prefix);
        text.append(detail.as_str());
        text
    }
}

/// How parsing the arguments fails, by the flag or argument at fault.
pub enum ArgumentErrorView {
    UnknownArgument(Seq<char>),
    MissingValue(Seq<char>),
    InvalidValue(Seq<char>),
}

/// The configuration before any argument: disabled, expecting three
/// applications, a 15 s timeout and a 1000 ms hold between steps.
pub open spec fn default_config() -> AutoDemoConfig {
    AutoDemoConfig { enabled: false, showcase: false, expected_apps: 3, timeout_secs: 15, hold_ms: 1000 }
}

/// The number a flag's value gives, if it is a valid number no larger than
/// `limit`.
pub open spec fn flag_number(value: Seq<char>, limit: nat) -> Option<u64> {
    match decimal_u64(value) {
        Some(n) => if n <= limit { Some(n) } else { None },
        None => None,
    }
}

/// Reading the remaining arguments `args` into `config`.
pub open spec fn parse_from(args: Seq<Seq<char>>, config: AutoDemoConfig) -> Result<AutoDemoConfig, ArgumentErrorView>
    decreases args.len(),
{
    if args.len() == 0 {
        Ok(config)
    } else {
        let flag = args[0];
        let rest = args.drop_first();
        if flag == "--auto-demo"@ {
            parse_from(rest, AutoDemoConfig { enabled: true, ..config })
        } else if flag == "--auto-showcase"@ {
            parse_from(rest, AutoDemoConfig { enabled: true, showcase: true, ..config })
        } else if flag == "--expected-apps"@ || flag == "--auto-timeout-secs"@ || flag == "--auto-hold-ms"@ {
            if rest.len() == 0 {
                Err(ArgumentErrorView::MissingValue(flag))
            } else {
                let limit: nat = if flag == "--expected-apps"@ { usize::MAX as nat } else { u64::MAX as nat };
                match flag_number(rest[0], limit) {
                    None => Err(ArgumentErrorView::InvalidValue(flag)),
                    Some(n) => {
                        let updated = if flag == "--expected-apps"@ {
                            AutoDemoConfig { expected_apps: n as usize, ..config }
                        } else if flag == "--auto-timeout-secs"@ {
                            AutoDemoConfig { timeout_secs: n, ..config }
                        } else {
                            AutoDemoConfig { hold_ms: n, ..config }
                        };
                        parse_from(rest.drop_first(), updated)
                    },
                }
            }
        } else {
            Err(ArgumentErrorView::UnknownArgument(flag))
        }
    }
}

/// The view of a parsing result.
pub open spec fn parse_view(result: Result<AutoDemoConfig, AutoDemoError>) -> Result<AutoDemoConfig, ArgumentErrorView> {
    match result {
        Ok(config) => Ok(config),
        Err(AutoDemoError::UnknownArgument(a)) => Err(ArgumentErrorView::UnknownArgument(a@)),
        Err(AutoDemoError::MissingValue(a)) => Err(ArgumentErrorView::MissingValue(a@)),
        Err(AutoDemoError::InvalidValue(a)) => Err(ArgumentErrorView::InvalidValue(a@)),
        Err(_) => Err(ArgumentErrorView::UnknownArgument(Seq::empty())),
    }
}

/// The value that follows `flag`, read as a number no larger than `limit`.
fn parse_value(flag: &str, value: Option<&String>, limit: u64) -> (number: Result<u64, AutoDemoError>)
    ensures
        match value {
            None => number matches Err(AutoDemoError::MissingValue(f)) && f@ == flag@,
            Some(v) => match flag_number(v@, limit as nat) {
                Some(n) => number matches Ok(m) && m == n,
                None => number matches Err(AutoDemoError::InvalidValue(f)) && f@ == flag@,
            },
        },
{
    match value {
        None => Err(AutoDemoError::MissingValue(flag.to_owned())),
        Some(v) => match parse_u64(v.as_str()) {
            Some(n) => {
                if n <= limit {
                    Ok(n)
                } else {
                    Err(AutoDemoError::InvalidValue(flag.to_owned()))
                }
            },
            None => Err(AutoDemoError::InvalidValue(flag.to_owned())),
        },
    }
}

impl AutoDemoConfig {
    /// Reads SAM's arguments (without the program name): `--auto-demo`,
    /// `--auto-showcase`, `--expected-apps <n>`, `--auto-timeout-secs <s>`
    /// and `--auto-hold-ms <ms>`. Anything else is refused.
    pub fn parse(args: Vec<String>) -> (config: Result<Self, AutoDemoError>)
        ensures
            parse_view(config) == parse_from(args@.map_values(|a: String| a@), default_config()),
    {
        proof {
            reveal_strlit("--auto-demo");
            reveal_strlit("--auto-showcase");
            reveal_strlit("--expected-apps");
            reveal_strlit("--auto-timeout-secs");
            reveal_strlit("--auto-hold-ms");
        }
        let ghost t = args@.map_values(|a: String| a@);
        let mut config = AutoDemoConfig { enabled: false, showcase: false, expected_apps: 3, timeout_secs: 15, hold_ms: 1000 };
        let mut i: usize = 0;
        assert(t.skip(0) =~= t);
        while i < args.len()
            invariant
                i <= args@.len(),
                t == args@.map_values(|a: String| a@),
                parse_from(t, default_config()) == parse_from(t.skip(i as int), config),
            decreases args@.len() - i,
        {
            let argument = &args[i];
            let ghost rest = t.skip(i as int);
            assert(rest[0] == argument@);
            assert(rest.drop_first() =~= t.skip(i + 1));
            if text_eq(argument.as_str(), "--auto-demo") {
                config.enabled = true;
                i = i + 1;
            } else if text_eq(argument.as_str(), "--auto-showcase") {
                config.enabled = true;
                config.showcase = true;
                i = i + 1;
            } else if text_eq(argument.as_str(), "--expected-apps") || text_eq(argument.as_str(), "--auto-timeout-secs")
                || text_eq(argument.as_str(), "--auto-hold-ms") {
                let value = if i + 1 < args.len() { Some(&args[i + 1]) } else { None };
                proof {
                    if i + 1 < args@.len() {
                        assert(rest.drop_first()[0] == args@[i + 1]@);
                    }
                }
                let expected = text_eq(argument.as_str(), "--expected-apps");
                let limit: u64 = if expected { usize::MAX as u64 } else { u64::MAX };
                let n = match parse_value(argument.as_str(), value, limit) {
                    Ok(n) => n,
                    Err(error) => {
                        return Err(error);
                    },
                };
                if expected {
                    config.expected_apps = n as usize;
                } else if text_eq(argument.as_str(), "--auto-timeout-secs") {
                    config.timeout_secs = n;
                } else {
                    config.hold_ms = n;
                }
                assert(rest.drop_first().drop_first() =~= t.skip(i + 2));
                i = i + 2;
            } else {
                return Err(AutoDemoError::UnknownArgument(argument.clone()));
            }
        }
        Ok(config)
    }

    /// Whether the automatic demonstration replaces the console.
    pub fn enabled(&self) -> (enabled: bool)
        ensures
            enabled == self.enabled,
    {
        self.enabled
    }
}

/// Whether an application counts as up: connected and in the system mode.
pub open spec fn is_up(application: ApplicationSnapshot) -> bool {
    application.connected && application.synchronized
}

/// How many of `applications` are up.
pub open spec fn up_count(applications: Seq<ApplicationSnapshot>) -> nat
    decreases applications.len(),
{
    if applications.len() == 0 {
        0
    } else {
        up_count(applications.drop_last()) + if is_up(applications.last()) {
            1nat
        } else {
            0nat
        }
    }
}

/// Whether `application` is the one named `name`, with the connection
/// state `connected` and, if `synchronized` is asked for, in the system
/// mode.
pub open spec fn in_state(application: ApplicationSnapshot, name: Seq<char>, connected: bool, synchronized: bool) -> bool {
    &&& application.application@ == name
    &&& application.connected == connected
    &&& synchronized ==> application.synchronized
}

/// How a flag is written in a message.
pub open spec fn bool_text(b: bool) -> Seq<char> {
    if b {
        "true"@
    } else {
        "false"@
    }
}

fn push_bool(out: &mut String, b: bool)
    ensures
        final(out)@ == old(out)@ + bool_text(b),
{
    if b {
        out.append("true");
    } else {
        out.append("false");
    }
}

/// One look at the service while waiting for `expected` applications to
/// be up: `Ok(true)` once enough are, otherwise `Ok(false)` to look again,
/// or, once the deadline has passed, a timeout naming both counts.
pub fn applications_ready(applications: &Vec<ApplicationSnapshot>, expected: usize, deadline_passed: bool) -> (outcome:
    Result<bool, AutoDemoError>)
    ensures
        up_count(applications@) >= expected ==> outcome == Ok::<bool, AutoDemoError>(true),
        up_count(applications@) < expected && !deadline_passed ==> outcome == Ok::<bool, AutoDemoError>(false),
        up_count(applications@) < expected && deadline_passed ==> (outcome matches Err(AutoDemoError::Timeout(text))
            && text@ == decimal_text(expected as nat) + " connected and synchronized applications (found "@
            + decimal_text(up_count(applications@)) + ")"@),
{
    let mut ready: usize = 0;
    let mut i: usize = 0;
    while i < applications.len()
        invariant
            i <= applications@.len(),
            ready == up_count(applications@.take(i as int)),
            ready <= i,
        decreases applications@.len() - i,
    {
        proof {
            assert(applications@.take(i + 1).drop_last() =~= applications@.take(i as int));
        }
        if applications[i].connected && applications[i].synchronized {
            ready = ready + 1;
        }
        i = i + 1;
    }
    assert(applications@.take(applications@.len() as int) =~= applications@);
    if ready >= expected {
        return Ok(true);
    }
    if !deadline_passed {
        return Ok(false);
    }
    let mut text = String::new();
    push_decimal(&mut text, expected as u64);
    text.append(" connected and synchronized applications (found ");
    push_decimal(&mut text, ready as u64);
    text.append(")");
    assert(text@ =~= decimal_text(expected as nat) + " connected and synchronized applications (found "@
        + decimal_text(up_count(applications@)) + ")"@);
    Err(AutoDemoError::Timeout(text))
}

/// One look at the service while waiting for the application `name` to
/// reach a connection state (and, if `synchronized` is asked for, the
/// system mode).
pub fn application_in_state(
    applications: &Vec<ApplicationSnapshot>,
    name: &str,
    connected: bool,
    synchronized: bool,
    deadline_passed: bool,
) -> (outcome: Result<bool, AutoDemoError>)
    ensures
        ({
            let found = exists|i: int|
                0 <= i < applications@.len() && #[trigger] in_state(applications@[i], name@, connected, synchronized);
            &&& found ==> outcome == Ok::<bool, AutoDemoError>(true)
            &&& !found && !deadline_passed ==> outcome == Ok::<bool, AutoDemoError>(false)
            &&& !found && deadline_passed ==> (outcome matches Err(AutoDemoError::Timeout(text)) && text@
                == "application "@ + name@ + " connected="@ + bool_text(connected) + ", synchronized="@ + bool_text(
                synchronized,
            ))
        }),
{
    let mut i: usize = 0;
    while i < applications.len()
        invariant
            i <= applications@.len(),
            forall|j: int| 0 <= j < i ==> !#[trigger] in_state(applications@[j], name@, connected, synchronized),
        decreases applications@.len() - i,
    {
        let application = &applications[i];
        if text_eq(application.application.0.as_str(), name) && application.connected == connected && (!synchronized
            || application.synchronized) {
            assert(in_state(applications@[i as int], name@, connected, synchronized));
            return Ok(true);
        }
        i = i + 1;
    }
    if !deadline_passed {
        return Ok(false);
    }
    let mut text = String::from_str("application ");
    text.append(name);
    text.append(" connected=");
    push_bool(&mut text, connected);
    text.append(", synchronized=");
    push_bool(&mut text, synchronized);
    assert(text@ =~= "application "@ + name@ + " connected="@ + bool_text(connected) + ", synchronized="@ + bool_text(
        synchronized,
    ));
    Err(AutoDemoError::Timeout(text))
}

/// One look at the system mode while waiting for transition
/// `transition_id` to reach `target`.
pub fn transition_finished(mode: SystemMode, target: SystemMode, transition_id: TransitionId, deadline_passed: bool) -> (outcome:
    Result<bool, AutoDemoError>)
    ensures
        mode == target ==> outcome == Ok::<bool, AutoDemoError>(true),
        mode != target && !deadline_passed ==> outcome == Ok::<bool, AutoDemoError>(false),
        mode != target && deadline_passed ==> (outcome matches Err(AutoDemoError::Timeout(text)) && text@
            == "transition "@ + debug_transition(transition_id) + " to "@ + mode_name(target)),
{
    if mode == target {
        return Ok(true);
    }
    if !deadline_passed {
        return Ok(false);
    }
    let mut text = String::from_str("transition ");
    push_debug_transition(&mut text, transition_id);
    text.append(" to ");
    push_mode_name(&mut text, target);
    assert(text@ =~= "transition "@ + debug_transition(transition_id) + " to "@ + mode_name(target));
    Err(AutoDemoError::Timeout(text))
}

/// One look at the service while waiting for transition `transition_id`,
/// expected to be rejected, to be over.
pub fn rejection_settled(in_progress: bool, transition_id: TransitionId, deadline_passed: bool) -> (outcome: Result<
    bool,
    AutoDemoError,
>)
    ensures
        !in_progress ==> outcome == Ok::<bool, AutoDemoError>(true),
        in_progress && !deadline_passed ==> outcome == Ok::<bool, AutoDemoError>(false),
        in_progress && deadline_passed ==> (outcome matches Err(AutoDemoError::Timeout(text)) && text@
            == "rejection of transition "@ + debug_transition(transition_id)),
{
    if !in_progress {
        return Ok(true);
    }
    if !deadline_passed {
        return Ok(false);
    }
    let mut text = String::from_str("rejection of transition ");
    push_debug_transition(&mut text, transition_id);
    Err(AutoDemoError::Timeout(text))
}

/// Whether a transition that was expected to be rejected left the system
/// in `original_mode`; if it moved it to `final_mode`, the showcase fails.
pub fn rejection_confirmed(transition_id: TransitionId, original_mode: SystemMode, final_mode: SystemMode) -> (outcome:
    Result<(), AutoDemoError>)
    ensures
        final_mode == original_mode ==> outcome is Ok,
        final_mode != original_mode ==> (outcome matches Err(AutoDemoError::UnexpectedState(text)) && text@
            == "transition "@ + debug_transition(transition_id) + " committed "@ + mode_name(final_mode)
            + " instead of being rejected"@),
{
    if final_mode == original_mode {
        return Ok(());
    }
    let mut text = String::from_str("transition ");
    push_debug_transition(&mut text, transition_id);
    text.append(" committed ");
    push_mode_name(&mut text, final_mode);
    text.append(" instead of being rejected");
    assert(text@ =~= "transition "@ + debug_transition(transition_id) + " committed "@ + mode_name(final_mode)
        + " instead of being rejected"@);
    Err(AutoDemoError::UnexpectedState(text))
}

/// One look at the system health while waiting for it to be `expected`.
pub fn health_reached(health: HealthState, expected: HealthState, deadline_passed: bool) -> (outcome: Result<
    bool,
    AutoDemoError,
>)
    ensures
        health == expected ==> outcome == Ok::<bool, AutoDemoError>(true),
        health != expected && !deadline_passed ==> outcome == Ok::<bool, AutoDemoError>(false),
        health != expected && deadline_passed ==> (outcome matches Err(AutoDemoError::Timeout(text)) && text@
            == "system health "@ + health_name(expected) + " (currently "@ + health_name(health) + ")"@),
{
    if health == expected {
        return Ok(true);
    }
    if !deadline_passed {
        return Ok(false);
    }
    let mut text = String::from_str("system health ");
    push_health_name(&mut text, expected);
    text.append(" (currently ");
    push_health_name(&mut text, health);
    text.append(")");
    assert(text@ =~= "system health "@ + health_name(expected) + " (currently "@ + health_name(health) + ")"@);
    Err(AutoDemoError::Timeout(text))
}

/// One step of the automatic demonstration.
#[derive(Debug, Clone, Copy, PartialEq, Eq, Structural)]
pub enum DemoStep {
    /// Announce the start of showcase stage `n`.
    Stage(u8),
    /// Bring the system to the mode, unless it is there already, and wait
    /// for the transition to complete.
    TransitionTo(SystemMode),
    /// Wait until the watched application (see `watched_application`) is
    /// in the given connection state, and synchronized if asked.
    WaitForApplication { connected: bool, synchronized: bool },
    /// Wait until the system has the health.
    WaitForHealth(HealthState),
    /// Request the mode, and check that the transition is rejected and the
    /// system mode kept.
    ExpectRejected(SystemMode),
    /// Pause for the configured hold time.
    Hold,
}

/// What the demonstration does next.
#[derive(Debug)]
pub enum DemoAction {
    Perform(DemoStep),
    /// Every step succeeded.
    Passed,
    /// A step failed; the demonstration ends with its error.
    Failed(AutoDemoError),
}

/// The showcase, step by step: a committed `Standby` transition; the
/// watched application lost and the system `Failed`; the application back,
/// synchronized, and the system `Healthy`; a `Working` transition that is
/// rejected and leaves the mode unchanged; the same transition committed on
/// retry; and a final transition back to `Standby`.
pub open spec fn showcase_plan(step: int) -> Option<DemoStep> {
    if step == 0 {
        Some(DemoStep::Stage(1))
    } else if step == 1 {
        Some(DemoStep::TransitionTo(SystemMode::Standby))
    } else if step == 2 {
        Some(DemoStep::Hold)
    } else if step == 3 {
        Some(DemoStep::Stage(2))
    } else if step == 4 {
        Some(DemoStep::WaitForApplication { connected: false, synchronized: false })
    } else if step == 5 {
        Some(DemoStep::WaitForHealth(HealthState::Failed))
    } else if step == 6 {
        Some(DemoStep::Stage(3))
    } else if step == 7 {
        Some(DemoStep::WaitForApplication { connected: true, synchronized: true })
    } else if step == 8 {
        Some(DemoStep::WaitForHealth(HealthState::Healthy))
    } else if step == 9 {
        Some(DemoStep::Hold)
    } else if step == 10 {
        Some(DemoStep::Stage(4))
    } else if step == 11 {
        Some(DemoStep::ExpectRejected(SystemMode::Working))
    } else if step == 12 {
        Some(DemoStep::Hold)
    } else if step == 13 {
        Some(DemoStep::Stage(5))
    } else if step == 14 {
        Some(DemoStep::TransitionTo(SystemMode::Working))
    } else if step == 15 {
        Some(DemoStep::Hold)
    } else if step == 16 {
        Some(DemoStep::Stage(6))
    } else if step == 17 {
        Some(DemoStep::TransitionTo(SystemMode::Standby))
    } else {
        None
    }
}

/// The plain demonstration, step by step: `Standby`, `Working`, then
/// `Standby` again, holding after each.
pub open spec fn demo_plan(step: int) -> Option<DemoStep> {
    if step == 0 {
        Some(DemoStep::TransitionTo(SystemMode::Standby))
    } else if step == 1 {
        Some(DemoStep::Hold)
    } else if step == 2 {
        Some(DemoStep::TransitionTo(SystemMode::Working))
    } else if step == 3 {
        Some(DemoStep::Hold)
    } else if step == 4 {
        Some(DemoStep::TransitionTo(SystemMode::Standby))
    } else if step == 5 {
        Some(DemoStep::Hold)
    } else {
        None
    }
}

/// What follows step `step` of a plan whose step there is `planned`, when
/// the previous step ended with `previous`: its failure, the step itself,
/// or, after the last one, success.
pub open spec fn next_action(planned: Option<DemoStep>, previous: Result<(), AutoDemoError>) -> DemoAction {
    match previous {
        Err(e) => DemoAction::Failed(e),
        Ok(()) => match planned {
            Some(s) => DemoAction::Perform(s),
            None => DemoAction::Passed,
        },
    }
}

fn act(planned: Option<DemoStep>, previous: Result<(), AutoDemoError>) -> (action: DemoAction)
    ensures
        action == next_action(planned, previous),
{
    match previous {
        Err(e) => DemoAction::Failed(e),
        Ok(()) => match planned {
            Some(s) => DemoAction::Perform(s),
            None => DemoAction::Passed,
        },
    }
}

/// The showcase's next action: step `step` of the showcase plan if every
/// earlier step succeeded (`previous` is the outcome of the step before),
/// and `Passed` only once the last step, the return to `Standby`, has
/// succeeded.
pub fn showcase_next(step: usize, previous: Result<(), AutoDemoError>) -> (action: DemoAction)
    ensures
        action == next_action(showcase_plan(step as int), previous),
{
    let planned = if step == 0 {
        Some(DemoStep::Stage(1))
    } else if step == 1 {
        Some(DemoStep::TransitionTo(SystemMode::Standby))
    } else if step == 2 {
        Some(DemoStep::Hold)
    } else if step == 3 {
        Some(DemoStep::Stage(2))
    } else if step == 4 {
        Some(DemoStep::WaitForApplication { connected: false, synchronized: false })
    } else if step == 5 {
        Some(DemoStep::WaitForHealth(HealthState::Failed))
    } else if step == 6 {
        Some(DemoStep::Stage(3))
    } else if step == 7 {
        Some(DemoStep::WaitForApplication { connected: true, synchronized: true })
    } else if step == 8 {
        Some(DemoStep::WaitForHealth(HealthState::Healthy))
    } else if step == 9 {
        Some(DemoStep::Hold)
    } else if step == 10 {
        Some(DemoStep::Stage(4))
    } else if step == 11 {
        Some(DemoStep::ExpectRejected(SystemMode::Working))
    } else if step == 12 {
        Some(DemoStep::Hold)
    } else if step == 13 {
        Some(DemoStep::Stage(5))
    } else if step == 14 {
        Some(DemoStep::TransitionTo(SystemMode::Working))
    } else if step == 15 {
        Some(DemoStep::Hold)
    } else if step == 16 {
        Some(DemoStep::Stage(6))
    } else if step == 17 {
        Some(DemoStep::TransitionTo(SystemMode::Standby))
    } else {
        None
    };
    act(planned, previous)
}

/// The plain demonstration's next action, as `showcase_next` for the
/// demonstration plan.
pub fn demo_next(step: usize, previous: Result<(), AutoDemoError>) -> (action: DemoAction)
    ensures
        action == next_action(demo_plan(step as int), previous),
{
    let planned = if step == 0 {
        Some(DemoStep::TransitionTo(SystemMode::Standby))
    } else if step == 1 {
        Some(DemoStep::Hold)
    } else if step == 2 {
        Some(DemoStep::TransitionTo(SystemMode::Working))
    } else if step == 3 {
        Some(DemoStep::Hold)
    } else if step == 4 {
        Some(DemoStep::TransitionTo(SystemMode::Standby))
    } else if step == 5 {
        Some(DemoStep::Hold)
    } else {
        None
    };
    act(planned, previous)
}

/// The application whose loss and return the showcase watches.
pub fn watched_application() -> (name: &'static str)
    ensures
        name@ == "telemetry"@,
{
    "telemetry"
}

} // verus!
