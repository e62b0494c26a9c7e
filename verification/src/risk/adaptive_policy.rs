//! Adaptive authentication: when a login must step up to stronger factors.
//! The risk score and its thresholds are compared outside this module; the
//! decision here takes the outcomes of those comparisons.
use vstd::prelude::*;
use crate::risk::anomaly::{AnomalyType, is_critical_anomaly, is_geographic_anomaly};

verus! {

/// Authentication level required, from weakest to strongest.
#[derive(Debug, Clone, Copy, PartialEq, Eq, PartialOrd, Ord, Structural)]
pub enum AuthenticationRequirement {
    Basic,
    Mfa,
    WebAuthn,
    StrongMfa,
    Deny,
}

/// Position of a requirement in the order from weakest to strongest.
pub open spec fn requirement_rank(r: AuthenticationRequirement) -> nat {
    match r {
        AuthenticationRequirement::Basic => 0,
        AuthenticationRequirement::Mfa => 1,
        AuthenticationRequirement::WebAuthn => 2,
        AuthenticationRequirement::StrongMfa => 3,
        AuthenticationRequirement::Deny => 4,
    }
}

impl AuthenticationRequirement {
    /// Position in the order from weakest to strongest.
    pub fn rank(&self) -> (n: u8)
        ensures
            n == requirement_rank(*self),
    {
        match self {
            AuthenticationRequirement::Basic => 0,
            AuthenticationRequirement::Mfa => 1,
            AuthenticationRequirement::WebAuthn => 2,
            AuthenticationRequirement::StrongMfa => 3,
            AuthenticationRequirement::Deny => 4,
        }
    }
}

/// Why a step-up is required.
#[derive(Debug, Clone, Copy, PartialEq, Eq, Structural)]
pub enum StepUpReason {
    HighRisk,
    CriticalRisk,
    AnomalyDetected(AnomalyType),
    NewDevice,
    SuspiciousDevice,
    GeographicAnomaly,
    HighValueOperation,
    ComplianceRequired,
}

/// The message shown for a requirement.
pub open spec fn requirement_message(r: AuthenticationRequirement) -> Seq<char> {
    match r {
        AuthenticationRequirement::Basic => "Standard authentication required"@,
        AuthenticationRequirement::Mfa => "Additional verification required. Please use your authenticator app."@,
        AuthenticationRequirement::WebAuthn => "Hardware security key required for this login."@,
        AuthenticationRequirement::StrongMfa => "Enhanced security required. Please use both MFA and security key."@,
        AuthenticationRequirement::Deny => "Access denied due to security concerns. Please contact support."@,
    }
}

/// A step-up demand: the level required, the reasons, a message.
#[derive(Debug)]
pub struct StepUpTrigger {
    pub requirement: AuthenticationRequirement,
    pub reasons: Vec<StepUpReason>,
    pub message: String,
}

impl StepUpTrigger {
    /// A demand for `requirement` with one reason and the requirement's message.
    pub fn new(requirement: AuthenticationRequirement, reason: StepUpReason) -> (t: StepUpTrigger)
        ensures
            t.requirement == requirement,
            t.reasons@ == seq![reason],
            t.message@ == requirement_message(requirement),
    {
        let message = match requirement {
            AuthenticationRequirement::Basic => String::from_str("Standard authentication required"),
            AuthenticationRequirement::Mfa => String::from_str("Additional verification required. Please use your authenticator app."),
            AuthenticationRequirement::WebAuthn => String::from_str("Hardware security key required for this login."),
            AuthenticationRequirement::StrongMfa => String::from_str("Enhanced security required. Please use both MFA and security key."),
            AuthenticationRequirement::Deny => String::from_str("Access denied due to security concerns. Please contact support."),
        };
        let mut reasons: Vec<StepUpReason> = Vec::new();
        reasons.push(reason);
        assert(reasons@ =~= seq![reason]);
        StepUpTrigger { requirement, reasons, message }
    }

    /// Adds a reason.
    pub fn with_reason(self, reason: StepUpReason) -> (t: StepUpTrigger)
        ensures
            t.requirement == self.requirement,
            t.reasons@ == self.reasons@.push(reason),
            t.message == self.message,
    {
        let mut t = self;
        t.reasons.push(reason);
        t
    }

    /// Whether the demand is a denial.
    pub fn is_denied(&self) -> (b: bool)
        ensures
            b == (self.requirement == AuthenticationRequirement::Deny),
    {
        self.requirement == AuthenticationRequirement::Deny
    }
}

/// Which thresholds of the policy the risk score reached.
#[derive(Debug, Clone, Copy)]
pub struct ThresholdsReached {
    pub deny: bool,
    pub webauthn: bool,
    pub mfa: bool,
}

/// What is known of the device of the attempt.
#[derive(Debug, Clone, Copy)]
pub struct DeviceFacts {
    /// Whether its reputation is suspicious.
    pub suspicious: bool,
    /// Successful authentications from it so far.
    pub successful_auths: u64,
}

/// The policy's switches.
#[derive(Debug, Clone, Copy)]
pub struct StepUpSettings {
    /// Require MFA on a device never used successfully.
    pub require_mfa_new_device: bool,
    /// Require a security key on a suspicious device.
    pub require_webauthn_suspicious: bool,
}

/// The critical anomalies among `anomalies`, in order.
pub open spec fn critical_anomalies(anomalies: Seq<AnomalyType>) -> Seq<AnomalyType> {
    anomalies.filter(|t: AnomalyType| is_critical_anomaly(t))
}

/// The reasons for the critical anomalies.
pub open spec fn anomaly_reasons(ts: Seq<AnomalyType>) -> Seq<StepUpReason> {
    ts.map_values(|t: AnomalyType| StepUpReason::AnomalyDetected(t))
}

/// The step-up decided, as a requirement and its reasons, checked in order:
/// the deny threshold; critical anomalies (all of them as reasons); a
/// suspicious device; the security-key threshold; a geographic anomaly;
/// the MFA threshold; a new device. `None` when no step-up is needed.
pub open spec fn step_up_outcome(
    reached: ThresholdsReached,
    anomalies: Seq<AnomalyType>,
    device: Option<DeviceFacts>,
    settings: StepUpSettings,
) -> Option<(AuthenticationRequirement, Seq<StepUpReason>)> {
    if reached.deny {
        Some((AuthenticationRequirement::Deny, seq![StepUpReason::CriticalRisk]))
    } else if critical_anomalies(anomalies).len() > 0 {
        Some((AuthenticationRequirement::WebAuthn, anomaly_reasons(critical_anomalies(anomalies))))
    } else if (device matches Some(d) && d.suspicious) && settings.require_webauthn_suspicious {
        Some((AuthenticationRequirement::WebAuthn, seq![StepUpReason::SuspiciousDevice]))
    } else if reached.webauthn {
        Some((AuthenticationRequirement::WebAuthn, seq![StepUpReason::HighRisk]))
    } else if exists|i: int| 0 <= i < anomalies.len() && is_geographic_anomaly(#[trigger] anomalies[i]) {
        Some((AuthenticationRequirement::Mfa, seq![StepUpReason::GeographicAnomaly]))
    } else if reached.mfa {
        Some((AuthenticationRequirement::Mfa, seq![StepUpReason::HighRisk]))
    } else if (device matches Some(d) && d.successful_auths == 0) && settings.require_mfa_new_device {
        Some((AuthenticationRequirement::Mfa, seq![StepUpReason::NewDevice]))
    } else {
        None
    }
}

/// Whether `t` is the demand `o` describes.
pub open spec fn describes(o: Option<(AuthenticationRequirement, Seq<StepUpReason>)>, t: Option<StepUpTrigger>) -> bool {
    match o {
        None => t is None,
        Some((req, reasons)) => t matches Some(tr) && tr.requirement == req && tr.reasons@ == reasons
            && tr.message@ == requirement_message(req),
    }
}

/// Decides the step-up of an attempt (see `step_up_outcome`).
pub fn decide_step_up(
    reached: ThresholdsReached,
    anomalies: &[AnomalyType],
    device: Option<DeviceFacts>,
    settings: StepUpSettings,
) -> (t: Option<StepUpTrigger>)
    ensures
        describes(step_up_outcome(reached, anomalies@, device, settings), t),
{
    if reached.deny {
        return Some(StepUpTrigger::new(AuthenticationRequirement::Deny, StepUpReason::CriticalRisk));
    }
    let mut trigger: Option<StepUpTrigger> = None;
    let mut i: usize = 0;
    let ghost pred = |t: AnomalyType| is_critical_anomaly(t);
    assert(anomalies@.subrange(0, 0) =~= Seq::<AnomalyType>::empty());
    proof { reveal(Seq::filter); }
    while i < anomalies.len()
        invariant
            i <= anomalies@.len(),
            pred == (|t: AnomalyType| is_critical_anomaly(t)),
            match trigger {
                None => anomalies@.subrange(0, i as int).filter(pred).len() == 0,
                Some(tr) => anomalies@.subrange(0, i as int).filter(pred).len() > 0
                    && tr.requirement == AuthenticationRequirement::WebAuthn
                    && tr.reasons@ == anomaly_reasons(anomalies@.subrange(0, i as int).filter(pred))
                    && tr.message@ == requirement_message(AuthenticationRequirement::WebAuthn),
            },
        decreases anomalies@.len() - i,
    {
        let t = anomalies[i];
        proof {
            anomalies@.subrange(0, i as int).lemma_filter_push(t, pred);
            assert(anomalies@.subrange(0, i + 1) =~= anomalies@.subrange(0, i as int).push(t));
        }
        let critical = match t {
            AnomalyType::ImpossibleTravel | AnomalyType::SessionHijacking | AnomalyType::BruteForce => true,
            _ => false,
        };
        if critical {
            let reason = StepUpReason::AnomalyDetected(t);
            trigger = match trigger {
                None => {
                    let nt = StepUpTrigger::new(AuthenticationRequirement::WebAuthn, reason);
                    assert(anomaly_reasons(seq![t]) =~= seq![reason]);
                    assert(Seq::<AnomalyType>::empty().push(t) =~= seq![t]);
                    Some(nt)
                },
                Some(tr) => {
                    let ghost before = anomalies@.subrange(0, i as int).filter(pred);
                    assert(anomaly_reasons(before.push(t)) =~= anomaly_reasons(before).push(reason));
                    Some(tr.with_reason(reason))
                },
            };
        }
        i += 1;
    }
    assert(anomalies@.subrange(0, anomalies@.len() as int) =~= anomalies@);
    if trigger.is_some() {
        return trigger;
    }
    match device {
        Some(d) => {
            if d.suspicious && settings.require_webauthn_suspicious {
                return Some(StepUpTrigger::new(AuthenticationRequirement::WebAuthn, StepUpReason::SuspiciousDevice));
            }
        },
        None => {},
    }
    if reached.webauthn {
        return Some(StepUpTrigger::new(AuthenticationRequirement::WebAuthn, StepUpReason::HighRisk));
    }
    let mut j: usize = 0;
    while j < anomalies.len()
        invariant
            j <= anomalies@.len(),
            forall|k: int| 0 <= k < j ==> !is_geographic_anomaly(#[trigger] anomalies@[k]),
            !reached.deny,
            !reached.webauthn,
            critical_anomalies(anomalies@).len() == 0,
            !((device matches Some(d) && d.suspicious) && settings.require_webauthn_suspicious),
        decreases anomalies@.len() - j,
    {
        match anomalies[j] {
            AnomalyType::GeographicAnomaly | AnomalyType::ImpossibleTravel => {
                assert(is_geographic_anomaly(anomalies@[j as int]));
                return Some(StepUpTrigger::new(AuthenticationRequirement::Mfa, StepUpReason::GeographicAnomaly));
            },
            _ => {},
        }
        j += 1;
    }
    if reached.mfa {
        return Some(StepUpTrigger::new(AuthenticationRequirement::Mfa, StepUpReason::HighRisk));
    }
    match device {
        Some(d) => {
            if d.successful_auths == 0 && settings.require_mfa_new_device {
                return Some(StepUpTrigger::new(AuthenticationRequirement::Mfa, StepUpReason::NewDevice));
            }
        },
        None => {},
    }
    None
}

/// The demand never falls below what the score reached: a reached deny
/// threshold denies, a reached security-key threshold demands at least a
/// security key, a reached MFA threshold at least MFA.
pub proof fn lemma_step_up_respects_thresholds(
    reached: ThresholdsReached,
    anomalies: Seq<AnomalyType>,
    device: Option<DeviceFacts>,
    settings: StepUpSettings,
)
    ensures
        reached.deny ==> (step_up_outcome(reached, anomalies, device, settings) matches Some((r, _))
            && r == AuthenticationRequirement::Deny),
        reached.webauthn ==> (step_up_outcome(reached, anomalies, device, settings) matches Some((r, _))
            && requirement_rank(r) >= 2),
        reached.mfa ==> (step_up_outcome(reached, anomalies, device, settings) matches Some((r, _))
            && requirement_rank(r) >= 1),
{
}

/// Strength of a step-up outcome: 0 when none is needed, else one more than
/// the rank of the requirement.
pub open spec fn outcome_rank(o: Option<(AuthenticationRequirement, Seq<StepUpReason>)>) -> nat {
    match o {
        None => 0,
        Some((r, _)) => 1 + requirement_rank(r),
    }
}

/// Every threshold that `low` reached, `high` reached too (as a higher risk
/// score does, each threshold being reached by the scores at or above it).
pub open spec fn thresholds_within(low: ThresholdsReached, high: ThresholdsReached) -> bool {
    &&& low.deny ==> high.deny
    &&& low.webauthn ==> high.webauthn
    &&& low.mfa ==> high.mfa
}

/// Raising the risk score never weakens the demand: with the same anomalies,
/// device and settings, reaching more thresholds gives a step-up at least as
/// strong.
pub proof fn lemma_step_up_monotone(
    low: ThresholdsReached,
    high: ThresholdsReached,
    anomalies: Seq<AnomalyType>,
    device: Option<DeviceFacts>,
    settings: StepUpSettings,
)
    requires
        thresholds_within(low, high),
    ensures
        outcome_rank(step_up_outcome(low, anomalies, device, settings))
            <= outcome_rank(step_up_outcome(high, anomalies, device, settings)),
{
}

/// The step-up of a high-value operation: a security key when the score
/// reached 0.5, MFA when it reached 0.3, none otherwise (the comparisons
/// are made outside).
pub fn decide_high_value_step_up(reached_half: bool, reached_three_tenths: bool) -> (t: Option<StepUpTrigger>)
    ensures
        reached_half ==> describes(Some((AuthenticationRequirement::WebAuthn, seq![StepUpReason::HighValueOperation])), t),
        !reached_half && reached_three_tenths ==> describes(Some((AuthenticationRequirement::Mfa, seq![StepUpReason::HighValueOperation])), t),
        !reached_half && !reached_three_tenths ==> t is None,
{
    if reached_half {
        Some(StepUpTrigger::new(AuthenticationRequirement::WebAuthn, StepUpReason::HighValueOperation))
    } else if reached_three_tenths {
        Some(StepUpTrigger::new(AuthenticationRequirement::Mfa, StepUpReason::HighValueOperation))
    } else {
        None
    }
}

/// Risk level.
#[derive(Debug, Clone, Copy, PartialEq, Eq, Structural)]
pub enum RiskLevel {
    Low,
    Medium,
    High,
    Critical,
}

} // verus!
