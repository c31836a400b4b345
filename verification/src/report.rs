//! Structured analysis reports: the card formats the narrative layer
//! emits, the legacy stored format, and the conversions between them.
//!
//! These are plain data: the narrative collaborator fills them, the engine
//! stores and converts them. Fractional fields are scaled integers
//! (hundredths), as everywhere in this crate.

use vstd::prelude::*;
use crate::text::dec_str_signed;

verus! {

/// A failure of the narrative collaborator.
#[derive(Debug, Clone, PartialEq)]
pub enum LlmError {
    /// No API key is configured.
    MissingApiKey,
    /// The request could not be sent.
    Request(String),
    /// The service answered with an error.
    Api(String),
    /// The answer could not be parsed.
    Parse(String),
}

impl LlmError {
    /// A human-readable message.
    pub fn message(&self) -> (r: String)
        ensures
            match self {
                LlmError::MissingApiKey => r@ == "API key not configured"@,
                LlmError::Request(m) => r@ == "Request failed: "@ + m@,
                LlmError::Api(m) => r@ == "API error: "@ + m@,
                LlmError::Parse(m) => r@ == "Parse error: "@ + m@,
            },
    {
        match self {
            LlmError::MissingApiKey => String::from_str("API key not configured"),
            LlmError::Request(m) => {
                let mut s = String::from_str("Request failed: ");
                s.append(m.as_str());
                s
            },
            LlmError::Api(m) => {
                let mut s = String::from_str("API error: ");
                s.append(m.as_str());
                s
            },
            LlmError::Parse(m) => {
                let mut s = String::from_str("Parse error: ");
                s.append(m.as_str());
                s
            },
        }
    }
}

/// Token accounting of one narrative call.
#[derive(Debug, Clone, Copy, PartialEq, Eq, Structural)]
pub struct Usage {
    /// Tokens sent.
    pub input_tokens: u32,
    /// Tokens received.
    pub output_tokens: u32,
}

/// The legacy analysis format, as stored.
#[derive(Debug, Clone, PartialEq)]
pub struct WorkoutAnalysis {
    /// Brief summary of the workout.
    pub summary: String,
    /// What to do tomorrow.
    pub tomorrow_recommendation: String,
    /// Risks or concerns identified.
    pub risk_flags: Vec<String>,
    /// Notes specific to training goals.
    pub goal_notes: Option<String>,
}

/// A stored analysis row with its identifiers.
#[derive(Debug, Clone, PartialEq)]
pub struct StoredWorkoutAnalysis {
    /// Row identifier, when persisted.
    pub id: Option<i64>,
    /// The analyzed workout.
    pub workout_id: i64,
    /// Brief summary.
    pub summary: String,
    /// What to do tomorrow.
    pub tomorrow_recommendation: String,
    /// Risks or concerns identified.
    pub risk_flags: Vec<String>,
    /// Notes specific to training goals.
    pub goal_notes: Option<String>,
    /// When the row was written.
    pub created_at: Option<String>,
}

/// A new analysis row to persist.
#[derive(Debug, Clone, PartialEq)]
pub struct NewWorkoutAnalysis {
    /// The analyzed workout.
    pub workout_id: i64,
    /// Brief summary.
    pub summary: Option<String>,
    /// What to do tomorrow.
    pub tomorrow_recommendation: Option<String>,
    /// Risk flags, encoded.
    pub risk_flags_json: Option<String>,
    /// Notes specific to training goals.
    pub kilimanjaro_notes: Option<String>,
    /// Which model produced it.
    pub model_version: Option<String>,
    /// Hash of the prompt that produced it.
    pub prompt_hash: Option<String>,
}

/// Count of workouts whose metrics a backfill pass computed.
#[derive(Debug, Clone, Copy, PartialEq, Eq, Structural)]
pub struct ComputeResult {
    /// Workouts that lacked metrics.
    pub total: usize,
    /// Workouts whose metrics were computed.
    pub computed: usize,
}

/// An error surfaced to the caller of an analysis operation.
#[derive(Debug, Clone, PartialEq)]
pub struct AnalysisError {
    /// The message, verbatim.
    pub message: String,
}

/// Trend comparison against recent similar workouts.
#[derive(Debug, Clone, PartialEq)]
pub struct TrendInsight {
    /// Which metric was compared.
    pub metric_compared: String,
    /// Direction of the trend.
    pub direction: String,
    /// Size of the change.
    pub delta: String,
    /// What it means.
    pub interpretation: String,
}

/// How the workout was executed.
#[derive(Debug, Clone, PartialEq)]
pub struct PerformanceInterpretation {
    /// Execution quality.
    pub execution_quality: String,
    /// Note on efficiency, if any.
    pub efficiency_note: Option<String>,
    /// The workout against the trend.
    pub context_vs_trend: String,
}

/// The narrative's explanation of one engine decision.
#[derive(Debug, Clone, PartialEq)]
pub struct DimensionDecision {
    /// The engine's decision, by name.
    pub engine_decision: String,
    /// Why the engine decided so.
    pub explanation: String,
    /// What the athlete should do.
    pub action: String,
}

/// A structured prescription for tomorrow.
#[derive(Debug, Clone, PartialEq)]
pub struct TomorrowPrescription {
    /// Activity kind.
    pub activity_type: String,
    /// Duration in minutes.
    pub duration_min: i32,
    /// Intensity wording.
    pub intensity: String,
    /// Why.
    pub rationale: String,
}

/// A flag paired with its recommended action.
#[derive(Debug, Clone, PartialEq)]
pub struct FlagWithAction {
    /// Flag name.
    pub flag: String,
    /// Recommended action.
    pub action: String,
}

/// Trend-focused analysis format.
#[derive(Debug, Clone, PartialEq)]
pub struct WorkoutAnalysisV3 {
    /// Trend against recent workouts.
    pub trend_insight: TrendInsight,
    /// Interpretation of this workout.
    pub performance_interpretation: PerformanceInterpretation,
    /// Explanation per dimension, keyed by dimension name.
    pub decision_logic: std::collections::HashMap<String, DimensionDecision>,
    /// Tomorrow's prescription.
    pub tomorrow_prescription: TomorrowPrescription,
    /// Prioritized flags with actions.
    pub flags_and_priorities: Vec<FlagWithAction>,
}

/// Pace or power performance trend card.
#[derive(Debug, Clone, PartialEq)]
pub struct PerformanceCard {
    /// The metric shown.
    pub metric_name: String,
    /// Date compared against.
    pub comparison_date: String,
    /// Value compared against.
    pub comparison_value: String,
    /// Today's value.
    pub today_value: String,
    /// The difference.
    pub delta: String,
    /// One-line insight.
    pub insight: String,
}

/// Heart-rate and efficiency assessment card.
#[derive(Debug, Clone, PartialEq)]
pub struct HrEfficiencyCard {
    /// Average heart rate.
    pub avg_hr: i64,
    /// Zone of the average heart rate.
    pub hr_zone: String,
    /// Percent of maximum.
    pub hr_pct_max: i64,
    /// One-line assessment.
    pub hr_assessment: String,
    /// Efficiency trend, if known.
    pub efficiency_trend: Option<String>,
}

/// Training status card: fatigue, flags, adherence and progression.
#[derive(Debug, Clone, PartialEq)]
pub struct TrainingStatusCard {
    /// TSB in hundredths.
    pub tsb_value: i64,
    /// The TSB band name.
    pub tsb_band: String,
    /// One-line assessment of the TSB.
    pub tsb_assessment: String,
    /// The highest-priority flags.
    pub top_flags: Vec<String>,
    /// One-line adherence note.
    pub adherence_note: String,
    /// One-line progression state.
    pub progression_state: String,
}

/// Tomorrow's prescription card.
#[derive(Debug, Clone, PartialEq)]
pub struct TomorrowCard {
    /// Activity kind.
    pub activity_type: String,
    /// Duration in minutes.
    pub duration_min: i32,
    /// Label of the duration option.
    pub duration_label: String,
    /// Intensity wording.
    pub intensity: String,
    /// Goal of the session.
    pub goal: String,
    /// Why.
    pub rationale: String,
    /// Confidence grade.
    pub confidence: String,
}

/// Actionable flags card.
#[derive(Debug, Clone, PartialEq)]
pub struct EyesOnCard {
    /// Flags in priority order.
    pub priorities: Vec<FlagPriority>,
}

/// One actionable flag with its threshold and consequence.
#[derive(Debug, Clone, PartialEq)]
pub struct FlagPriority {
    /// Flag name.
    pub flag: String,
    /// Current value, if shown.
    pub current_value: Option<String>,
    /// The threshold that tripped.
    pub threshold: String,
    /// Recommended action.
    pub action: String,
    /// Why it matters.
    pub why_it_matters: String,
}

/// Multi-card analysis format.
#[derive(Debug, Clone, PartialEq)]
pub struct WorkoutAnalysisV4 {
    /// Performance trend card.
    pub performance: PerformanceCard,
    /// Heart-rate and efficiency card.
    pub hr_efficiency: HrEfficiencyCard,
    /// Training status card.
    pub training_status: TrainingStatusCard,
    /// Tomorrow card.
    pub tomorrow: TomorrowCard,
    /// Actionable flags card, when present.
    pub eyes_on: Option<EyesOnCard>,
}

/// Deep workout breakdown of the two-part format.
#[derive(Debug, Clone, PartialEq)]
pub struct WorkoutBreakdown {
    /// Brief summary.
    pub summary: String,
    /// Execution assessment.
    pub execution: String,
    /// Heart-rate insights.
    pub hr_insights: String,
    /// Comparison against recent workouts, if any.
    pub comparison: Option<String>,
}

/// Progression status of the two-part format.
#[derive(Debug, Clone, PartialEq)]
pub struct ProgressionResponse {
    /// Run-interval status.
    pub run_interval_status: String,
    /// Run-interval note.
    pub run_interval_note: String,
    /// Long-run status, if any.
    pub long_run_status: Option<String>,
    /// Long-run note, if any.
    pub long_run_note: Option<String>,
}

/// Plan status of the two-part format.
#[derive(Debug, Clone, PartialEq)]
pub struct PlanStatusResponse {
    /// The week is on track.
    pub week_on_track: bool,
    /// The adjustment needed, if one is.
    pub adjustment_needed: Option<String>,
}

/// The two-part analysis format.
#[derive(Debug, Clone, PartialEq)]
pub struct WorkoutAnalysisV2 {
    /// The workout breakdown.
    pub workout_analysis: WorkoutBreakdown,
    /// Progression status, when present.
    pub progression: Option<ProgressionResponse>,
    /// Plan status, when present.
    pub plan_status: Option<PlanStatusResponse>,
    /// What to do tomorrow.
    pub tomorrow: String,
    /// Risks or concerns identified.
    pub risk_flags: Vec<String>,
    /// Notes specific to training goals.
    pub goal_notes: Option<String>,
}

/// The "kind for minutes at intensity" sentence of a prescription.
pub open spec fn spec_prescription_line(
    activity_type: Seq<char>,
    duration_min: int,
    intensity: Seq<char>,
    rationale: Seq<char>,
) -> Seq<char> {
    activity_type + " for "@ + dec_str_signed(duration_min) + " min at "@ + intensity
        + " intensity. "@ + rationale
}

/// Render the prescription sentence of the legacy format.
fn prescription_line(activity_type: &str, duration_min: i32, intensity: &str, rationale: &str)
    -> (r: String)
    ensures
        r@ == spec_prescription_line(
            activity_type@,
            duration_min as int,
            intensity@,
            rationale@,
        ),
{
    let mut s = String::from_str(activity_type);
    s.append(" for ");
    s.append(crate::text::i64_to_string(duration_min as i64).as_str());
    s.append(" min at ");
    s.append(intensity);
    s.append(" intensity. ");
    s.append(rationale);
    s
}

/// A "flag: action" line.
pub open spec fn spec_flag_line(flag: Seq<char>, action: Seq<char>) -> Seq<char> {
    flag + ": "@ + action
}

impl WorkoutAnalysis {
    /// Reduce the multi-card format to the legacy stored format: the
    /// performance insight and heart-rate assessment joined as the
    /// summary, the tomorrow card as one sentence, and each actionable
    /// flag as a "flag: action" line.
    pub fn from_v4(v4: &WorkoutAnalysisV4) -> (r: WorkoutAnalysis)
        ensures
            r.summary@ == v4.performance.insight@ + " "@ + v4.hr_efficiency.hr_assessment@,
            r.tomorrow_recommendation@ == spec_prescription_line(
                v4.tomorrow.activity_type@,
                v4.tomorrow.duration_min as int,
                v4.tomorrow.intensity@,
                v4.tomorrow.rationale@,
            ),
            match v4.eyes_on {
                Some(eyes) => r.risk_flags@.len() == eyes.priorities@.len() && (forall|i: int|
                    0 <= i < eyes.priorities@.len() ==> (#[trigger] r.risk_flags@[i])@
                        == spec_flag_line(
                        eyes.priorities@[i].flag@,
                        eyes.priorities@[i].action@,
                    )),
                None => r.risk_flags@.len() == 0,
            },
            r.goal_notes is None,
    {
        let mut summary = v4.performance.insight.clone();
        summary.append(" ");
        summary.append(v4.hr_efficiency.hr_assessment.as_str());

        let tomorrow = prescription_line(
            v4.tomorrow.activity_type.as_str(),
            v4.tomorrow.duration_min,
            v4.tomorrow.intensity.as_str(),
            v4.tomorrow.rationale.as_str(),
        );

        let mut risk_flags: Vec<String> = Vec::new();
        match &v4.eyes_on {
            Some(eyes) => {
                let n = eyes.priorities.len();
                let mut i: usize = 0;
                while i < n
                    invariant
                        i <= n,
                        n == eyes.priorities@.len(),
                        risk_flags@.len() == i,
                        forall|j: int|
                            0 <= j < i ==> (#[trigger] risk_flags@[j])@ == spec_flag_line(
                                eyes.priorities@[j].flag@,
                                eyes.priorities@[j].action@,
                            ),
                    decreases n - i,
                {
                    let p = &eyes.priorities[i];
                    let mut line = p.flag.clone();
                    line.append(": ");
                    line.append(p.action.as_str());
                    risk_flags.push(line);
                    i = i + 1;
                }
            },
            None => (),
        }

        WorkoutAnalysis { summary, tomorrow_recommendation: tomorrow, risk_flags, goal_notes: None }
    }

    /// Reduce the trend-focused format to the legacy stored format.
    pub fn from_v3(v3: &WorkoutAnalysisV3) -> (r: WorkoutAnalysis)
        ensures
            r.summary@ == v3.trend_insight.interpretation@ + ". "@
                + v3.performance_interpretation.execution_quality@,
            r.tomorrow_recommendation@ == spec_prescription_line(
                v3.tomorrow_prescription.activity_type@,
                v3.tomorrow_prescription.duration_min as int,
                v3.tomorrow_prescription.intensity@,
                v3.tomorrow_prescription.rationale@,
            ),
            r.risk_flags@.len() == v3.flags_and_priorities@.len(),
            forall|i: int|
                0 <= i < v3.flags_and_priorities@.len() ==> (#[trigger] r.risk_flags@[i])@
                    == spec_flag_line(
                    v3.flags_and_priorities@[i].flag@,
                    v3.flags_and_priorities@[i].action@,
                ),
            r.goal_notes is None,
    {
        let mut summary = v3.trend_insight.interpretation.clone();
        summary.append(". ");
        summary.append(v3.performance_interpretation.execution_quality.as_str());

        let tomorrow = prescription_line(
            v3.tomorrow_prescription.activity_type.as_str(),
            v3.tomorrow_prescription.duration_min,
            v3.tomorrow_prescription.intensity.as_str(),
            v3.tomorrow_prescription.rationale.as_str(),
        );

        let mut risk_flags: Vec<String> = Vec::new();
        let n = v3.flags_and_priorities.len();
        let mut i: usize = 0;
        while i < n
            invariant
                i <= n,
                n == v3.flags_and_priorities@.len(),
                risk_flags@.len() == i,
                forall|j: int|
                    0 <= j < i ==> (#[trigger] risk_flags@[j])@ == spec_flag_line(
                        v3.flags_and_priorities@[j].flag@,
                        v3.flags_and_priorities@[j].action@,
                    ),
            decreases n - i,
        {
            let f = &v3.flags_and_priorities[i];
            let mut line = f.flag.clone();
            line.append(": ");
            line.append(f.action.as_str());
            risk_flags.push(line);
            i = i + 1;
        }

        WorkoutAnalysis { summary, tomorrow_recommendation: tomorrow, risk_flags, goal_notes: None }
    }

    /// Reduce the two-part format to the legacy stored format: the fields
    /// move over unchanged.
    pub fn from_v2(v2: WorkoutAnalysisV2) -> (r: WorkoutAnalysis)
        ensures
            r.summary == v2.workout_analysis.summary,
            r.tomorrow_recommendation == v2.tomorrow,
            r.risk_flags == v2.risk_flags,
            r.goal_notes == v2.goal_notes,
    {
        WorkoutAnalysis {
            summary: v2.workout_analysis.summary,
            tomorrow_recommendation: v2.tomorrow,
            risk_flags: v2.risk_flags,
            goal_notes: v2.goal_notes,
        }
    }
}

} // verus!
