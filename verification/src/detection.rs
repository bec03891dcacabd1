//! Status classification: a pure, layered ruleset mapping recent output
//! lines and an idle age to an [`AgentStatus`].
//!
//! Decision order, first match wins: explicit sentinel markers, then
//! configured heuristic prompt patterns, then the age-based fallback, and
//! `Unknown` when no age signal exists at all.

use vstd::prelude::*;

use crate::model::AgentStatus;
use crate::strutil::{contains, spec_contains, views_of};

verus! {

/// Sentinel a managed agent emits to signal it is waiting on the user.
pub const NEEDS_INPUT_SENTINEL: &'static str = "/swarm:needs_input";

/// Sentinel a managed agent emits to signal it has finished its task.
pub const DONE_SENTINEL: &'static str = "/swarm:done";

/// What `regex::Regex::is_match` returns for a pattern source and a text:
/// a function of the two strings alone.
pub uninterp spec fn regex_match_of(pattern: Seq<char>, text: Seq<char>) -> bool;

/// Relies on `regex::Regex::new` and `regex::Regex::is_match`: whether the
/// pattern matches anywhere in the text. The result depends on the two
/// strings alone; a pattern that does not compile matches nothing.
#[verifier::external_body]
fn regex_is_match(pattern: &str, text: &str) -> (r: bool)
    ensures
        r == regex_match_of(pattern@, text@),
{
    match regex::Regex::new(pattern) {
        Ok(re) => re.is_match(text),
        Err(_) => false,
    }
}

/// Per-agent-kind detection configuration: an ordered list of heuristic
/// prompt patterns (regex sources) and the two age thresholds, in seconds.
pub struct DetectionConfig {
    pub needs_input_patterns: Vec<String>,
    pub running_threshold_secs: u64,
    pub idle_threshold_secs: u64,
}

/// Some line of `lines` holds `pat` as a substring.
pub open spec fn any_line_contains(lines: Seq<Seq<char>>, pat: Seq<char>) -> bool {
    exists|i: int| 0 <= i < lines.len() && spec_contains(lines[i], pat)
}

/// Some pattern of `pats` matches `line`.
pub open spec fn line_matches_any(line: Seq<char>, pats: Seq<Seq<char>>) -> bool {
    exists|j: int| 0 <= j < pats.len() && regex_match_of(pats[j], line)
}

/// Some line of `lines` matches some pattern of `pats`.
pub open spec fn any_pattern_match(lines: Seq<Seq<char>>, pats: Seq<Seq<char>>) -> bool {
    exists|i: int| 0 <= i < lines.len() && line_matches_any(lines[i], pats)
}

/// The full classification rule: sentinels first, then heuristic patterns,
/// then the age fallback, else `Unknown`. The two age branches above the
/// running threshold both yield `Idle`, deliberately.
pub open spec fn spec_classify(
    lines: Seq<Seq<char>>,
    pats: Seq<Seq<char>>,
    running_secs: u64,
    idle_secs: u64,
    age_secs: Option<u64>,
) -> AgentStatus {
    if any_line_contains(lines, NEEDS_INPUT_SENTINEL@) {
        AgentStatus::NeedsInput
    } else if any_line_contains(lines, DONE_SENTINEL@) {
        AgentStatus::Done
    } else if any_pattern_match(lines, pats) {
        AgentStatus::NeedsInput
    } else if age_secs is Some {
        if age_secs->0 <= running_secs {
            AgentStatus::Running
        } else if age_secs->0 <= idle_secs {
            AgentStatus::Idle
        } else {
            AgentStatus::Idle
        }
    } else {
        AgentStatus::Unknown
    }
}

/// Whether any of `lines` holds `pat` as a substring.
fn any_contains(lines: &Vec<String>, pat: &str) -> (r: bool)
    ensures
        r == any_line_contains(views_of(lines@), pat@),
{
    let n = lines.len();
    let mut i: usize = 0;
    while i < n
        invariant
            n == lines@.len(),
            0 <= i <= n,
            forall|k: int| 0 <= k < i ==> !spec_contains(views_of(lines@)[k], pat@),
        decreases n - i,
    {
        if contains(lines[i].as_str(), pat) {
            proof {
                assert(views_of(lines@)[i as int] == lines@[i as int]@);
                assert(spec_contains(views_of(lines@)[i as int], pat@));
            }
            return true;
        }
        i = i + 1;
    }
    false
}

/// Whether any of `lines` matches any pattern of `pats`.
fn any_regex_match(lines: &Vec<String>, pats: &Vec<String>) -> (r: bool)
    ensures
        r == any_pattern_match(views_of(lines@), views_of(pats@)),
{
    let n = lines.len();
    let mut i: usize = 0;
    while i < n
        invariant
            n == lines@.len(),
            0 <= i <= n,
            forall|k: int| 0 <= k < i ==> !line_matches_any(views_of(lines@)[k], views_of(pats@)),
        decreases n - i,
    {
        let m = pats.len();
        let mut j: usize = 0;
        while j < m
            invariant
                n == lines@.len(),
                m == pats@.len(),
                0 <= i < n,
                0 <= j <= m,
                forall|k: int| 0 <= k < i ==> !line_matches_any(
                    views_of(lines@)[k],
                    views_of(pats@),
                ),
                forall|l: int| 0 <= l < j ==> !regex_match_of(views_of(pats@)[l], lines@[i as int]@),
            decreases m - j,
        {
            if regex_is_match(pats[j].as_str(), lines[i].as_str()) {
                proof {
                    assert(views_of(pats@)[j as int] == pats@[j as int]@);
                    assert(views_of(lines@)[i as int] == lines@[i as int]@);
                    assert(regex_match_of(views_of(pats@)[j as int], views_of(lines@)[i as int]));
                    assert(line_matches_any(views_of(lines@)[i as int], views_of(pats@)));
                }
                return true;
            }
            j = j + 1;
        }
        i = i + 1;
    }
    false
}

/// Classify recent output. `age_secs` is the elapsed time since the last
/// observed output, when one is known.
pub fn detect_status(lines: &Vec<String>, detection: &DetectionConfig, age_secs: Option<u64>) -> (r:
    AgentStatus)
    ensures
        r == spec_classify(
            views_of(lines@),
            views_of(detection.needs_input_patterns@),
            detection.running_threshold_secs,
            detection.idle_threshold_secs,
            age_secs,
        ),
{
    if any_contains(lines, NEEDS_INPUT_SENTINEL) {
        return AgentStatus::NeedsInput;
    }
    if any_contains(lines, DONE_SENTINEL) {
        return AgentStatus::Done;
    }
    if any_regex_match(lines, &detection.needs_input_patterns) {
        return AgentStatus::NeedsInput;
    }
    match age_secs {
        Some(age) => {
            if age <= detection.running_threshold_secs {
                AgentStatus::Running
            } else if age <= detection.idle_threshold_secs {
                AgentStatus::Idle
            } else {
                AgentStatus::Idle
            }
        },
        None => AgentStatus::Unknown,
    }
}

/// The default heuristic prompt patterns, as regex sources.
pub open spec fn default_patterns() -> Seq<Seq<char>> {
    seq![
        "\\[Y/n\\]"@,
        "\\[y/N\\]"@,
        "\\(y/N\\)"@,
        "\\(Y/n\\)"@,
        "Do you want to proceed"@,
        "Should I proceed"@,
        "Would you like me to"@,
        "Press enter to continue"@,
        "waiting for.*input"@,
        "^\\? "@,
        "Enter to select.*Tab/Arrow"@,
        "Type your answer"@,
    ]
}

/// The default running-age threshold, in seconds.
pub const DEFAULT_RUNNING_THRESHOLD_SECS: u64 = 5;

/// The default idle-age threshold, in seconds.
pub const DEFAULT_IDLE_THRESHOLD_SECS: u64 = 30;

/// The detection configuration for an agent kind. One shared ruleset
/// serves every kind today; the parameter is the extension point.
pub fn detection_for_agent(agent: &str) -> (r: DetectionConfig)
    ensures
        views_of(r.needs_input_patterns@) == default_patterns(),
        r.running_threshold_secs == DEFAULT_RUNNING_THRESHOLD_SECS,
        r.idle_threshold_secs == DEFAULT_IDLE_THRESHOLD_SECS,
{
    let _ = agent;
    let mut patterns: Vec<String> = Vec::new();
    patterns.push("\\[Y/n\\]".to_owned());
    patterns.push("\\[y/N\\]".to_owned());
    patterns.push("\\(y/N\\)".to_owned());
    patterns.push("\\(Y/n\\)".to_owned());
    patterns.push("Do you want to proceed".to_owned());
    patterns.push("Should I proceed".to_owned());
    patterns.push("Would you like me to".to_owned());
    patterns.push("Press enter to continue".to_owned());
    patterns.push("waiting for.*input".to_owned());
    patterns.push("^\\? ".to_owned());
    patterns.push("Enter to select.*Tab/Arrow".to_owned());
    patterns.push("Type your answer".to_owned());
    proof {
        assert(views_of(patterns@) =~= default_patterns());
    }
    DetectionConfig {
        needs_input_patterns: patterns,
        running_threshold_secs: DEFAULT_RUNNING_THRESHOLD_SECS,
        idle_threshold_secs: DEFAULT_IDLE_THRESHOLD_SECS,
    }
}

/// Law: output holding the needs-input sentinel classifies as
/// `NeedsInput`, whatever the age and whatever else matches.
pub proof fn lemma_needs_input_sentinel_wins(
    lines: Seq<Seq<char>>,
    pats: Seq<Seq<char>>,
    running_secs: u64,
    idle_secs: u64,
    age_secs: Option<u64>,
)
    requires
        any_line_contains(lines, NEEDS_INPUT_SENTINEL@),
    ensures
        spec_classify(lines, pats, running_secs, idle_secs, age_secs) == AgentStatus::NeedsInput,
{
}

/// Law: output holding the done sentinel and not the needs-input sentinel
/// classifies as `Done`, whatever the age and whatever else matches.
pub proof fn lemma_done_sentinel(
    lines: Seq<Seq<char>>,
    pats: Seq<Seq<char>>,
    running_secs: u64,
    idle_secs: u64,
    age_secs: Option<u64>,
)
    requires
        any_line_contains(lines, DONE_SENTINEL@),
        !any_line_contains(lines, NEEDS_INPUT_SENTINEL@),
    ensures
        spec_classify(lines, pats, running_secs, idle_secs, age_secs) == AgentStatus::Done,
{
}

/// Law: with no sentinel and no heuristic match, the default thresholds
/// give `Running` up to five seconds of age and `Idle` above it — both
/// between five and thirty seconds and beyond thirty, deliberately alike.
pub proof fn lemma_age_fallback(lines: Seq<Seq<char>>, pats: Seq<Seq<char>>, age: u64)
    requires
        !any_line_contains(lines, NEEDS_INPUT_SENTINEL@),
        !any_line_contains(lines, DONE_SENTINEL@),
        !any_pattern_match(lines, pats),
    ensures
        age <= DEFAULT_RUNNING_THRESHOLD_SECS ==> spec_classify(
            lines,
            pats,
            DEFAULT_RUNNING_THRESHOLD_SECS,
            DEFAULT_IDLE_THRESHOLD_SECS,
            Some(age),
        ) == AgentStatus::Running,
        DEFAULT_RUNNING_THRESHOLD_SECS < age <= DEFAULT_IDLE_THRESHOLD_SECS ==> spec_classify(
            lines,
            pats,
            DEFAULT_RUNNING_THRESHOLD_SECS,
            DEFAULT_IDLE_THRESHOLD_SECS,
            Some(age),
        ) == AgentStatus::Idle,
        age > DEFAULT_IDLE_THRESHOLD_SECS ==> spec_classify(
            lines,
            pats,
            DEFAULT_RUNNING_THRESHOLD_SECS,
            DEFAULT_IDLE_THRESHOLD_SECS,
            Some(age),
        ) == AgentStatus::Idle,
{
}

/// Law: with no line-based signal and no age signal at all, the
/// classification is `Unknown`.
pub proof fn lemma_no_signal_unknown(
    lines: Seq<Seq<char>>,
    pats: Seq<Seq<char>>,
    running_secs: u64,
    idle_secs: u64,
)
    requires
        !any_line_contains(lines, NEEDS_INPUT_SENTINEL@),
        !any_line_contains(lines, DONE_SENTINEL@),
        !any_pattern_match(lines, pats),
    ensures
        spec_classify(lines, pats, running_secs, idle_secs, None) == AgentStatus::Unknown,
{
}

} // verus!
