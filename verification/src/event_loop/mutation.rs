//! Warnings about mutation testing. Scores come as they are written, with two decimals.
use crate::text::opt_text;
use vstd::prelude::*;

verus! {

/// How mutation testing ended.
#[derive(Debug, Clone, Copy, PartialEq, Eq, Structural)]
pub enum MutationStatus {
    Pass,
    Warn,
    Fail,
    Unknown,
}

/// A mutation score.
#[derive(Debug)]
pub struct MutationScore {
    /// The score in percent, with two decimals.
    pub text: String,
    /// Whether the score is below the threshold, where there is one.
    pub below_threshold: bool,
}

/// What an event tells of mutation testing.
#[derive(Debug)]
pub struct MutationEvidence {
    pub status: MutationStatus,
    pub score: Option<MutationScore>,
}

/// A message, with the score behind it where there is one.
pub open spec fn mutation_message(message: Seq<char>, score: Option<MutationScore>) -> Seq<char> {
    match score {
        Some(score) => message + " ("@ + score.text@ + "%)"@,
        None => message,
    }
}

/// Why mutation testing is worth a warning: it failed, warned or has no known status; or it passed
/// with a score that is missing or below the threshold.
pub open spec fn mutation_reason(
    mutants: MutationEvidence,
    threshold: Option<Seq<char>>,
) -> Option<Seq<char>> {
    match mutants.status {
        MutationStatus::Fail => Some("mutation testing failed"@),
        MutationStatus::Warn => Some(
            mutation_message("mutation score below threshold"@, mutants.score),
        ),
        MutationStatus::Unknown => Some("mutation testing status unknown"@),
        MutationStatus::Pass => match (threshold, mutants.score) {
            (Some(limit), Some(score)) => if score.below_threshold {
                Some("mutation score "@ + score.text@ + "% below threshold "@ + limit + "%"@)
            } else {
                None
            },
            (Some(limit), None) => Some("mutation score missing (threshold "@ + limit + "%)"@),
            (None, _) => None,
        },
    }
}

/// Puts the score behind a message, where there is one.
pub fn format_mutation_message(message: &str, score: &Option<MutationScore>) -> (r: String)
    ensures
        r@ == mutation_message(message@, *score),
{
    let mut r = message.to_owned();
    match score {
        Some(score) => {
            r.append(" (");
            r.append(score.text.as_str());
            r.append("%)");
        },
        None => {},
    }
    r
}

/// Tells why mutation testing is worth a warning.
pub fn mutation_warning_reason(mutants: &MutationEvidence, threshold: Option<&str>) -> (r: Option<
    String,
>)
    ensures
        opt_text(r) == mutation_reason(
            *mutants,
            match threshold {
                Some(limit) => Some(limit@),
                None => None,
            },
        ),
{
    match mutants.status {
        MutationStatus::Fail => Some("mutation testing failed".to_owned()),
        MutationStatus::Warn => Some(
            format_mutation_message("mutation score below threshold", &mutants.score),
        ),
        MutationStatus::Unknown => Some("mutation testing status unknown".to_owned()),
        MutationStatus::Pass => {
            let limit = match threshold {
                Some(limit) => limit,
                None => {
                    return None;
                },
            };
            match &mutants.score {
                Some(score) => {
                    if !score.below_threshold {
                        return None;
                    }
                    let mut r = "mutation score ".to_owned();
                    r.append(score.text.as_str());
                    r.append("% below threshold ");
                    r.append(limit);
                    r.append("%");
                    Some(r)
                },
                None => {
                    let mut r = "mutation score missing (threshold ".to_owned();
                    r.append(limit);
                    r.append("%)");
                    Some(r)
                },
            }
        },
    }
}

/// Why mutation testing is warned of, with what evidence there is.
pub open spec fn mutation_warning(
    mutants: Option<MutationEvidence>,
    threshold: Option<Seq<char>>,
) -> Option<Seq<char>> {
    match mutants {
        Some(mutants) => mutation_reason(mutants, threshold),
        None => if threshold is Some {
            Some("missing mutation evidence in build.done payload"@)
        } else {
            None
        },
    }
}

/// Tells the warning that a finished build gets about mutation testing: the reason that its
/// evidence gives, or that evidence is missing although there is a threshold.
pub fn warn_on_mutation_evidence(mutants: Option<&MutationEvidence>, threshold: Option<&str>) -> (r:
    Option<String>)
    ensures
        opt_text(r) == (match mutants {
            Some(mutants) => mutation_reason(
                *mutants,
                match threshold {
                    Some(limit) => Some(limit@),
                    None => None,
                },
            ),
            None => if threshold is Some {
                Some("missing mutation evidence in build.done payload"@)
            } else {
                None
            },
        }),
        opt_text(r) == mutation_warning(
            match mutants {
                Some(mutants) => Some(*mutants),
                None => None,
            },
            match threshold {
                Some(limit) => Some(limit@),
                None => None,
            },
        ),
{
    match mutants {
        Some(mutants) => mutation_warning_reason(mutants, threshold),
        None => match threshold {
            Some(_) => Some("missing mutation evidence in build.done payload".to_owned()),
            None => None,
        },
    }
}

} // verus!
