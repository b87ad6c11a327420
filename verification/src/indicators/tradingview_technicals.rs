//! Third-party technical-rating snapshot.
//!
//! The surrounding process fetches the summary, moving-average and
//! oscillator recommendation scores (real numbers in about -1..1,
//! carried here in fixed point) and hands them in as a snapshot; a
//! missing or failed fetch hands in no scores.  `calculate` grades
//! each score into a discrete recommendation.

use vstd::prelude::*;
use crate::fixed::SCALE;

verus! {

/// The three recommendation scores of one snapshot, each scaled by
/// [`SCALE`] (so 0.5 is stored as 5000).
#[derive(Clone, Copy, Debug, PartialEq, Eq, Structural)]
pub struct TechnicalScores {
    pub summary: i64,
    pub ma: i64,
    pub oscillator: i64,
}

/// One score's grade: +-1 for a moderate reading, +-2 for a strong
/// one, 0 otherwise.
pub open spec fn grade(score: int) -> int {
    if score > 5000 && score < 7000 {
        1
    } else if score > 7000 {
        2
    } else if score < -5000 && score > -7000 {
        -1
    } else if score < -7000 {
        -2
    } else {
        0
    }
}

/// A technical-rating snapshot: the scores, or nothing when the fetch
/// failed or was never made.
#[derive(Clone, Debug)]
pub struct TradingTechnicals {
    pub values: Option<TechnicalScores>,
}

impl TradingTechnicals {
    /// The grades of the snapshot's three scores, as a spec value.
    pub open spec fn grades_spec(&self) -> (int, int, int) {
        match self.values {
            Option::Some(v) => (grade(v.summary as int), grade(v.ma as int),
                grade(v.oscillator as int)),
            Option::None => (0, 0, 0),
        }
    }

    /// A snapshot holding the given scores.
    pub fn from_scores(values: Option<TechnicalScores>) -> (r: Self)
        ensures
            r.values == values,
    {
        TradingTechnicals { values }
    }

    /// Grades the snapshot: summary, moving-average and oscillator
    /// recommendations, each in -2..=2.
    pub fn calculate(&mut self) -> (r: (i64, i64, i64))
        ensures
            final(self).values == old(self).values,
            r.0 as int == old(self).grades_spec().0,
            r.1 as int == old(self).grades_spec().1,
            r.2 as int == old(self).grades_spec().2,
    {
        match &self.values {
            Some(v) => {
                let summary_signal = Self::grade_score(v.summary);
                let ma_signal = Self::grade_score(v.ma);
                let osc_signal = Self::grade_score(v.oscillator);
                (summary_signal, ma_signal, osc_signal)
            },
            None => (0, 0, 0),
        }
    }

    fn grade_score(score: i64) -> (r: i64)
        ensures
            r as int == grade(score as int),
    {
        if score > 5000 && score < 7000 {
            1
        } else if score > 7000 {
            2
        } else if score < -5000 && score > -7000 {
            -1
        } else if score < -7000 {
            -2
        } else {
            0
        }
    }

    /// Forgets the snapshot.
    pub fn reset(&mut self)
        ensures
            final(self).values is None,
    {
        self.values = None;
    }
}

} // verus!
