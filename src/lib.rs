//! Score-history analytics for rhythm-game save files: validation of parsed
//! score records, chronological ordering, and the derived statistical series.

pub mod datetime;
pub mod load;
pub mod progress;
pub mod savegame;
pub mod stats;
pub mod wifescore;

pub use datetime::DateTime;
pub use load::{
    validate_score, AccuracyField, LoadError, RawScore, RawSkillsets, ScoreFault, ScoreLocation,
};
pub use progress::{ProgressCallback, ProgressStep};
pub use savegame::{
    chronological_order, lemma_chronological_order_unique, lemma_chronological_scores_unique, Chart,
    PlayerScores, Score, ScoresAt, Skillsets7, Skillsets8, XmlData,
};
pub use stats::{
    acc_over_time, lemma_buckets_partition, lemma_series_deterministic, overall_column,
    skillsets_rows, timeline_input, AccRatingOverTime, SsrOverTime, XmlStats,
};
pub use wifescore::{Grade, Thresholds, Wifescore};
