//! Online inference of a typist's cognitive state (Flow, Incubation, Stuck)
//! from keystroke timing.
//!
//! Key events go to the [`features::FeatureExtractor`], which keeps a bounded
//! history and derives six behavioural features from its trailing window.
//! The features are normalised against the baseline of the input context and
//! projected onto two latent axes ([`baseline`]). The
//! [`engine::CognitiveStateEngine`] smooths the latent point, turns it into an
//! observation and updates its belief by one forward step of a hidden Markov
//! model ([`hmm`]). What holds of every update is proved in [`laws`]. The
//! steps of the ingestion loop are in [`pipeline`].
//!
//! All real-valued quantities are held as unsigned fixed-point integers, so
//! that every arithmetic step is exact and its result can be stated in a
//! contract: behavioural features count millionths ([`baseline::MICRO`]),
//! normalised scores and probabilities count parts per 10^12
//! ([`baseline::ONE`]).
//!
//! Around the inference stand the decisions of its collaborators: the
//! keyboard and input-method adapters ([`input`]), the session log
//! ([`session`]) and the unlock server of the wall ([`wall`]), with the byte
//! strings ([`text`]) and digits ([`digits`]) they are written in.

pub mod baseline;
pub mod digits;
pub mod engine;
pub mod features;
pub mod hmm;
pub mod input;
pub mod laws;
pub mod pipeline;
pub mod sample;
pub mod session;
pub mod text;
pub mod wall;
pub mod window;
