//! Streaming batch construction for language-model training data: task
//! specific accumulators that turn token-id sequences into fixed-shape
//! batches, together with the decisions of the stages that drive them.
pub mod grid;
pub mod sampling;
pub mod masked_data;
pub mod gpt_data;
pub mod t5_data;
pub mod dataset;
pub mod provider;
pub mod config;
pub mod batcher;
pub mod masking_cases;
pub mod masking_endpoint;
pub mod tokenizer_holder;
