//! Fetches batches of wallpapers from a remote photo catalog, stores them in a
//! local folder and keeps that folder under a size budget by removing the
//! oldest files first.
//!
//! The network, the file system and the configuration files are driven by the
//! application; this library holds the decisions: which requests to make and in
//! which order, how per-photo results are collected, where a photo is stored
//! and which files are evicted.
mod acquire;
mod catalog;
mod config;
mod error;
mod evict;
mod models;
mod params;
mod storage;

pub use acquire::{
    advance, collected, complete, lemma_failure_isolated, lemma_one_outcome_each,
    lemma_report_before_fetch, run, started, Batch, BatchView, DownloadView, Exchange, Outcome,
    PhotoDownload, Stage,
};
pub use catalog::{
    acceptance, auth_text, authorization, check_status, delivery, filter_params, header_char,
    header_safe, is_success, photos_url, topic_url, Reply, Request,
};
pub use config::{Config, DEFAULT_MAX_SIZE};
pub use error::{Error, Result};
pub use evict::{
    age_of, evicted_before, eviction_plan, in_plan, is_eviction_plan, lemma_eviction_fits,
    lemma_eviction_idempotent, lemma_eviction_noop, plan_size, readable, size_of, survivors,
    survivors_upto, total_size, StoredEntry,
};
pub use models::{Photo, PhotoView, Topic};
pub use params::{
    decimal, digit_char, download_params, extension_of, fetch_params, format_params, param_view,
    params_view, resolution_params, to_decimal, Download, Fetch, Format, Query, QueryParam,
    Resolution,
};
pub use storage::{file_name, file_name_of};
