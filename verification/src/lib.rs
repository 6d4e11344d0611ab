//! Account-management core: a normalized user store with transactional
//! creation and aggregated reads, and a deterministic greeting composer.

pub mod api;
pub mod db;
pub mod logger;
pub mod user_info_formatter;
