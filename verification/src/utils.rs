//! Target helpers under their customary paths.
pub use crate::dates::normalize_date;
pub use crate::net::{clean_targets, is_hostname, is_ip, is_public_ip};
