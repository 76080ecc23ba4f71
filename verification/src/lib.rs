//! Wire-level decoding for routing protocols: fallible reads of fixed-width fields from
//! a byte cursor, and the decoder of the AS path attribute built on them.
//!
//! Input from a peer is not trusted. Every read of a field says what it does when the
//! input is too short, and the AS path decoder returns a path or a named error for every
//! input there is.
use vstd::prelude::*;

pub mod as_path;
pub mod as_path_encode;
pub mod attr_type;
pub mod bytes_ext;
pub mod context;
pub mod cursor;
pub mod endian;
pub mod entropy;
pub mod fuzz;
pub mod ip;
pub mod mac_addr;
pub mod mpls;
