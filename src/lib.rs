//! A catalogue of submitted memes grouped into named museums: a primary
//! store of memes keyed by id and a secondary index from museum name to the
//! ids appended under it, kept in step by a single creation operation.

pub mod index;
pub mod museum;
pub mod record;
pub mod store;
