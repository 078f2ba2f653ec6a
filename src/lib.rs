pub mod archive;
pub mod domain;
pub mod records;
pub mod restore;
pub mod snapshot;
pub mod table;
pub mod text;
pub mod transaction;
pub mod value;
