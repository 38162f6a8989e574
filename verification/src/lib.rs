pub mod buffer_pool;
pub mod clock_replacer;
pub mod codec;
pub mod disk_manager;
pub mod error;
pub mod header_laws;
pub mod header_page;
pub mod page;
pub mod serialization;
pub mod table_laws;
pub mod table_layout;
pub mod table_page;
pub mod table_proofs;
pub mod tuple;
