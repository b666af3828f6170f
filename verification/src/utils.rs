pub mod chars;
pub mod list_node;
pub mod memory_addresses;
pub mod propery_path;
