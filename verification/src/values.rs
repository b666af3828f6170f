pub mod js_bool;
pub mod js_function;
pub mod js_number;
pub mod js_pointer;
pub mod js_string;
pub mod value_variant;
