pub mod overflow;
pub mod tool_loop;
