//! The logic of a test runner whose tests are Lua scripts: how a test file is
//! named, which tests run, how nested tests report and fail, how their
//! background processes are stopped, how command output is shaped, and how the
//! JSON helpers offered to scripts compare and match values.

pub mod text;
pub mod test_file;
pub mod script_error;
pub mod json;
pub mod context;
pub mod process;
pub mod fetch;
pub mod random;
