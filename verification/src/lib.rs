//! Runtime core of a small actor-style virtual machine: bytecode decoding,
//! execution contexts, processes and worker threads.

pub mod byte_stream;
pub mod bytecode_parser;
pub mod compiled_code;
pub mod instruction;
pub mod object_pointer;
pub mod register;
pub mod binding;
pub mod execution_context;
pub mod message;
pub mod call_frame;
pub mod queue;
pub mod work_deque;
pub mod immix;
pub mod object;
pub mod object_value;
pub mod process;
pub mod thread;
