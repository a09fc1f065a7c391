//! Execution core of a small bytecode virtual machine.
//!
//! - `value`, `array_entry_type`: the tagged values of the machine and the
//!   element types of arrays.
//! - `array`: managed arrays over raw byte storage, one slot of eight bytes
//!   for each element.
//! - `value_stack`: the bounded operand stack of a method activation.
//! - `class`, `class_manager`: classes, and their resolution by name from
//!   the definitions of the class path.
//! - `object`, `gc`: object instances, and the allocator that owns every
//!   object and array and hands out handles to them.
//! - `call_frame`, `call_stack`, `native_methods_registry`: the frames of
//!   the activations in progress, and the native methods of the host.
//! - `text`: the code units of texts.
//! - `vm`: the orchestrator. What only the host can do, executing a frame
//!   or running a native method, it hands out as the next thing to be done,
//!   and takes back what that gave.

pub mod vm_error;
pub mod class;
pub mod array_entry_type;
pub mod value;
pub mod array;
pub mod value_stack;
pub mod object;
pub mod gc;
pub mod class_manager;
pub mod class_and_method;
pub mod exceptions;
pub mod call_frame;
pub mod call_stack;
pub mod native_methods_registry;
pub mod text;
pub mod vm;
