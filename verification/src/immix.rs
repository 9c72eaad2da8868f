//! The heaps of a process, as far as a process relies on them: numbered
//! objects in buckets, counted in blocks of a fixed size.

pub mod bucket;
pub mod copy_object;
pub mod local_allocator;
pub mod mailbox_allocator;
pub mod permanent_allocator;
