//! An addressable grid of color slots: a hierarchical (page, line, column)
//! address space, a cursor-driven wrap-around allocator, directly assigned
//! and derived color elements, lazily initialized per-group metadata with
//! hook callbacks, and the byte-stream contract of a concrete palette format.

pub mod address;
pub mod assoc;
pub mod color;
pub mod element;
pub mod error;
pub mod metadata;
pub mod slotmap;
pub mod hooks;
pub mod data;
pub mod zpl;
