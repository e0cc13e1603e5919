//! The logic of a disk-image utility, apart from its windows and from the
//! storage manager that it talks to.
//!
//! Two parts carry the weight. [`graph`] and [`unuse`] find everything that
//! is derived from a storage object (partitions, unlocked devices on top of
//! encrypted ones) and say in which order to unmount and lock it, so that the
//! object can be detached. [`image`], [`copy`], [`estimator`] and [`job`]
//! take an image file onto a block device: what the image is and whether it
//! fits, the order of reads, writes and clean-up, and the speed and time left
//! that are shown meanwhile.
//!
//! Whoever uses the library makes the calls to the storage manager, reads and
//! writes, and hands in what came of it; the library decides.

pub mod blocks;
pub mod copy;
pub mod dialog;
pub mod duration;
pub mod enums;
pub mod error;
pub mod estimator;
pub mod filesystems;
pub mod graph;
pub mod image;
pub mod job;
pub mod mounter;
pub mod options;
pub mod partitions;
pub mod restore;
pub mod text;
pub mod unuse;
