//! A fixed-capacity array allocated once at construction, and a ring buffer
//! that keeps the newest pending values in one such array.
mod heap_array;
mod ring_buffer;

pub use heap_array::{
    clone_is_exact, is_copy_of, is_fill_of, lemma_copy_is_source, lemma_fill_is_value, HeapArray, IntoIter, Iter, IterMut,
    RuntimeArray,
};
pub use ring_buffer::{lemma_write_past_full, newest, RingBuffer};
