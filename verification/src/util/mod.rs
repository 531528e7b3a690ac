//! Small building blocks shared by the rest of the kernel.
pub mod bit_manipulation;
pub mod circular_array;
