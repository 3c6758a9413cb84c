pub mod spanned;
pub mod float_bits;
