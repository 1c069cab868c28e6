pub mod result;
