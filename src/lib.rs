//! Pull-based bridges over lazy, possibly infinite producers: a Fibonacci
//! cursor, a timer-paced variant of it, and a page fetcher with fail-open and
//! fail-closed error policies. Each producer is advanced one item per pull and
//! reports a value, the end of the sequence, or a failure.
pub mod bridge;
pub mod error;
pub mod fetcher;
pub mod fibonacci;
pub mod paced;
