pub mod clock;
pub mod lists;
pub mod storage;
pub mod text;
