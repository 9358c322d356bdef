pub mod systick;
pub mod timer;
