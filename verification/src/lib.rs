pub mod data;
pub mod forest;
pub mod heap;
pub mod io;
pub mod lcrs;
pub mod message;
pub mod model;
pub mod update;
pub mod view;
pub mod util;
pub mod zipper;
