//! Finding images through a web image search: reading the image records out of
//! a fetched results page, recognising the type of downloaded bytes, reserving
//! file names, and deciding what each download task does next.
//!
//! Nothing here touches the network or the disk. Callers fetch the page, probe
//! the directory and move the bytes; this crate decides what those steps mean.
//!
//! * `arguments`, `options`: what to search for, and the address to fetch.
//! * `query`: from the fetched page to the images and their addresses.
//! * `extract`, `json`, `scan`: how the page is read.
//! * `classify`: the file type of downloaded bytes.
//! * `reserve`: file name stems that are not in use.
//! * `pool`, `task`, `batch`: the tasks of a download and the candidates
//!   they share.
//! * `error`, `text`: failures, and small things about text.

pub mod arguments;
pub mod batch;
pub mod classify;
pub mod error;
pub mod extract;
pub mod json;
pub mod options;
pub mod pool;
pub mod query;
pub mod reserve;
pub mod scan;
pub mod task;
pub mod text;

pub use arguments::{build_url, Arguments};
pub use batch::gather;
pub use classify::classify;
pub use error::{DownloadError, Error};
pub use extract::Image;
pub use options::{Color, ColorType, Format, ImageType, License, Ratio, Time};
pub use pool::Pool;
pub use query::{candidates, search, urls};
pub use reserve::Reservation;
pub use task::{Phase, Task};
