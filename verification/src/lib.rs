//! Verified building blocks for small programs about owning and lending
//! values.
//!
//! - [`roster`]: two heroes, whose names are lent for a listing or handed
//!   over for good, and whose power levels are reset in place.
//! - [`title`]: a book title that is lent to be announced and stays with its
//!   owner.
//! - [`conversion`]: integers written as decimal text, and decimal text read
//!   as integers.
//! - [`text_set`]: a set of unique texts.
//! - [`movies`]: a set of movie titles, shown while lent and when handed
//!   over.
//! - [`text`]: comparing, joining and listing texts.
//!
//! Nothing here writes to a stream: a function that has something to say
//! returns the line, and the caller decides where it goes.

pub mod conversion;
pub mod movies;
pub mod roster;
pub mod text;
pub mod text_set;
pub mod title;
