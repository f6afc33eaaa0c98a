//! Decision logic for collecting race results from paginated listings.
//!
//! A remote browser shows the result listing of a race; this library decides
//! what to make of what the browser shows. It reads no page and clicks no
//! button itself: whoever holds the browser session hands it the texts that
//! were read and does what it answers.
//!
//! - [`duration`], [`number`], [`text`] and [`scan`] read the values that
//!   listings hold: clock times, ranks, and pieces of text and markup.
//! - [`row`] says what becomes of a row, and gathers the rows of a page.
//! - [`pagination`] is the walk from page to page, [`filter`] the choice of an
//!   option in a filter, [`driver`] the retried click, [`grouper`] the fold of
//!   rows under status headings.
//! - [`options`] holds what the operator asks for, [`registry`] the site and
//!   listing that a request comes to.
//! - [`athlinks`], [`chronotrack`], [`its_your_race`], [`runsignup`] and
//!   [`ultrasignup`] know the listings of one site each.

pub mod athlinks;
pub mod chronotrack;
pub mod driver;
pub mod duration;
pub mod filter;
pub mod grouper;
pub mod its_your_race;
pub mod number;
pub mod options;
pub mod pagination;
pub mod registry;
pub mod row;
pub mod runsignup;
pub mod scan;
pub mod text;
pub mod ultrasignup;
