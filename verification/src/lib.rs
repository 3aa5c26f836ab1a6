//! State and rules of a small loan-application front end: the text a user
//! types into a form, the check that lets the form be submitted, the score
//! and status derived from the numbers in it, and the screens the
//! application moves through.
//!
//! Everything here is plain data and pure decisions. Rendering, timers and
//! event plumbing belong to the program that embeds this library.

pub mod amount;
pub mod counter;
pub mod form;
pub mod loading;
pub mod numeral;
pub mod score;
pub mod tabs;
pub mod workflow;
