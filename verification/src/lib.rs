//! Booking logic of a QR-code based time-slot selector: the request handlers'
//! decisions, the booking transaction, the e-mail texts, the token encodings
//! and the pages' view models, each with its contract.
pub mod text;
pub mod token;
pub mod db;
pub mod api;
pub mod email;
pub mod pages;
pub mod views;
