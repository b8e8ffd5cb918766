//! The logic behind a website on which people subscribe to the stations of a
//! rail network.
//!
//! A subscriber shows that an email address is theirs by a one-time passcode
//! that is sent there ([`otp`], [`mail`], [`auth`]). What they may then ask for
//! ([`service`]) goes back and forth with the database one query at a time
//! ([`workflow`]). What comes of that is told by the contents of the tables
//! ([`tables`]).

pub mod address;
pub mod auth;
pub mod database;
pub mod error;
pub mod mail;
pub mod network;
pub mod otp;
pub mod outside;
pub mod selection;
pub mod service;
pub mod tables;
pub mod workflow;

pub use address::Address;
pub use auth::UserAuth;
pub use error::{send_outcome, Error};
pub use mail::{Mailbox, MessageTemplate, Submission};
pub use network::{clamp_conversion, get_lines, LineInfo, StationInfo};
pub use otp::{OneTimePasscode, OtpDb};
pub use selection::{
    delete_user_stations_not_in_list, filter_out_stations, get_stations_from_names,
};
pub use service::{
    get_stations, submit_email, unsubscribe, update_subscription, update_user_stations, AppState,
    Subscription,
};
