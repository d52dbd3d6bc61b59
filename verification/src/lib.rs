//! A client for a KVM dongle: a capture device, a serial keyboard bridge and a sound card that
//! hang on one USB plug.
//!
//! [`discovery`] finds the nodes that belong to one dongle, [`capture`] turns the device's JPEGs
//! into pictures, [`audio`] moves sound from the device to the speakers, and [`cli`] holds the
//! commands. What is here decides; threads, devices and files belong to the program around it,
//! which hands in what happened and carries out what comes back.

pub mod audio;
pub mod capture;
pub mod cli;
pub mod clock;
pub mod count;
pub mod discovery;
pub mod errno;
pub mod names;
pub mod path;
pub mod text;
pub mod wording;
