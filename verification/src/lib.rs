//! Core of a field data logger: the framer that cuts the serial character
//! stream into command messages, the fixed-layout codec of the drivers'
//! configuration records, and the closed set of sensor drivers that a type
//! code selects.

pub mod command_recognizer;
pub mod drivers;
pub mod framing_laws;
pub mod rriv_board;
