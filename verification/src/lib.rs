//! Push-to-talk voice over LoRa: the logic of the handset and of the repeater.
//!
//! The modules hold what the device decides and computes. Pins, buses, timers,
//! channels and threads are driven from outside: the state machines here take
//! events as plain values and answer with the action to perform.

pub mod app;
pub mod bringup;
pub mod codec;
pub mod conduct;
pub mod devices;
pub mod laws;
pub mod menu;
pub mod packet;
pub mod radio;
pub mod screens;
pub mod text;
pub mod transmission;
