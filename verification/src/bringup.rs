//! What the bring-up programs compute: audio loopbacks, the encoder test and the
//! microphone scope.

pub mod encoder_test;
pub mod loopback;
pub mod mic_test;
