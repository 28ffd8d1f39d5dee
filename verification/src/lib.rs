//! Verified core of the CyberOrto garden robot: the quadrature encoders of the
//! stepper motors, the motor alignment arithmetic, the sine lookup used to drive
//! the motor phases, the serial framing of the master/slave protocol, the
//! serial-port selection and the action queue of the orchestrator.

pub mod encoder;
pub mod arith;
pub mod motor;
pub mod math;
pub mod text;
pub mod serial;
pub mod action;
pub mod queue;
pub mod protocol;
pub mod api;
