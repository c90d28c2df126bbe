//! Behavior dispatch: single-threaded processing of events and service
//! publications against the fact space and the trace.

pub mod dispatcher;
