//! The conditions that the pipeline signals, and which of them end it.
//!
//! Losing samples at either end of a channel degrades the audio but is not
//! a failure: the samples are dropped or replaced by silence and the
//! pipeline goes on. A configuration that the sources do not share, or a
//! fault that the audio host raises for a device, is fatal.

use vstd::prelude::*;

verus! {

/// A condition signalled by the pipeline or to it.
#[derive(Clone, Copy, Debug, PartialEq, Eq, Structural)]
pub enum Fault {
    /// A captured block did not fit into its channel; the samples that did
    /// not fit were dropped.
    ProducerOverrun,
    /// The mixer found a channel empty; silence took the place of the
    /// missing samples.
    ConsumerUnderrun,
    /// The sources do not share one stream configuration.
    ConfigurationMismatch,
    /// The audio host reported a failure outside the sample path.
    DeviceFault,
}

impl Fault {
    /// Whether the condition ends the pipeline.
    pub open spec fn spec_is_fatal(self) -> bool {
        self is ConfigurationMismatch || self is DeviceFault
    }

    /// Whether the condition ends the pipeline.
    #[verifier::when_used_as_spec(spec_is_fatal)]
    pub fn is_fatal(self) -> (b: bool)
        ensures
            b == self.spec_is_fatal(),
    {
        match self {
            Fault::ProducerOverrun => false,
            Fault::ConsumerUnderrun => false,
            Fault::ConfigurationMismatch => true,
            Fault::DeviceFault => true,
        }
    }

    /// The diagnostic line for the condition.
    pub fn diagnostic(self) -> (line: &'static str)
        ensures
            self is ProducerOverrun ==> line@
                == "output stream fell behind: try increasing latency"@,
            self is ConsumerUnderrun ==> line@
                == "input stream fell behind: try increasing latency"@,
            self is ConfigurationMismatch ==> line@
                == "streams do not share one configuration"@,
            self is DeviceFault ==> line@ == "an error occurred on stream"@,
    {
        match self {
            Fault::ProducerOverrun => "output stream fell behind: try increasing latency",
            Fault::ConsumerUnderrun => "input stream fell behind: try increasing latency",
            Fault::ConfigurationMismatch => "streams do not share one configuration",
            Fault::DeviceFault => "an error occurred on stream",
        }
    }
}

} // verus!
