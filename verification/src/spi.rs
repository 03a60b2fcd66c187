//! Failure taxonomy of the SPI transport; the device I/O itself lives with
//! the embedding program, which maps each OS-level failure into one of these
//! kinds before it reaches library callers.
use vstd::prelude::*;

verus! {

/// A failure of the SPI transport, tagged by layer.
#[derive(Debug)]
pub enum IonSpiConnError {
    /// The SPI device failed, with the OS error rendered as text.
    IoError(String),
    /// The ready-line GPIO failed.
    GpioError(String),
    /// The framing codec rejected a packet.
    PacketError(String),
}

impl From<String> for IonSpiConnError {
    /// A plain message names a GPIO failure, as the transport's ready-line
    /// polling reports them.
    fn from(err: String) -> (r: IonSpiConnError) {
        IonSpiConnError::GpioError(err)
    }
}

impl vstd::std_specs::convert::FromSpecImpl<String> for IonSpiConnError {
    open spec fn obeys_from_spec() -> bool {
        true
    }

    open spec fn from_spec(err: String) -> IonSpiConnError {
        IonSpiConnError::GpioError(err)
    }
}

impl IonSpiConnError {
    /// The failure's message.
    pub fn message(&self) -> (r: &String)
        ensures
            ({
                match self {
                    IonSpiConnError::IoError(m) => r@ == m@,
                    IonSpiConnError::GpioError(m) => r@ == m@,
                    IonSpiConnError::PacketError(m) => r@ == m@,
                }
            }),
    {
        match self {
            IonSpiConnError::IoError(m) => m,
            IonSpiConnError::GpioError(m) => m,
            IonSpiConnError::PacketError(m) => m,
        }
    }
}

} // verus!
