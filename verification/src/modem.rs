//! The cellular-modem client's state and decision logic.
//!
//! The bus calls themselves (property reads, method calls, modem-path
//! discovery) are carried out by the caller; their outcomes are handed in as
//! plain values, and everything the client decides from them is here.
use vstd::prelude::*;

verus! {

/// A failure of the modem client, tagged by layer.
#[derive(Debug)]
pub enum IonModemCliError {
    ModemError(String),
    ConnectionError(String),
    MethodCallError(String),
    SendError(String),
    ResponseError(String),
}

/// LTE reference-signal readings, when the modem reports them.
#[derive(Debug, Clone, Copy, PartialEq, Eq, Structural)]
pub struct LteSignalStrength {
    /// Reference Signal Received Power, in whole dBm.
    pub rsrp: Option<i32>,
    /// Reference Signal Received Quality, in whole dB.
    pub rsrq: Option<i32>,
}

impl Default for LteSignalStrength {
    /// No readings yet.
    fn default() -> (r: Self)
        ensures
            r.rsrp is None,
            r.rsrq is None,
    {
        LteSignalStrength { rsrp: None, rsrq: None }
    }
}

/// The modem client: bus coordinates, the discovered modem path, and the
/// recheck schedule.
pub struct IonModemCli {
    destination: String,
    object: String,
    modem: String,
    ready: bool,
    last_check_ms: u64,
    check_interval_ms: u64,
}

impl IonModemCli {
    /// The configured bus destination.
    pub closed spec fn spec_destination(self) -> Seq<char> {
        self.destination@
    }

    /// The configured manager object path.
    pub closed spec fn spec_object(self) -> Seq<char> {
        self.object@
    }

    /// The discovered modem object path; empty until discovery succeeds.
    pub closed spec fn spec_modem(self) -> Seq<char> {
        self.modem@
    }

    /// Whether the client considers the modem usable.
    pub closed spec fn spec_ready(self) -> bool {
        self.ready
    }

    /// When the modem path was last rechecked, in milliseconds.
    pub closed spec fn spec_last_check_ms(self) -> u64 {
        self.last_check_ms
    }

    /// How often the modem path is rechecked, in milliseconds.
    pub closed spec fn spec_check_interval_ms(self) -> u64 {
        self.check_interval_ms
    }

    /// A client for the given coordinates, not yet ready, rechecking every
    /// ten seconds.
    pub fn new(destination: String, object: String, modem: String) -> (r: Self)
        ensures
            r.spec_destination() == destination@,
            r.spec_object() == object@,
            r.spec_modem() == modem@,
            !r.spec_ready(),
            r.spec_last_check_ms() == 0,
            r.spec_check_interval_ms() == 10000,
    {
        IonModemCli {
            destination,
            object,
            modem,
            ready: false,
            last_check_ms: 0,
            check_interval_ms: 10000,
        }
    }

    /// Take a modem-path discovery outcome: a found path is adopted; a failed
    /// discovery is a modem error.
    pub fn modem_preparing(&mut self, detection: Option<String>) -> (r: Result<
        (),
        IonModemCliError,
    >)
        ensures
            (r is Ok) == (detection is Some),
            detection matches Some(p) ==> final(self).spec_modem() == p@
                && final(self).spec_ready() == old(self).spec_ready(),
            detection is None ==> *final(self) == *old(self) && (r matches Err(e) ==> e
                is ModemError),
    {
        match detection {
            Some(path) => {
                self.modem = path;
                Ok(())
            },
            None => Err(IonModemCliError::ModemError("Failed to prepare modem".to_owned())),
        }
    }

    /// Whether the client considers the modem usable.
    pub fn is_ready(&self) -> (r: bool)
        ensures
            r == self.spec_ready(),
    {
        self.ready
    }

    /// Signal quality is not reported on this bus interface.
    pub fn get_signal_quality(&self) -> (r: u32)
        ensures
            r == 0,
    {
        0
    }

    /// Take one readiness poll. A client that is not ready adopts a
    /// discovered path and becomes ready, or stays as it is. A ready client
    /// rechecks once per interval: an unchanged path keeps it ready, a
    /// changed path is adopted but drops readiness, and a failed discovery
    /// drops both readiness and path. Yields the readiness after the poll.
    pub fn waiting_for_ready(&mut self, now_ms: u64, detection: Option<String>) -> (r: bool)
        ensures
            r == final(self).spec_ready(),
            final(self).spec_destination() == old(self).spec_destination(),
            final(self).spec_object() == old(self).spec_object(),
            final(self).spec_check_interval_ms() == old(self).spec_check_interval_ms(),
            !old(self).spec_ready() ==> ({
                &&& final(self).spec_last_check_ms() == old(self).spec_last_check_ms()
                &&& match detection {
                    Some(p) => final(self).spec_ready() && final(self).spec_modem() == p@,
                    None => !final(self).spec_ready()
                        && final(self).spec_modem() == old(self).spec_modem(),
                }
            }),
            old(self).spec_ready() ==> ({
                let due = now_ms >= old(self).spec_last_check_ms()
                    && now_ms - old(self).spec_last_check_ms()
                    >= old(self).spec_check_interval_ms();
                if due {
                    &&& final(self).spec_last_check_ms() == now_ms
                    &&& match detection {
                        Some(p) => if p@ == old(self).spec_modem() {
                            final(self).spec_ready()
                                && final(self).spec_modem() == old(self).spec_modem()
                        } else {
                            !final(self).spec_ready() && final(self).spec_modem() == p@
                        },
                        None => !final(self).spec_ready() && final(self).spec_modem()
                            == Seq::<char>::empty(),
                    }
                } else {
                    *final(self) == *old(self)
                }
            }),
    {
        if !self.ready {
            match detection {
                Some(path) => {
                    self.modem = path;
                    self.ready = true;
                },
                None => {
                    return false;
                },
            }
        } else {
            if now_ms >= self.last_check_ms && now_ms - self.last_check_ms
                >= self.check_interval_ms {
                self.last_check_ms = now_ms;
                match detection {
                    Some(path) => {
                        if path == self.modem {
                            self.ready = true;
                        } else {
                            self.ready = false;
                            self.modem = path;
                        }
                    },
                    None => {
                        self.ready = false;
                        self.modem = String::new();
                    },
                }
            }
        }
        self.ready
    }
}

impl Default for IonModemCli {
    /// The stock manager coordinates, not yet ready.
    fn default() -> (r: Self)
        ensures
            r.spec_destination() == "org.freedesktop.ModemManager1"@,
            r.spec_object() == "/org/freedesktop/ModemManager1"@,
            r.spec_modem() == Seq::<char>::empty(),
            !r.spec_ready(),
            r.spec_last_check_ms() == 0,
            r.spec_check_interval_ms() == 10000,
    {
        IonModemCli {
            destination: "org.freedesktop.ModemManager1".to_owned(),
            object: "/org/freedesktop/ModemManager1".to_owned(),
            modem: String::new(),
            ready: false,
            last_check_ms: 0,
            check_interval_ms: 10000,
        }
    }
}

/// Whether a location-capability mask has the GPS-NMEA bit set; the modem's
/// location service counts as enabled exactly then.
pub fn location_enabled_from_mask(locationmask: u32) -> (r: bool)
    ensures
        r == ((locationmask & 4) != 0),
{
    (locationmask & 4) != 0
}

/// Whether a modem state word has the enabled bit set.
pub fn modem_enabled_from_state(modemmask: i32) -> (r: bool)
    ensures
        r == ((modemmask & 8) != 0),
{
    (modemmask & 8) != 0
}

} // verus!
