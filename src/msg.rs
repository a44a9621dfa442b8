use vstd::prelude::*;

verus! {

/// A message on a ring edge. The protocol is phased, so a receiver always
/// knows which variant comes next; the tag serves the transport.
#[derive(Clone, Copy, Debug)]
pub enum Msg<T> {
    /// A termination flag of the handshake.
    Done(bool),
    /// A migrating individual, or the winner of the best-propagation pass.
    Phenotype(T),
    /// The best utility of the best-propagation pass.
    Best(u32),
}

/// A message of another variant than the phase expects.
#[derive(Clone, Copy, Debug, PartialEq, Eq, Structural)]
pub enum ProtocolError {
    /// A termination flag was expected.
    NotDone,
    /// An individual was expected.
    NotPhenotype,
    /// A best utility was expected.
    NotBest,
    /// The worker has finished and expects nothing more.
    Finished,
}

impl<T> Msg<T> {
    /// The flag of a `Done` message.
    pub fn unwrap_done(self) -> (r: Result<bool, ProtocolError>)
        ensures
            match self {
                Msg::Done(b) => r == Ok::<bool, ProtocolError>(b),
                _ => r == Err::<bool, ProtocolError>(ProtocolError::NotDone),
            },
    {
        match self {
            Msg::Done(b) => Ok(b),
            _ => Err(ProtocolError::NotDone),
        }
    }

    /// The individual of a `Phenotype` message.
    pub fn unwrap_pheno(self) -> (r: Result<T, ProtocolError>)
        ensures
            match self {
                Msg::Phenotype(p) => r == Ok::<T, ProtocolError>(p),
                _ => r == Err::<T, ProtocolError>(ProtocolError::NotPhenotype),
            },
    {
        match self {
            Msg::Phenotype(p) => Ok(p),
            _ => Err(ProtocolError::NotPhenotype),
        }
    }

    /// The utility of a `Best` message.
    pub fn unwrap_best(self) -> (r: Result<u32, ProtocolError>)
        ensures
            match self {
                Msg::Best(b) => r == Ok::<u32, ProtocolError>(b),
                _ => r == Err::<u32, ProtocolError>(ProtocolError::NotBest),
            },
    {
        match self {
            Msg::Best(b) => Ok(b),
            _ => Err(ProtocolError::NotBest),
        }
    }
}

} // verus!
