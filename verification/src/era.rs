//! Era names and boundaries.

use vstd::prelude::*;

verus! {

/// Cardano era names.
#[derive(Debug, Clone, Copy, PartialEq, Eq, Structural)]
pub enum Era {
    Byron,
    Shelley,
    Allegra,
    Mary,
    Alonzo,
    Babbage,
    Conway,
}

/// The wire spelling of an era name.
pub open spec fn era_str(e: Era) -> Seq<char> {
    match e {
        Era::Byron => "byron"@,
        Era::Shelley => "shelley"@,
        Era::Allegra => "allegra"@,
        Era::Mary => "mary"@,
        Era::Alonzo => "alonzo"@,
        Era::Babbage => "babbage"@,
        Era::Conway => "conway"@,
    }
}

impl Era {
    /// Get the era as a string.
    pub fn as_str(&self) -> (r: &'static str)
        ensures
            r@ == era_str(*self),
    {
        match self {
            Era::Byron => "byron",
            Era::Shelley => "shelley",
            Era::Allegra => "allegra",
            Era::Mary => "mary",
            Era::Alonzo => "alonzo",
            Era::Babbage => "babbage",
            Era::Conway => "conway",
        }
    }
}

/// Eras that have a genesis configuration.
#[derive(Debug, Clone, Copy, PartialEq, Eq, Structural)]
pub enum EraWithGenesis {
    Byron,
    Shelley,
    Alonzo,
    Conway,
}

/// The wire spelling of an era name with genesis.
pub open spec fn era_with_genesis_str(e: EraWithGenesis) -> Seq<char> {
    match e {
        EraWithGenesis::Byron => "byron"@,
        EraWithGenesis::Shelley => "shelley"@,
        EraWithGenesis::Alonzo => "alonzo"@,
        EraWithGenesis::Conway => "conway"@,
    }
}

impl EraWithGenesis {
    /// Get the era as a string.
    pub fn as_str(&self) -> (r: &'static str)
        ensures
            r@ == era_with_genesis_str(*self),
    {
        match self {
            EraWithGenesis::Byron => "byron",
            EraWithGenesis::Shelley => "shelley",
            EraWithGenesis::Alonzo => "alonzo",
            EraWithGenesis::Conway => "conway",
        }
    }
}

} // verus!
