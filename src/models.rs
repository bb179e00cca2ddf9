//! The closed vocabularies of the platform: processor architectures, cloud
//! providers, regulatory regions and the APIs that restrictions apply to.

use vstd::prelude::*;

use crate::text::{chars_eq, chars_of, fold_seq, folded_chars};

verus! {

/// A name that no variant carries.
#[derive(Clone, Copy, Debug, PartialEq, Eq)]
pub struct UnknownName;

/// The processor architecture a Flight wants to run on; names are read without regard to ASCII case.
#[derive(Clone, Copy, Debug, PartialEq, Eq, Hash, Structural)]
pub enum Architecture {
    AMD64,
    ARM64,
}

impl Architecture {
    /// The name under which the variant is written and read.
    pub open spec fn spec_name(self) -> Seq<char> {
        match self {
            Architecture::AMD64 => seq!['A', 'M', 'D', '6', '4'],
            Architecture::ARM64 => seq!['A', 'R', 'M', '6', '4'],
        }
    }

    /// The variant whose name equals `s` up to ASCII case.
    pub open spec fn parse_spec(s: Seq<char>) -> Option<Architecture> {
        if fold_seq(s) == fold_seq(Architecture::AMD64.spec_name()) {
            Some(Architecture::AMD64)
        } else if fold_seq(s) == fold_seq(Architecture::ARM64.spec_name()) {
            Some(Architecture::ARM64)
        } else {
            None
        }
    }

    /// The variant that `s` names.
    pub fn from_name(s: &str) -> (r: Option<Architecture>)
        ensures
            r == Architecture::parse_spec(s@),
    {
        let input = folded_chars(s);
        assert(fold_seq(Architecture::AMD64.spec_name()) =~= seq!['a', 'm', 'd', '6', '4']);
        assert(fold_seq(Architecture::ARM64.spec_name()) =~= seq!['a', 'r', 'm', '6', '4']);
        if chars_eq(&input, &vec!['a', 'm', 'd', '6', '4']) {
            return Some(Architecture::AMD64);
        }
        if chars_eq(&input, &vec!['a', 'r', 'm', '6', '4']) {
            return Some(Architecture::ARM64);
        }
        None
    }

    /// The name of the variant.
    pub fn as_str(&self) -> (r: &'static str)
        ensures
            r@ == self.spec_name(),
    {
        match self {
            Architecture::AMD64 => {
                proof {
                    reveal_strlit("AMD64");
                }
                "AMD64"
            },
            Architecture::ARM64 => {
                proof {
                    reveal_strlit("ARM64");
                }
                "ARM64"
            },
        }
    }
}

impl core::str::FromStr for Architecture {
    type Err = UnknownName;

    fn from_str(s: &str) -> Result<Architecture, UnknownName> {
        match Architecture::from_name(s) {
            Some(v) => Ok(v),
            None => Err(UnknownName),
        }
    }
}

/// A backing cloud provider used to restrict data placement; names are read without regard to ASCII case.
#[derive(Clone, Copy, Debug, PartialEq, Eq, Hash, Structural)]
pub enum Provider {
    AWS,
    Azure,
    DigitalOcean,
    Equinix,
    GCP,
}

impl Provider {
    /// The name under which the variant is written and read.
    pub open spec fn spec_name(self) -> Seq<char> {
        match self {
            Provider::AWS => seq!['A', 'W', 'S'],
            Provider::Azure => seq!['A', 'z', 'u', 'r', 'e'],
            Provider::DigitalOcean => seq!['D', 'i', 'g', 'i', 't', 'a', 'l', 'O', 'c', 'e', 'a', 'n'],
            Provider::Equinix => seq!['E', 'q', 'u', 'i', 'n', 'i', 'x'],
            Provider::GCP => seq!['G', 'C', 'P'],
        }
    }

    /// The variant whose name equals `s` up to ASCII case.
    pub open spec fn parse_spec(s: Seq<char>) -> Option<Provider> {
        if fold_seq(s) == fold_seq(Provider::AWS.spec_name()) {
            Some(Provider::AWS)
        } else if fold_seq(s) == fold_seq(Provider::Azure.spec_name()) {
            Some(Provider::Azure)
        } else if fold_seq(s) == fold_seq(Provider::DigitalOcean.spec_name()) {
            Some(Provider::DigitalOcean)
        } else if fold_seq(s) == fold_seq(Provider::Equinix.spec_name()) {
            Some(Provider::Equinix)
        } else if fold_seq(s) == fold_seq(Provider::GCP.spec_name()) {
            Some(Provider::GCP)
        } else {
            None
        }
    }

    /// The variant that `s` names.
    pub fn from_name(s: &str) -> (r: Option<Provider>)
        ensures
            r == Provider::parse_spec(s@),
    {
        let input = folded_chars(s);
        assert(fold_seq(Provider::AWS.spec_name()) =~= seq!['a', 'w', 's']);
        assert(fold_seq(Provider::Azure.spec_name()) =~= seq!['a', 'z', 'u', 'r', 'e']);
        assert(fold_seq(Provider::DigitalOcean.spec_name()) =~= seq!['d', 'i', 'g', 'i', 't', 'a', 'l', 'o', 'c', 'e', 'a', 'n']);
        assert(fold_seq(Provider::Equinix.spec_name()) =~= seq!['e', 'q', 'u', 'i', 'n', 'i', 'x']);
        assert(fold_seq(Provider::GCP.spec_name()) =~= seq!['g', 'c', 'p']);
        if chars_eq(&input, &vec!['a', 'w', 's']) {
            return Some(Provider::AWS);
        }
        if chars_eq(&input, &vec!['a', 'z', 'u', 'r', 'e']) {
            return Some(Provider::Azure);
        }
        if chars_eq(&input, &vec!['d', 'i', 'g', 'i', 't', 'a', 'l', 'o', 'c', 'e', 'a', 'n']) {
            return Some(Provider::DigitalOcean);
        }
        if chars_eq(&input, &vec!['e', 'q', 'u', 'i', 'n', 'i', 'x']) {
            return Some(Provider::Equinix);
        }
        if chars_eq(&input, &vec!['g', 'c', 'p']) {
            return Some(Provider::GCP);
        }
        None
    }

    /// The name of the variant.
    pub fn as_str(&self) -> (r: &'static str)
        ensures
            r@ == self.spec_name(),
    {
        match self {
            Provider::AWS => {
                proof {
                    reveal_strlit("AWS");
                }
                "AWS"
            },
            Provider::Azure => {
                proof {
                    reveal_strlit("Azure");
                }
                "Azure"
            },
            Provider::DigitalOcean => {
                proof {
                    reveal_strlit("DigitalOcean");
                }
                "DigitalOcean"
            },
            Provider::Equinix => {
                proof {
                    reveal_strlit("Equinix");
                }
                "Equinix"
            },
            Provider::GCP => {
                proof {
                    reveal_strlit("GCP");
                }
                "GCP"
            },
        }
    }
}

impl core::str::FromStr for Provider {
    type Err = UnknownName;

    fn from_str(s: &str) -> Result<Provider, UnknownName> {
        match Provider::from_name(s) {
            Some(v) => Ok(v),
            None => Err(UnknownName),
        }
    }
}

/// A regulatory region used to restrict data placement; names are read without regard to ASCII case.
#[derive(Clone, Copy, Debug, PartialEq, Eq, Hash, Structural)]
pub enum Region {
    /// Asia
    XA,
    /// People's Republic of China
    XC,
    /// Europe
    XE,
    /// Africa
    XF,
    /// North America
    XN,
    /// Oceania
    XO,
    /// Antarctica
    XQ,
    /// South America
    XS,
    /// The UK
    XU,
}

impl Region {
    /// The name under which the variant is written and read.
    pub open spec fn spec_name(self) -> Seq<char> {
        match self {
            Region::XA => seq!['X', 'A'],
            Region::XC => seq!['X', 'C'],
            Region::XE => seq!['X', 'E'],
            Region::XF => seq!['X', 'F'],
            Region::XN => seq!['X', 'N'],
            Region::XO => seq!['X', 'O'],
            Region::XQ => seq!['X', 'Q'],
            Region::XS => seq!['X', 'S'],
            Region::XU => seq!['X', 'U'],
        }
    }

    /// The variant whose name equals `s` up to ASCII case.
    pub open spec fn parse_spec(s: Seq<char>) -> Option<Region> {
        if fold_seq(s) == fold_seq(Region::XA.spec_name()) {
            Some(Region::XA)
        } else if fold_seq(s) == fold_seq(Region::XC.spec_name()) {
            Some(Region::XC)
        } else if fold_seq(s) == fold_seq(Region::XE.spec_name()) {
            Some(Region::XE)
        } else if fold_seq(s) == fold_seq(Region::XF.spec_name()) {
            Some(Region::XF)
        } else if fold_seq(s) == fold_seq(Region::XN.spec_name()) {
            Some(Region::XN)
        } else if fold_seq(s) == fold_seq(Region::XO.spec_name()) {
            Some(Region::XO)
        } else if fold_seq(s) == fold_seq(Region::XQ.spec_name()) {
            Some(Region::XQ)
        } else if fold_seq(s) == fold_seq(Region::XS.spec_name()) {
            Some(Region::XS)
        } else if fold_seq(s) == fold_seq(Region::XU.spec_name()) {
            Some(Region::XU)
        } else {
            None
        }
    }

    /// The variant that `s` names.
    pub fn from_name(s: &str) -> (r: Option<Region>)
        ensures
            r == Region::parse_spec(s@),
    {
        let input = folded_chars(s);
        assert(fold_seq(Region::XA.spec_name()) =~= seq!['x', 'a']);
        assert(fold_seq(Region::XC.spec_name()) =~= seq!['x', 'c']);
        assert(fold_seq(Region::XE.spec_name()) =~= seq!['x', 'e']);
        assert(fold_seq(Region::XF.spec_name()) =~= seq!['x', 'f']);
        assert(fold_seq(Region::XN.spec_name()) =~= seq!['x', 'n']);
        assert(fold_seq(Region::XO.spec_name()) =~= seq!['x', 'o']);
        assert(fold_seq(Region::XQ.spec_name()) =~= seq!['x', 'q']);
        assert(fold_seq(Region::XS.spec_name()) =~= seq!['x', 's']);
        assert(fold_seq(Region::XU.spec_name()) =~= seq!['x', 'u']);
        if chars_eq(&input, &vec!['x', 'a']) {
            return Some(Region::XA);
        }
        if chars_eq(&input, &vec!['x', 'c']) {
            return Some(Region::XC);
        }
        if chars_eq(&input, &vec!['x', 'e']) {
            return Some(Region::XE);
        }
        if chars_eq(&input, &vec!['x', 'f']) {
            return Some(Region::XF);
        }
        if chars_eq(&input, &vec!['x', 'n']) {
            return Some(Region::XN);
        }
        if chars_eq(&input, &vec!['x', 'o']) {
            return Some(Region::XO);
        }
        if chars_eq(&input, &vec!['x', 'q']) {
            return Some(Region::XQ);
        }
        if chars_eq(&input, &vec!['x', 's']) {
            return Some(Region::XS);
        }
        if chars_eq(&input, &vec!['x', 'u']) {
            return Some(Region::XU);
        }
        None
    }

    /// The name of the variant.
    pub fn as_str(&self) -> (r: &'static str)
        ensures
            r@ == self.spec_name(),
    {
        match self {
            Region::XA => {
                proof {
                    reveal_strlit("XA");
                }
                "XA"
            },
            Region::XC => {
                proof {
                    reveal_strlit("XC");
                }
                "XC"
            },
            Region::XE => {
                proof {
                    reveal_strlit("XE");
                }
                "XE"
            },
            Region::XF => {
                proof {
                    reveal_strlit("XF");
                }
                "XF"
            },
            Region::XN => {
                proof {
                    reveal_strlit("XN");
                }
                "XN"
            },
            Region::XO => {
                proof {
                    reveal_strlit("XO");
                }
                "XO"
            },
            Region::XQ => {
                proof {
                    reveal_strlit("XQ");
                }
                "XQ"
            },
            Region::XS => {
                proof {
                    reveal_strlit("XS");
                }
                "XS"
            },
            Region::XU => {
                proof {
                    reveal_strlit("XU");
                }
                "XU"
            },
        }
    }
}

impl core::str::FromStr for Region {
    type Err = UnknownName;

    fn from_str(s: &str) -> Result<Region, UnknownName> {
        match Region::from_name(s) {
            Some(v) => Ok(v),
            None => Err(UnknownName),
        }
    }
}

/// An API of the data coordination service that a restriction applies to; names are lower case.
#[derive(Clone, Copy, Debug, PartialEq, Eq, Hash, Structural)]
pub enum Api {
    Locks,
    Config,
}

impl Api {
    /// The name under which the variant is written and read.
    pub open spec fn spec_name(self) -> Seq<char> {
        match self {
            Api::Locks => seq!['l', 'o', 'c', 'k', 's'],
            Api::Config => seq!['c', 'o', 'n', 'f', 'i', 'g'],
        }
    }

    /// The variant whose name equals `s`.
    pub open spec fn parse_spec(s: Seq<char>) -> Option<Api> {
        if s == Api::Locks.spec_name() {
            Some(Api::Locks)
        } else if s == Api::Config.spec_name() {
            Some(Api::Config)
        } else {
            None
        }
    }

    /// The variant that `s` names.
    pub fn from_name(s: &str) -> (r: Option<Api>)
        ensures
            r == Api::parse_spec(s@),
    {
        let input = chars_of(s);
        let name = vec!['l', 'o', 'c', 'k', 's'];
        assert(name@ =~= Api::Locks.spec_name());
        if chars_eq(&input, &name) {
            return Some(Api::Locks);
        }
        let name = vec!['c', 'o', 'n', 'f', 'i', 'g'];
        assert(name@ =~= Api::Config.spec_name());
        if chars_eq(&input, &name) {
            return Some(Api::Config);
        }
        None
    }

    /// The name of the variant.
    pub fn as_str(&self) -> (r: &'static str)
        ensures
            r@ == self.spec_name(),
    {
        match self {
            Api::Locks => {
                proof {
                    reveal_strlit("locks");
                }
                "locks"
            },
            Api::Config => {
                proof {
                    reveal_strlit("config");
                }
                "config"
            },
        }
    }
}

impl core::str::FromStr for Api {
    type Err = UnknownName;

    fn from_str(s: &str) -> Result<Api, UnknownName> {
        match Api::from_name(s) {
            Some(v) => Ok(v),
            None => Err(UnknownName),
        }
    }
}

} // verus!
