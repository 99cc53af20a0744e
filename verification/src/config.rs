//! The immutable configuration of one derivation request.

use vstd::prelude::*;

verus! {

/// The hash function that drives each round.
#[derive(Debug, Clone, Copy, PartialEq, Eq, Structural)]
pub enum HashAlgorithm {
    MD5,
    SHA512,
}

/// The generator variant: it selects the substitution table and the policy
/// that a final password has to meet.
#[derive(Debug, Clone, Copy, PartialEq, Eq, Structural)]
pub enum GeneratorType {
    KGPG,
    SGP,
}

/// Everything a derivation reads besides the URL and the master password.
///
/// A configuration is assembled once per request and only read afterwards.
/// The engine accepts every value of every field: a `length` that the chosen
/// hash cannot supply is reported when the derivation is attempted.
#[derive(Debug, Clone, Copy, PartialEq, Eq, Structural)]
pub struct Config {
    pub generator_type: GeneratorType,
    pub strip_subdomain: bool,
    pub hash_algorithm: HashAlgorithm,
    pub length: u8,
    pub hops: u8,
}

/// The KGPG preset as a mathematical value.
pub open spec fn kgpg_preset() -> Config {
    Config {
        generator_type: GeneratorType::KGPG,
        strip_subdomain: true,
        hash_algorithm: HashAlgorithm::SHA512,
        length: 15,
        hops: 15,
    }
}

/// The SGP preset as a mathematical value.
pub open spec fn sgp_preset() -> Config {
    Config {
        generator_type: GeneratorType::SGP,
        strip_subdomain: true,
        hash_algorithm: HashAlgorithm::SHA512,
        length: 10,
        hops: 10,
    }
}

/// The configuration that `Config::default()` returns.
pub open spec fn default_config() -> Config {
    Config {
        generator_type: GeneratorType::KGPG,
        strip_subdomain: true,
        hash_algorithm: HashAlgorithm::MD5,
        length: 15,
        hops: 15,
    }
}

impl Default for Config {
    fn default() -> (config: Config)
        ensures
            config == default_config(),
    {
        Config {
            generator_type: GeneratorType::KGPG,
            strip_subdomain: true,
            hash_algorithm: HashAlgorithm::MD5,
            length: 15,
            hops: 15,
        }
    }
}

impl Config {
    /// The stricter, symbol-bearing preset: SHA-512, 15 characters, 15 hops.
    pub fn kgpg() -> (config: Config)
        ensures
            config == kgpg_preset(),
    {
        Config {
            generator_type: GeneratorType::KGPG,
            strip_subdomain: true,
            hash_algorithm: HashAlgorithm::SHA512,
            length: 15,
            hops: 15,
        }
    }

    /// The looser, alphanumeric preset: SHA-512, 10 characters, 10 hops.
    pub fn sgp() -> (config: Config)
        ensures
            config == sgp_preset(),
    {
        Config {
            generator_type: GeneratorType::SGP,
            strip_subdomain: true,
            hash_algorithm: HashAlgorithm::SHA512,
            length: 10,
            hops: 10,
        }
    }

    /// The same configuration with another generator variant.
    pub fn with_generator_type(self, generator_type: GeneratorType) -> (config: Config)
        ensures
            config == (Config { generator_type, ..self }),
    {
        Config { generator_type, ..self }
    }

    /// The same configuration with subdomain stripping switched on or off.
    pub fn with_strip_subdomain(self, strip: bool) -> (config: Config)
        ensures
            config == (Config { strip_subdomain: strip, ..self }),
    {
        Config { strip_subdomain: strip, ..self }
    }

    /// The same configuration with another hash function.
    pub fn with_hash_algorithm(self, algorithm: HashAlgorithm) -> (config: Config)
        ensures
            config == (Config { hash_algorithm: algorithm, ..self }),
    {
        Config { hash_algorithm: algorithm, ..self }
    }

    /// The same configuration with another output length.
    pub fn with_length(self, length: u8) -> (config: Config)
        ensures
            config == (Config { length, ..self }),
    {
        Config { length, ..self }
    }

    /// The same configuration with another number of hops.
    pub fn with_hops(self, hops: u8) -> (config: Config)
        ensures
            config == (Config { hops, ..self }),
    {
        Config { hops, ..self }
    }
}

} // verus!
