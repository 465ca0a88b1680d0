//! Decoding policy: the field separator and the checksum switch.

use vstd::prelude::*;

verus! {

/// The separator that the FIX standard prescribes: `SOH`.
pub const SOH: u8 = 0x1;

/// The policy that a decoder consults. Implementors are pure: the two
/// answers depend on the value alone.
pub trait Configure: Clone + Default {
    /// The byte that ends every field, as a specification.
    spec fn spec_separator(&self) -> u8;

    /// Whether `CheckSum <10>` is compared against the bytes, as a
    /// specification.
    spec fn spec_verify_checksum(&self) -> bool;

    /// The byte that ends every field.
    fn separator(&self) -> (separator: u8)
        ensures
            separator == self.spec_separator(),
    ;

    /// Whether the value of `CheckSum <10>` is compared against the bytes
    /// that precede it.
    fn verify_checksum(&self) -> (verify: bool)
        ensures
            verify == self.spec_verify_checksum(),
    ;
}

/// The stock [`Configure`] implementor.
#[derive(Debug, Copy, Clone)]
pub struct Config {
    separator: u8,
    verify_checksum: bool,
}

impl Config {
    /// Changes the field separator. The default is `SOH`; tools and logs
    /// often put `|` in its place.
    pub fn set_separator(&mut self, separator: u8)
        ensures
            final(self).spec_separator() == separator,
            final(self).spec_verify_checksum() == old(self).spec_verify_checksum(),
    {
        self.separator = separator;
    }

    /// Turns checksum verification on or off. It is on by default.
    pub fn set_verify_checksum(&mut self, verify: bool)
        ensures
            final(self).spec_verify_checksum() == verify,
            final(self).spec_separator() == old(self).spec_separator(),
    {
        self.verify_checksum = verify;
    }
}

impl Configure for Config {
    closed spec fn spec_separator(&self) -> u8 {
        self.separator
    }

    closed spec fn spec_verify_checksum(&self) -> bool {
        self.verify_checksum
    }

    fn separator(&self) -> (separator: u8) {
        self.separator
    }

    fn verify_checksum(&self) -> (verify: bool) {
        self.verify_checksum
    }
}

impl Default for Config {
    fn default() -> (config: Self)
        ensures
            config.spec_separator() == SOH,
            config.spec_verify_checksum(),
    {
        Config { separator: SOH, verify_checksum: true }
    }
}

} // verus!
