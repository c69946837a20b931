//! The settings under which one type is processed.

use vstd::prelude::*;
use vstd::string::StringExecFns;

verus! {

/// The settings for one type. They are fixed before synthesis starts and
/// only read afterwards.
#[derive(Debug)]
pub struct Config {
    /// The name that the routine gives to the input that is still to read.
    pub input_name: String,
    /// Whether integers are big-endian where no annotation says otherwise.
    pub big_endian: bool,
    /// Whether the host should print the routine it emits.
    pub debug_derive: bool,
}

/// The settings, as characters.
pub struct ConfigView {
    pub input_name: Seq<char>,
    pub big_endian: bool,
    pub debug_derive: bool,
}

impl DeepView for Config {
    type V = ConfigView;

    open spec fn deep_view(&self) -> ConfigView {
        ConfigView {
            input_name: self.input_name@,
            big_endian: self.big_endian,
            debug_derive: self.debug_derive,
        }
    }
}

impl Default for Config {
    /// The input is called `i`, integers are big-endian, nothing is printed.
    fn default() -> (r: Config)
        ensures
            r.input_name@ == "i"@,
            r.big_endian,
            !r.debug_derive,
    {
        Config { input_name: String::from_str("i"), big_endian: true, debug_derive: false }
    }
}

impl Config {
    /// The name under which the routine keeps the input as it was handed
    /// over: `orig_` before the input's name.
    pub fn orig_input_name(&self) -> (r: String)
        ensures
            r@ == "orig_"@ + self.input_name@,
    {
        String::from_str("orig_").concat(self.input_name.as_str())
    }
}

} // verus!
