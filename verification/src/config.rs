//! The configuration of a search, and the reading of addresses and hashes
//! from text.

use vstd::prelude::*;
use vstd::string::*;
use vstd::utf8::encode_utf8;

use crate::ascii::{CH_0, CH_9, CH_LOWER_A, CH_LOWER_F, CH_LOWER_X, CH_UPPER_A, CH_UPPER_F};
use crate::checksum::{has_0x, without_0x};
use crate::errors::ErrorKind;
use crate::decimal::{parse_decimal, parsed_decimal};
use crate::hexcode::{hex_decode, hex_decoded, is_hex_digit, is_hex_text};
use crate::without_prefix;
use crate::hit::Predicate;
use crate::kernel::zero_bytes;

verus! {

/// What is searched for, on which device, and where the finds go.
///
/// `factory_address` is the deployer that will call CREATE2 and
/// `init_code_hash` the Keccak-256 hash of the code it deploys.
/// `calling_address` is kept for callers that pass it; it does not enter the
/// hash. A non-empty `starts_with` asks for addresses whose lowercase hex form
/// begins with it; otherwise addresses are scored by their leading and
/// trailing `1` digits, of which `min_leading_ones` and `min_trailing_ones`
/// are asked for at least.
#[derive(Clone, Debug)]
pub struct Config {
    pub factory_address: [u8; 20],
    pub calling_address: [u8; 20],
    pub init_code_hash: [u8; 32],
    pub gpu_device: u32,
    pub platform_id: u32,
    pub leading_zeroes_threshold: u8,
    pub total_zeroes_threshold: u8,
    pub prefix: Option<String>,
    pub starts_with: String,
    pub ends_with: String,
    pub case_sensitive: bool,
    pub min_leading_ones: u8,
    pub min_trailing_ones: u8,
    pub output_file: String,
}

/// `b` is one of `0..9`, `a..f`.
pub open spec fn is_lower_hex_digit(b: u8) -> bool {
    (CH_0 <= b <= CH_9) || (CH_LOWER_A <= b <= CH_LOWER_F)
}

/// The text can be the prefix of an address in lowercase hex: at most forty
/// lowercase hex digits.
pub open spec fn is_hex_prefix(text: Seq<u8>) -> bool {
    &&& text.len() <= 40
    &&& forall|i: int| 0 <= i < text.len() ==> is_lower_hex_digit(#[trigger] text[i])
}

/// The bytes fitted to a width: the first `width` of them where there are
/// that many, else zero bytes before them.
pub open spec fn fitted(bytes: Seq<u8>, width: nat) -> Seq<u8> {
    if bytes.len() >= width {
        bytes.take(width as int)
    } else {
        zero_bytes((width - bytes.len()) as nat) + bytes
    }
}

/// The hex digits of an address or a hash given as text: what follows `0x`,
/// if the text begins with it, after a `0` where that is an odd number of characters.
pub open spec fn even_digits(text: Seq<u8>) -> Seq<u8> {
    let digits = without_0x(text);
    if digits.len() % 2 == 1 {
        seq![CH_0] + digits
    } else {
        digits
    }
}

/// The bytes that a text of hex digits stands for, fitted to `width`, where
/// the text is hex digits after an optional `0x`.
pub open spec fn parsed_bytes(text: Seq<u8>, width: nat) -> Option<Seq<u8>> {
    if is_hex_text(even_digits(text)) {
        Some(fitted(hex_decoded(even_digits(text)), width))
    } else {
        None
    }
}

/// The text begins with the characters `0x`.
pub open spec fn begins_with_0x(text: Seq<char>) -> bool {
    text.len() >= 2 && text[0] == '0' && text[1] == 'x'
}

/// The text without the `0x` that it begins with, if it does.
pub open spec fn stripped(text: Seq<char>) -> Seq<char> {
    if begins_with_0x(text) {
        text.subrange(2, text.len() as int)
    } else {
        text
    }
}

/// The bytes of an argument after its `0x`, if it has one.
pub open spec fn argument_bytes(argument: String) -> Seq<u8> {
    encode_utf8(stripped(argument@))
}

/// Every byte is a hex digit of either case.
pub open spec fn all_hex_digits(text: Seq<u8>) -> bool {
    forall|i: int| 0 <= i < text.len() ==> is_hex_digit(#[trigger] text[i])
}

/// What is wrong with the arguments of a command line.
#[derive(Clone, Copy, Debug, PartialEq, Eq)]
pub enum ArgumentFault {
    /// The factory address is not given.
    MissingFactoryAddress,
    /// The calling address is not given.
    MissingCallingAddress,
    /// The init code hash is not given.
    MissingInitCodeHash,
    /// The factory address is not an even number of hex digits.
    FactoryAddressNotHex,
    /// The calling address is not an even number of hex digits.
    CallingAddressNotHex,
    /// The init code hash is not an even number of hex digits.
    InitCodeHashNotHex,
    /// The factory address is not twenty bytes.
    FactoryAddressLength,
    /// The calling address is not twenty bytes.
    CallingAddressLength,
    /// The init code hash is not thirty-two bytes.
    InitCodeHashLength,
    /// The device is not a number that fits in thirty-two bits.
    GpuDevice,
    /// The prefix holds something else than hex digits.
    PrefixNotHex,
}

impl ArgumentFault {
    /// The message for each fault.
    pub open spec fn message_text(&self) -> Seq<char> {
        match self {
            ArgumentFault::MissingFactoryAddress => "didn't get a factory_address argument."@,
            ArgumentFault::MissingCallingAddress => "didn't get a calling_address argument."@,
            ArgumentFault::MissingInitCodeHash => "didn't get an init_code_hash argument."@,
            ArgumentFault::FactoryAddressNotHex => "could not decode factory address argument."@,
            ArgumentFault::CallingAddressNotHex => "could not decode calling address argument."@,
            ArgumentFault::InitCodeHashNotHex => "could not decode initialization code hash argument."@,
            ArgumentFault::FactoryAddressLength => "invalid length for factory address argument."@,
            ArgumentFault::CallingAddressLength => "invalid length for calling address argument."@,
            ArgumentFault::InitCodeHashLength => "invalid length for initialization code hash argument."@,
            ArgumentFault::GpuDevice => "invalid gpu device value."@,
            ArgumentFault::PrefixNotHex => "prefix must contain only valid hexadecimal characters"@,
        }
    }

    /// The message for the fault.
    pub fn message(&self) -> (text: &'static str)
        ensures
            text@ == self.message_text(),
    {
        match self {
            ArgumentFault::MissingFactoryAddress => "didn't get a factory_address argument.",
            ArgumentFault::MissingCallingAddress => "didn't get a calling_address argument.",
            ArgumentFault::MissingInitCodeHash => "didn't get an init_code_hash argument.",
            ArgumentFault::FactoryAddressNotHex => "could not decode factory address argument.",
            ArgumentFault::CallingAddressNotHex => "could not decode calling address argument.",
            ArgumentFault::InitCodeHashNotHex => "could not decode initialization code hash argument.",
            ArgumentFault::FactoryAddressLength => "invalid length for factory address argument.",
            ArgumentFault::CallingAddressLength => "invalid length for calling address argument.",
            ArgumentFault::InitCodeHashLength => "invalid length for initialization code hash argument.",
            ArgumentFault::GpuDevice => "invalid gpu device value.",
            ArgumentFault::PrefixNotHex => "prefix must contain only valid hexadecimal characters",
        }
    }
}

/// The first fault of a command line, in the order in which the arguments
/// are examined: the three required arguments are there; each is hex digits;
/// each has its length; the device, if given, is a number; the prefix, if
/// given, is hex digits.
pub open spec fn first_fault(args: Seq<String>) -> Option<ArgumentFault> {
    if args.len() < 2 {
        Some(ArgumentFault::MissingFactoryAddress)
    } else if args.len() < 3 {
        Some(ArgumentFault::MissingCallingAddress)
    } else if args.len() < 4 {
        Some(ArgumentFault::MissingInitCodeHash)
    } else if !is_hex_text(argument_bytes(args[1])) {
        Some(ArgumentFault::FactoryAddressNotHex)
    } else if !is_hex_text(argument_bytes(args[2])) {
        Some(ArgumentFault::CallingAddressNotHex)
    } else if !is_hex_text(argument_bytes(args[3])) {
        Some(ArgumentFault::InitCodeHashNotHex)
    } else if argument_bytes(args[1]).len() != 40 {
        Some(ArgumentFault::FactoryAddressLength)
    } else if argument_bytes(args[2]).len() != 40 {
        Some(ArgumentFault::CallingAddressLength)
    } else if argument_bytes(args[3]).len() != 64 {
        Some(ArgumentFault::InitCodeHashLength)
    } else if args.len() > 4 && parsed_decimal(encode_utf8(args[4]@), u32::MAX as nat) is None {
        Some(ArgumentFault::GpuDevice)
    } else if args.len() > 5 && !all_hex_digits(argument_bytes(args[5])) {
        Some(ArgumentFault::PrefixNotHex)
    } else {
        None
    }
}

/// The configuration is the one that a faultless command line gives: the
/// program's name, the factory address, the calling address, the init code
/// hash, and then, if given, the device and a prefix. Without a device it is
/// device 255; the thresholds are zero with a prefix, and seven and five without.
pub open spec fn is_configured_by(config: Config, args: Seq<String>) -> bool {
    &&& args.len() >= 4
    &&& config.factory_address@ == hex_decoded(argument_bytes(args[1]))
    &&& config.calling_address@ == hex_decoded(argument_bytes(args[2]))
    &&& config.init_code_hash@ == hex_decoded(argument_bytes(args[3]))
    &&& if args.len() > 4 {
        parsed_decimal(encode_utf8(args[4]@), u32::MAX as nat) == Some(config.gpu_device as nat)
    } else {
        config.gpu_device == 255
    }
    &&& config.platform_id == 0
    &&& if args.len() > 5 {
        &&& config.prefix matches Some(prefix)
        &&& prefix@ == stripped(args[5]@)
        &&& config.leading_zeroes_threshold == 0
        &&& config.total_zeroes_threshold == 0
    } else {
        &&& config.prefix is None
        &&& config.leading_zeroes_threshold == 7
        &&& config.total_zeroes_threshold == 5
    }
    &&& config.starts_with@ == Seq::<char>::empty()
    &&& config.ends_with@ == Seq::<char>::empty()
    &&& !config.case_sensitive
    &&& config.min_leading_ones == 4
    &&& config.min_trailing_ones == 4
    &&& config.output_file@ == "results.csv"@
}

/// Tells whether a text begins with the characters `0x`.
pub fn starts_with_0x(text: &str) -> (yes: bool)
    ensures
        yes == begins_with_0x(text@),
{
    text.unicode_len() >= 2 && text.get_char(0) == '0' && text.get_char(1) == 'x'
}

/// An argument without the `0x` that it begins with, if it does.
pub fn strip_argument(argument: &String) -> (rest: String)
    ensures
        rest@ == stripped(argument@),
{
    if starts_with_0x(argument.as_str()) {
        without_prefix(argument.clone())
    } else {
        argument.clone()
    }
}

/// Tells whether every byte is a hex digit of either case.
pub fn check_hex_digits(text: &[u8]) -> (ok: bool)
    ensures
        ok == all_hex_digits(text@),
{
    let mut i: usize = 0;
    while i < text.len()
        invariant
            i <= text@.len(),
            forall|k: int| 0 <= k < i ==> is_hex_digit(#[trigger] text@[k]),
        decreases text@.len() - i,
    {
        let c: u8 = text[i];
        if !((CH_0 <= c && c <= CH_9) || (CH_LOWER_A <= c && c <= CH_LOWER_F) || (CH_UPPER_A <= c
            && c <= CH_UPPER_F)) {
            assert(!is_hex_digit(text@[i as int]));
            return false;
        }
        i += 1;
    }
    true
}

impl Config {
    /// Validate the arguments of a command line, the program's name first,
    /// and construct the configuration. The first fault found is reported by
    /// its message.
    pub fn new(args: Vec<String>) -> (made: Result<Config, &'static str>)
        ensures
            match made {
                Ok(config) => first_fault(args@) is None && is_configured_by(config, args@),
                Err(message) => first_fault(args@) matches Some(fault) && message@
                    == fault.message_text(),
            },
    {
        let n: usize = args.len();
        if n < 2 {
            return Err(ArgumentFault::MissingFactoryAddress.message());
        }
        if n < 3 {
            return Err(ArgumentFault::MissingCallingAddress.message());
        }
        if n < 4 {
            return Err(ArgumentFault::MissingInitCodeHash.message());
        }
        let factory_address_string = strip_argument(&args[1]);
        let calling_address_string = strip_argument(&args[2]);
        let init_code_hash_string = strip_argument(&args[3]);
        let prefix_string: Option<String> = if n > 5 {
            Some(strip_argument(&args[5]))
        } else {
            None
        };
        let (leading_zeroes_threshold, total_zeroes_threshold): (u8, u8) = if n > 5 {
            (0, 0)
        } else {
            (7, 5)
        };
        let factory_address_vec = match hex_decode(factory_address_string.as_str().as_bytes()) {
            Ok(bytes) => bytes,
            Err(_) => {
                return Err(ArgumentFault::FactoryAddressNotHex.message());
            },
        };
        let calling_address_vec = match hex_decode(calling_address_string.as_str().as_bytes()) {
            Ok(bytes) => bytes,
            Err(_) => {
                return Err(ArgumentFault::CallingAddressNotHex.message());
            },
        };
        let init_code_hash_vec = match hex_decode(init_code_hash_string.as_str().as_bytes()) {
            Ok(bytes) => bytes,
            Err(_) => {
                return Err(ArgumentFault::InitCodeHashNotHex.message());
            },
        };
        if factory_address_vec.len() != 20 {
            return Err(ArgumentFault::FactoryAddressLength.message());
        }
        if calling_address_vec.len() != 20 {
            return Err(ArgumentFault::CallingAddressLength.message());
        }
        if init_code_hash_vec.len() != 32 {
            return Err(ArgumentFault::InitCodeHashLength.message());
        }
        assert(factory_address_vec@.subrange(0, 20) =~= factory_address_vec@);
        assert(calling_address_vec@.subrange(0, 20) =~= calling_address_vec@);
        assert(init_code_hash_vec@.subrange(0, 32) =~= init_code_hash_vec@);
        let factory_address = crate::to_fixed_20(factory_address_vec);
        let calling_address = crate::to_fixed_20(calling_address_vec);
        let init_code_hash = crate::to_fixed_32(init_code_hash_vec);
        let gpu_device: u32 = if n > 4 {
            match parse_decimal(args[4].as_str().as_bytes(), 0xffff_ffff) {
                Some(device) => device as u32,
                None => {
                    return Err(ArgumentFault::GpuDevice.message());
                },
            }
        } else {
            255
        };
        let prefix: Option<String> = match prefix_string {
            Some(prefix_str) => {
                if !check_hex_digits(prefix_str.as_str().as_bytes()) {
                    return Err(ArgumentFault::PrefixNotHex.message());
                }
                Some(prefix_str)
            },
            None => None,
        };
        Ok(
            Config {
                factory_address,
                calling_address,
                init_code_hash,
                gpu_device,
                platform_id: 0,
                leading_zeroes_threshold,
                total_zeroes_threshold,
                prefix,
                starts_with: String::new(),
                ends_with: String::new(),
                case_sensitive: false,
                min_leading_ones: 4,
                min_trailing_ones: 4,
                output_file: String::from_str("results.csv"),
            },
        )
    }

    /// The configuration asks for a prefix: `starts_with` is not empty.
    pub open spec fn asks_for_prefix(&self) -> bool {
        encode_utf8(self.starts_with@).len() > 0
    }

    /// `predicate` is what the configuration searches for: the prefix in
    /// `starts_with` where there is one, else the two minima of `1` digits.
    pub open spec fn searches_for(&self, predicate: Predicate) -> bool {
        match predicate {
            Predicate::PrefixMatch { hex_prefix } => {
                &&& self.asks_for_prefix()
                &&& hex_prefix@ == encode_utf8(self.starts_with@)
            },
            Predicate::VanityOnes { min_leading, min_trailing } => {
                &&& !self.asks_for_prefix()
                &&& min_leading == self.min_leading_ones
                &&& min_trailing == self.min_trailing_ones
            },
        }
    }

    /// What the configuration searches for. A prefix that is not lowercase
    /// hex digits, or that is longer than an address, is refused.
    pub fn predicate(&self) -> (predicate: Result<Predicate, ErrorKind>)
        ensures
            match predicate {
                Ok(predicate) => {
                    &&& self.searches_for(predicate)
                    &&& self.asks_for_prefix() ==> is_hex_prefix(
                        encode_utf8(self.starts_with@),
                    )
                },
                Err(kind) => {
                    &&& kind == ErrorKind::ConfigInvalid
                    &&& self.asks_for_prefix()
                    &&& !is_hex_prefix(encode_utf8(self.starts_with@))
                },
            },
    {
        let text = self.starts_with.as_str().as_bytes();
        let n: usize = text.len();
        if n == 0 {
            return Ok(
                Predicate::VanityOnes {
                    min_leading: self.min_leading_ones,
                    min_trailing: self.min_trailing_ones,
                },
            );
        }
        if n > 40 {
            return Err(ErrorKind::ConfigInvalid);
        }
        let mut hex_prefix: Vec<u8> = Vec::with_capacity(n);
        let mut i: usize = 0;
        while i < n
            invariant
                i <= n,
                0 < n <= 40,
                n == text@.len(),
                text@ == encode_utf8(self.starts_with@),
                hex_prefix@ == text@.take(i as int),
                forall|k: int| 0 <= k < i ==> is_lower_hex_digit(#[trigger] text@[k]),
            decreases n - i,
        {
            let c: u8 = text[i];
            if !((CH_0 <= c && c <= CH_9) || (CH_LOWER_A <= c && c <= CH_LOWER_F)) {
                assert(!is_lower_hex_digit(text@[i as int]));
                return Err(ErrorKind::ConfigInvalid);
            }
            hex_prefix.push(c);
            i += 1;
            assert(hex_prefix@ =~= text@.take(i as int));
        }
        assert(text@.take(n as int) =~= text@);
        Ok(Predicate::PrefixMatch { hex_prefix })
    }

    /// The same configuration for another device.
    pub fn with_device(&self, platform_id: u32, gpu_device: u32) -> (config: Config)
        ensures
            config == (Config { platform_id, gpu_device, ..*self }),
    {
        let prefix = match &self.prefix {
            Some(prefix) => Some(prefix.clone()),
            None => None,
        };
        Config {
            factory_address: self.factory_address,
            calling_address: self.calling_address,
            init_code_hash: self.init_code_hash,
            gpu_device,
            platform_id,
            leading_zeroes_threshold: self.leading_zeroes_threshold,
            total_zeroes_threshold: self.total_zeroes_threshold,
            prefix,
            starts_with: self.starts_with.clone(),
            ends_with: self.ends_with.clone(),
            case_sensitive: self.case_sensitive,
            min_leading_ones: self.min_leading_ones,
            min_trailing_ones: self.min_trailing_ones,
            output_file: self.output_file.clone(),
        }
    }
}

/// Reads bytes from hex text and fits them to `width`.
fn parse_fitted(text: &[u8], width: usize) -> (bytes: Result<Vec<u8>, ErrorKind>)
    ensures
        match bytes {
            Ok(bytes) => parsed_bytes(text@, width as nat) == Some(bytes@),
            Err(kind) => kind == ErrorKind::ConfigInvalid && parsed_bytes(text@, width as nat)
                is None,
        },
{
    let n: usize = text.len();
    let start: usize = if n >= 2 && text[0] == CH_0 && text[1] == CH_LOWER_X {
        2
    } else {
        0
    };
    let mut digits: Vec<u8> = Vec::new();
    if (n - start) % 2 == 1 {
        digits.push(CH_0);
    }
    let ghost pad = digits@;
    let mut i: usize = start;
    while i < n
        invariant
            start <= i <= n,
            n == text@.len(),
            digits@ == pad + text@.subrange(start as int, i as int),
        decreases n - i,
    {
        digits.push(text[i]);
        i += 1;
        assert(digits@ =~= pad + text@.subrange(start as int, i as int));
    }
    assert(text@.subrange(start as int, n as int) =~= without_0x(text@));
    assert(digits@ =~= even_digits(text@));
    let decoded = match hex_decode(digits.as_slice()) {
        Ok(decoded) => decoded,
        Err(_) => {
            return Err(ErrorKind::ConfigInvalid);
        },
    };
    let m: usize = decoded.len();
    let mut bytes: Vec<u8> = Vec::new();
    if m >= width {
        let mut k: usize = 0;
        while k < width
            invariant
                k <= width <= m,
                m == decoded@.len(),
                bytes@ == decoded@.take(k as int),
            decreases width - k,
        {
            bytes.push(decoded[k]);
            k += 1;
            assert(bytes@ =~= decoded@.take(k as int));
        }
    } else {
        let mut z: usize = 0;
        while z < width - m
            invariant
                m < width,
                z <= width - m,
                bytes@ == zero_bytes(z as nat),
            decreases width - m - z,
        {
            bytes.push(0);
            z += 1;
            assert(bytes@ =~= zero_bytes(z as nat));
        }
        let mut k: usize = 0;
        while k < m
            invariant
                m < width,
                k <= m,
                m == decoded@.len(),
                bytes@ == zero_bytes((width - m) as nat) + decoded@.take(k as int),
            decreases m - k,
        {
            bytes.push(decoded[k]);
            k += 1;
            assert(bytes@ =~= zero_bytes((width - m) as nat) + decoded@.take(k as int));
        }
        assert(decoded@.take(m as int) =~= decoded@);
    }
    Ok(bytes)
}

/// Reads an address of twenty bytes from hex text, with or without `0x`. An
/// odd number of digits is taken with a zero before it; fewer than twenty
/// bytes are taken with zero bytes before them, and of more the first twenty.
pub fn parse_address(address_str: &str) -> (address: Result<[u8; 20], ErrorKind>)
    ensures
        match address {
            Ok(address) => parsed_bytes(address_str.spec_bytes(), 20) == Some(address@),
            Err(kind) => kind == ErrorKind::ConfigInvalid && parsed_bytes(
                address_str.spec_bytes(),
                20,
            ) is None,
        },
{
    match parse_fitted(address_str.as_bytes(), 20) {
        Ok(bytes) => {
            assert(bytes@.subrange(0, 20) =~= bytes@);
            Ok(crate::to_fixed_20(bytes))
        },
        Err(kind) => Err(kind),
    }
}

/// Reads a hash of thirty-two bytes from hex text, as `parse_address` reads an address.
pub fn parse_hash(hash_str: &str) -> (hash: Result<[u8; 32], ErrorKind>)
    ensures
        match hash {
            Ok(hash) => parsed_bytes(hash_str.spec_bytes(), 32) == Some(hash@),
            Err(kind) => kind == ErrorKind::ConfigInvalid && parsed_bytes(
                hash_str.spec_bytes(),
                32,
            ) is None,
        },
{
    match parse_fitted(hash_str.as_bytes(), 32) {
        Ok(bytes) => {
            assert(bytes@.subrange(0, 32) =~= bytes@);
            Ok(crate::to_fixed_32(bytes))
        },
        Err(kind) => Err(kind),
    }
}

} // verus!
