//! Options of a block device that arrive as arguments of a command.
use vstd::prelude::*;
use crate::error::Error;
use crate::rpc::RpcCmdArgs;
use crate::text::{bool_value, parse_bool, parse_unsigned, unsigned_value};

verus! {

/// The options of a block device as SPDK takes them.
#[derive(Clone, Copy, Debug, PartialEq, Eq, Structural)]
pub struct SpdkBdevOptsC {
    pub blocklen: u32,
    pub blockcnt: u64,
    pub write_cache: bool,
    pub phys_blocklen: u32,
    pub split_on_write_unit: u32,
    pub split_on_optimal_io_boundary: u32,
    pub md_interleave: u32,
    pub dif_is_head_of_md: u32,
    pub write_unit_size: u32,
    pub optimal_io_boundary: u32,
    pub preferred_write_alignment: u32,
    pub preferred_write_granularity: u32,
    pub optimal_write_size: u32,
    pub preferred_unmap_alignment: u32,
    pub preferred_unmap_granularity: u32,
}

impl SpdkBdevOptsC {
    /// No option set.
    pub open spec fn unset() -> SpdkBdevOptsC {
        SpdkBdevOptsC {
            blocklen: 0,
            blockcnt: 0,
            write_cache: false,
            phys_blocklen: 0,
            split_on_write_unit: 0,
            split_on_optimal_io_boundary: 0,
            md_interleave: 0,
            dif_is_head_of_md: 0,
            write_unit_size: 0,
            optimal_io_boundary: 0,
            preferred_write_alignment: 0,
            preferred_write_granularity: 0,
            optimal_write_size: 0,
            preferred_unmap_alignment: 0,
            preferred_unmap_granularity: 0,
        }
    }
}

impl Default for SpdkBdevOptsC {
    fn default() -> (opts: SpdkBdevOptsC)
        ensures
            opts == SpdkBdevOptsC::unset(),
    {
        SpdkBdevOptsC {
            blocklen: 0,
            blockcnt: 0,
            write_cache: false,
            phys_blocklen: 0,
            split_on_write_unit: 0,
            split_on_optimal_io_boundary: 0,
            md_interleave: 0,
            dif_is_head_of_md: 0,
            write_unit_size: 0,
            optimal_io_boundary: 0,
            preferred_write_alignment: 0,
            preferred_write_granularity: 0,
            optimal_write_size: 0,
            preferred_unmap_alignment: 0,
            preferred_unmap_granularity: 0,
        }
    }
}

/// `res` is the value of a field: the one that its argument writes, an error where the argument
/// writes none, and the default where there is no argument.
pub open spec fn field_read<T>(
    given: Option<Option<T>>,
    default: T,
    field: Seq<char>,
    res: Result<T, Error>,
) -> bool {
    match given {
        Some(Some(v)) => res == Ok::<T, Error>(v),
        Some(None) => res matches Err(Error::InvalidField(name)) && name@ == field,
        None => res == Ok::<T, Error>(default),
    }
}

/// What the argument of a `u32` field writes, if there is an argument.
pub open spec fn given_u32(args: Map<Seq<char>, String>, field: Seq<char>) -> Option<Option<u32>> {
    if args.contains_key(field) {
        match unsigned_value(args[field]@, u32::MAX as nat) {
            Some(v) => Some(Some(v as u32)),
            None => Some(None),
        }
    } else {
        None
    }
}

/// Reads a `u32` field.
pub fn read_u32(args: &RpcCmdArgs, field: &str, default: u32) -> (res: Result<u32, Error>)
    ensures
        field_read(given_u32(args@, field@), default, field@, res),
{
    match args.get(field) {
        Some(text) => match parse_unsigned(text.as_str(), u32::MAX as u64) {
            Some(v) => Ok(v as u32),
            None => Err(Error::InvalidField(field.to_owned())),
        },
        None => Ok(default),
    }
}

/// What the argument of a `u64` field writes, if there is an argument.
pub open spec fn given_u64(args: Map<Seq<char>, String>, field: Seq<char>) -> Option<Option<u64>> {
    if args.contains_key(field) {
        match unsigned_value(args[field]@, u64::MAX as nat) {
            Some(v) => Some(Some(v as u64)),
            None => Some(None),
        }
    } else {
        None
    }
}

/// Reads a `u64` field.
pub fn read_u64(args: &RpcCmdArgs, field: &str, default: u64) -> (res: Result<u64, Error>)
    ensures
        field_read(given_u64(args@, field@), default, field@, res),
{
    match args.get(field) {
        Some(text) => match parse_unsigned(text.as_str(), u64::MAX) {
            Some(v) => Ok(v),
            None => Err(Error::InvalidField(field.to_owned())),
        },
        None => Ok(default),
    }
}

/// What the argument of a `bool` field writes, if there is an argument.
pub open spec fn given_bool(args: Map<Seq<char>, String>, field: Seq<char>) -> Option<
    Option<bool>,
> {
    if args.contains_key(field) {
        Some(bool_value(args[field]@))
    } else {
        None
    }
}

/// Reads a `bool` field.
pub fn read_bool(args: &RpcCmdArgs, field: &str, default: bool) -> (res: Result<bool, Error>)
    ensures
        field_read(given_bool(args@, field@), default, field@, res),
{
    match args.get(field) {
        Some(text) => match parse_bool(text.as_str()) {
            Some(v) => Ok(v),
            None => Err(Error::InvalidField(field.to_owned())),
        },
        None => Ok(default),
    }
}

} // verus!
