//! Block devices and the registry of their names.
use vstd::prelude::*;
use crate::c_enum::{CEnum, IoType};
use crate::error::{quoted, Error};
use crate::names::NameMap;
use crate::rpc::{RpcCmdArgs, RpcCmdResult};

verus! {

/// The address of SPDK's record of a block device. It is never 0.
#[derive(Copy, Clone, Debug, PartialEq, Eq, Structural)]
pub struct RawBdevHandle {
    raw: usize,
}

impl RawBdevHandle {
    /// The address.
    pub closed spec fn spec_raw(self) -> usize {
        self.raw
    }

    pub fn new(raw: usize) -> (handle: RawBdevHandle)
        requires
            raw != 0,
        ensures
            handle.spec_raw() == raw,
    {
        RawBdevHandle { raw }
    }

    /// Returns the address.
    pub fn raw(self) -> (raw: usize)
        ensures
            raw == self.spec_raw(),
    {
        self.raw
    }
}

/// The state that a block device keeps for one SPDK thread.
#[derive(Debug)]
pub struct BdevIoChannel<C> {
    inner: C,
}

impl<C> View for BdevIoChannel<C> {
    type V = C;

    closed spec fn view(&self) -> C {
        self.inner
    }
}

impl<C> BdevIoChannel<C> {
    pub fn new(v: C) -> (ch: BdevIoChannel<C>)
        ensures
            ch@ == v,
    {
        BdevIoChannel { inner: v }
    }

    /// Returns the state.
    pub fn inner_mut(&mut self) -> (inner: &mut C)
        ensures
            *inner == old(self)@,
            final(self)@ == *final(inner),
    {
        &mut self.inner
    }
}

/// A borrowed SPDK I/O channel: its address, which is never 0. It may only be used on the SPDK
/// thread that owns the channel.
#[derive(Copy, Clone, Debug, PartialEq, Eq, Structural)]
pub struct BdevIoChannelRef {
    raw: usize,
}

impl BdevIoChannelRef {
    /// The address.
    pub closed spec fn spec_raw(self) -> usize {
        self.raw
    }

    pub fn from_raw(raw: usize) -> (ch: BdevIoChannelRef)
        requires
            raw != 0,
        ensures
            ch.spec_raw() == raw,
    {
        BdevIoChannelRef { raw }
    }

    /// Returns the address.
    pub fn raw(self) -> (raw: usize)
        ensures
            raw == self.spec_raw(),
    {
        self.raw
    }
}

/// A block device. `Channel` is its state for one SPDK thread, `Io` a request that SPDK submits.
pub trait Bdev {
    type Channel;

    type Io;

    /// Is called once, when SPDK knows the device.
    fn init(&self, rawbdev: RawBdevHandle);

    /// Tells which I/O operations the device accepts.
    fn io_type_supported(&self, io_type: IoType) -> bool;

    /// Creates the state for the current SPDK thread.
    fn create_io_channel(&self) -> BdevIoChannel<Self::Channel>;

    /// Processes one request, which has to be completed once.
    fn submit_io(&self, ch: BdevIoChannelRef, io: Self::Io);
}

/// Tells SPDK whether a device accepts the I/O operation with a C constant: what the device says
/// of the operation, and never an operation that is unknown here.
pub fn bdev_io_type_supported<B: Bdev + ?Sized>(bdev: &B, c_io_type: i32) -> (res: bool)
    ensures
        !IoType::has_variant(c_io_type) ==> !res,
        IoType::has_variant(c_io_type) ==> exists|io_type: IoType| #[trigger]
            io_type.c_value() == c_io_type && call_ensures(
                B::io_type_supported,
                (bdev, io_type),
                res,
            ),
{
    match IoType::try_from_c(c_io_type) {
        Ok(io_type) => bdev.io_type_supported(io_type),
        Err(_) => false,
    }
}

/// The block devices that this library has given names to.
pub type BdevRegistry<B> = NameMap<B>;

/// What SPDK keeps of a block device: its name, the device, and the address of SPDK's own record
/// (0 until it is known).
pub struct BdevCtx<B> {
    pub name: String,
    pub bdev: B,
    pub spdk_bdev: usize,
}

impl<B> BdevCtx<B> {
    pub fn set_spdk_bdev(&mut self, spdk_bdev: usize)
        ensures
            *final(self) == (BdevCtx { spdk_bdev, ..*old(self) }),
    {
        self.spdk_bdev = spdk_bdev;
    }

    pub fn get_spdk_bdev(&self) -> (spdk_bdev: usize)
        ensures
            spdk_bdev == self.spdk_bdev,
    {
        self.spdk_bdev
    }
}

/// The registry with a new name; there is none where the name is taken.
pub open spec fn registered<B>(
    reg: Map<Seq<char>, B>,
    name: Seq<char>,
    bdevh: B,
) -> Option<Map<Seq<char>, B>> {
    if reg.contains_key(name) {
        None
    } else {
        Some(reg.insert(name, bdevh))
    }
}

/// The registry without a name, and the device that had it; there is none where the name is
/// unknown.
pub open spec fn unregistered<B>(reg: Map<Seq<char>, B>, name: Seq<char>) -> Option<
    (Map<Seq<char>, B>, B),
> {
    if reg.contains_key(name) {
        Some((reg.remove(name), reg[name]))
    } else {
        None
    }
}

/// Gives a device a name that no device has.
pub fn bdev_registry_add<B>(reg: &mut BdevRegistry<B>, name: String, bdevh: B) -> (res: Result<
    (),
    Error,
>)
    ensures
        match registered(old(reg)@, name@, bdevh) {
            Some(after) => res is Ok && final(reg)@ == after,
            None => res matches Err(Error::AlreadyExists) && final(reg)@ == old(reg)@,
        },
{
    if reg.contains_key(name.as_str()) {
        return Err(Error::AlreadyExists);
    }
    reg.insert(name, bdevh);
    Ok(())
}

/// Takes the name of a device away and returns the device.
pub fn bdev_registry_remove<B>(reg: &mut BdevRegistry<B>, name: String) -> (res: Result<B, Error>)
    ensures
        match unregistered(old(reg)@, name@) {
            Some((after, bdevh)) => res == Ok::<B, Error>(bdevh) && final(reg)@ == after,
            None => res == Err::<B, Error>(Error::SpdkBdevNotFound(name)) && final(reg)@ == old(
                reg,
            )@,
        },
{
    match reg.remove(name.as_str()) {
        Some(bdevh) => Ok(bdevh),
        None => {
            assert(old(reg)@.remove(name@) =~= old(reg)@);
            Err(Error::SpdkBdevNotFound(name))
        },
    }
}

/// Gives up what SPDK kept of a device; its name is free afterwards.
pub fn bdev_ctx_drop<B>(reg: &mut BdevRegistry<B>, ctx: BdevCtx<B>)
    ensures
        final(reg)@ == old(reg)@.remove(ctx.name@),
{
    let BdevCtx { name, bdev: _, spdk_bdev: _ } = ctx;
    let _ = bdev_registry_remove(reg, name);
    assert(final(reg)@ =~= old(reg)@.remove(ctx.name@));
}

/// A name that was free is taken once it is given, belongs to the device that it was given to,
/// and taking it away restores the registry. No other name is affected.
pub proof fn lemma_register_then_unregister<B>(
    reg: Map<Seq<char>, B>,
    name: Seq<char>,
    bdevh: B,
    other: Seq<char>,
    second: B,
)
    requires
        !reg.contains_key(name),
        other != name,
    ensures
        registered(reg, name, bdevh) matches Some(after) && {
            &&& registered(after, name, second) is None
            &&& unregistered(after, name) == Some((reg, bdevh))
            &&& after.contains_key(other) == reg.contains_key(other)
            &&& reg.contains_key(other) ==> after[other] == reg[other]
        },
{
    assert(reg.insert(name, bdevh).remove(name) =~= reg);
}

/// Decides which device the command to delete a block device is about. Only devices of the
/// registry may be deleted.
pub fn bdev_delete_target<B>(reg: &BdevRegistry<B>, args: &RpcCmdArgs) -> (res: Result<
    String,
    Error,
>)
    requires
        args@.contains_key("name"@),
    ensures
        ({
            let name = args@["name"@];
            if reg@.contains_key(name@) {
                res == Ok::<String, Error>(name)
            } else {
                res == Err::<String, Error>(Error::SpdkBdevNotFound(name))
            }
        }),
{
    let name = args.get("name").unwrap().clone();
    if !reg.contains_key(name.as_str()) {
        return Err(Error::SpdkBdevNotFound(name));
    }
    Ok(name)
}

/// The reply to the command to delete the block device `name`, which SPDK did with result `rc`.
pub fn bdev_delete_reply(name: &str, rc: i32) -> (res: RpcCmdResult)
    ensures
        match res {
            Ok(reply) => rc == 0 && reply@ == "Successfully deleted bdev '"@ + name@ + "'"@,
            Err(e) => rc != 0 && e == Error::SpdkBdevDelete(rc),
        },
{
    if rc != 0 {
        return Err(Error::SpdkBdevDelete(rc));
    }
    Ok(quoted("Successfully deleted bdev '", name, "'"))
}

} // verus!
