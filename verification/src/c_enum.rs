//! Enumerations that cross the C interface as integers.
use vstd::prelude::*;
use crate::c::{
    SPDK_DIF_DISABLE, SPDK_DIF_TYPE1, SPDK_DIF_TYPE2, SPDK_DIF_TYPE3, SPDK_BDEV_IO_TYPE_INVALID,
    SPDK_BDEV_IO_TYPE_READ, SPDK_BDEV_IO_TYPE_WRITE, SPDK_BDEV_IO_TYPE_UNMAP,
    SPDK_BDEV_IO_TYPE_FLUSH, SPDK_BDEV_IO_TYPE_RESET, SPDK_BDEV_IO_TYPE_NVME_ADMIN,
    SPDK_BDEV_IO_TYPE_NVME_IO, SPDK_BDEV_IO_TYPE_NVME_IO_MD, SPDK_BDEV_IO_TYPE_WRITE_ZEROES,
    SPDK_BDEV_IO_TYPE_ZCOPY, SPDK_BDEV_IO_TYPE_GET_ZONE_INFO, SPDK_BDEV_IO_TYPE_ZONE_MANAGEMENT,
    SPDK_BDEV_IO_TYPE_ZONE_APPEND, SPDK_BDEV_IO_TYPE_COMPARE,
    SPDK_BDEV_IO_TYPE_COMPARE_AND_WRITE, SPDK_BDEV_IO_TYPE_ABORT, SPDK_BDEV_IO_TYPE_SEEK_HOLE,
    SPDK_BDEV_IO_TYPE_SEEK_DATA, SPDK_BDEV_IO_TYPE_COPY, SPDK_BDEV_IO_TYPE_NVME_IOV_MD,
    SPDK_BDEV_IO_TYPE_NVME_NSSR, SPDK_BDEV_IO_TYPE_WRITE_UNCORRECTABLE,
};

verus! {

/// An enumeration with a C integer for each of its variants.
pub trait CEnum: Sized + Copy {
    type Repr: Copy;

    /// The C constant of a variant.
    spec fn c_value(self) -> Self::Repr;

    /// Some variant has this C constant.
    spec fn has_variant(value: Self::Repr) -> bool;

    /// Two variants never share a C constant.
    proof fn c_value_injective(a: Self, b: Self)
        requires
            a.c_value() == b.c_value(),
        ensures
            a == b,
    ;

    /// The C constants of the variants, and no others, have a variant.
    proof fn has_variant_exact(value: Self::Repr)
        ensures
            Self::has_variant(value) <==> exists|e: Self| (#[trigger] e.c_value()) == value,
    ;

    /// The variant of a C constant, or the constant itself where no variant has it.
    fn try_from_c(value: Self::Repr) -> (res: Result<Self, Self::Repr>)
        ensures
            match res {
                Ok(e) => Self::has_variant(value) && e.c_value() == value,
                Err(v) => !Self::has_variant(value) && v == value,
            },
    ;

    /// The C constant of a variant.
    fn into_c(self) -> (res: Self::Repr)
        ensures
            res == self.c_value(),
    ;
}

/// `res` is what `try_from_c` makes of the C constant `value`.
pub open spec fn decoded<E: CEnum>(value: E::Repr, res: Result<E, E::Repr>) -> bool {
    match res {
        Ok(e) => E::has_variant(value) && e.c_value() == value,
        Err(v) => !E::has_variant(value) && v == value,
    }
}

/// Reading back the C constant of a variant gives that variant.
pub proof fn lemma_c_enum_round_trip<E: CEnum>(e: E, res: Result<E, E::Repr>)
    requires
        decoded(e.c_value(), res),
    ensures
        res == Ok::<E, E::Repr>(e),
{
    E::has_variant_exact(e.c_value());
    if let Ok(e2) = res {
        E::c_value_injective(e, e2);
    }
}

/// Data integrity format of a block device.
#[derive(Debug, Copy, Clone, PartialEq, Eq, Structural)]
pub enum DifType {
    Disable,
    Type1,
    Type2,
    Type3,
}

impl CEnum for DifType {
    type Repr = i32;

    open spec fn c_value(self) -> i32 {
        match self {
            DifType::Disable => SPDK_DIF_DISABLE,
            DifType::Type1 => SPDK_DIF_TYPE1,
            DifType::Type2 => SPDK_DIF_TYPE2,
            DifType::Type3 => SPDK_DIF_TYPE3,
        }
    }

    open spec fn has_variant(value: i32) -> bool {
        SPDK_DIF_DISABLE <= value <= SPDK_DIF_TYPE3
    }

    proof fn c_value_injective(a: Self, b: Self) {
    }

    proof fn has_variant_exact(value: i32) {
        if Self::has_variant(value) {
            assert(DifType::Disable.c_value() == 0);
            assert(DifType::Type1.c_value() == 1);
            assert(DifType::Type2.c_value() == 2);
            assert(DifType::Type3.c_value() == 3);
        }
    }

    fn try_from_c(value: i32) -> (res: Result<Self, i32>) {
        if value == SPDK_DIF_DISABLE {
            Ok(DifType::Disable)
        } else if value == SPDK_DIF_TYPE1 {
            Ok(DifType::Type1)
        } else if value == SPDK_DIF_TYPE2 {
            Ok(DifType::Type2)
        } else if value == SPDK_DIF_TYPE3 {
            Ok(DifType::Type3)
        } else {
            Err(value)
        }
    }

    fn into_c(self) -> (res: i32) {
        match self {
            DifType::Disable => SPDK_DIF_DISABLE,
            DifType::Type1 => SPDK_DIF_TYPE1,
            DifType::Type2 => SPDK_DIF_TYPE2,
            DifType::Type3 => SPDK_DIF_TYPE3,
        }
    }
}

/// Type of an I/O operation on a block device.
#[derive(Debug, Copy, Clone, PartialEq, Eq, Structural)]
pub enum IoType {
    Invalid,
    Read,
    Write,
    Unmap,
    Flush,
    Reset,
    NvmeAdmin,
    NvmeIo,
    NvmeIoMd,
    WriteZeroes,
    Zcopy,
    GenZoneInfo,
    ZoneManagement,
    ZoneAppend,
    Compare,
    CompareAndWrite,
    Abort,
    SeekHole,
    SeekData,
    Copy,
    NvmeIovMd,
    NvmeNssr,
    WriteUncorrectable,
}

impl CEnum for IoType {
    type Repr = i32;

    open spec fn c_value(self) -> i32 {
        match self {
            IoType::Invalid => SPDK_BDEV_IO_TYPE_INVALID,
            IoType::Read => SPDK_BDEV_IO_TYPE_READ,
            IoType::Write => SPDK_BDEV_IO_TYPE_WRITE,
            IoType::Unmap => SPDK_BDEV_IO_TYPE_UNMAP,
            IoType::Flush => SPDK_BDEV_IO_TYPE_FLUSH,
            IoType::Reset => SPDK_BDEV_IO_TYPE_RESET,
            IoType::NvmeAdmin => SPDK_BDEV_IO_TYPE_NVME_ADMIN,
            IoType::NvmeIo => SPDK_BDEV_IO_TYPE_NVME_IO,
            IoType::NvmeIoMd => SPDK_BDEV_IO_TYPE_NVME_IO_MD,
            IoType::WriteZeroes => SPDK_BDEV_IO_TYPE_WRITE_ZEROES,
            IoType::Zcopy => SPDK_BDEV_IO_TYPE_ZCOPY,
            IoType::GenZoneInfo => SPDK_BDEV_IO_TYPE_GET_ZONE_INFO,
            IoType::ZoneManagement => SPDK_BDEV_IO_TYPE_ZONE_MANAGEMENT,
            IoType::ZoneAppend => SPDK_BDEV_IO_TYPE_ZONE_APPEND,
            IoType::Compare => SPDK_BDEV_IO_TYPE_COMPARE,
            IoType::CompareAndWrite => SPDK_BDEV_IO_TYPE_COMPARE_AND_WRITE,
            IoType::Abort => SPDK_BDEV_IO_TYPE_ABORT,
            IoType::SeekHole => SPDK_BDEV_IO_TYPE_SEEK_HOLE,
            IoType::SeekData => SPDK_BDEV_IO_TYPE_SEEK_DATA,
            IoType::Copy => SPDK_BDEV_IO_TYPE_COPY,
            IoType::NvmeIovMd => SPDK_BDEV_IO_TYPE_NVME_IOV_MD,
            IoType::NvmeNssr => SPDK_BDEV_IO_TYPE_NVME_NSSR,
            IoType::WriteUncorrectable => SPDK_BDEV_IO_TYPE_WRITE_UNCORRECTABLE,
        }
    }

    open spec fn has_variant(value: i32) -> bool {
        SPDK_BDEV_IO_TYPE_INVALID <= value <= SPDK_BDEV_IO_TYPE_WRITE_UNCORRECTABLE
    }

    proof fn c_value_injective(a: Self, b: Self) {
    }

    proof fn has_variant_exact(value: i32) {
        if Self::has_variant(value) {
            assert(IoType::Invalid.c_value() == 0);
            assert(IoType::Read.c_value() == 1);
            assert(IoType::Write.c_value() == 2);
            assert(IoType::Unmap.c_value() == 3);
            assert(IoType::Flush.c_value() == 4);
            assert(IoType::Reset.c_value() == 5);
            assert(IoType::NvmeAdmin.c_value() == 6);
            assert(IoType::NvmeIo.c_value() == 7);
            assert(IoType::NvmeIoMd.c_value() == 8);
            assert(IoType::WriteZeroes.c_value() == 9);
            assert(IoType::Zcopy.c_value() == 10);
            assert(IoType::GenZoneInfo.c_value() == 11);
            assert(IoType::ZoneManagement.c_value() == 12);
            assert(IoType::ZoneAppend.c_value() == 13);
            assert(IoType::Compare.c_value() == 14);
            assert(IoType::CompareAndWrite.c_value() == 15);
            assert(IoType::Abort.c_value() == 16);
            assert(IoType::SeekHole.c_value() == 17);
            assert(IoType::SeekData.c_value() == 18);
            assert(IoType::Copy.c_value() == 19);
            assert(IoType::NvmeIovMd.c_value() == 20);
            assert(IoType::NvmeNssr.c_value() == 21);
            assert(IoType::WriteUncorrectable.c_value() == 22);
        }
    }

    fn try_from_c(value: i32) -> (res: Result<Self, i32>) {
        if value == SPDK_BDEV_IO_TYPE_INVALID {
            Ok(IoType::Invalid)
        } else if value == SPDK_BDEV_IO_TYPE_READ {
            Ok(IoType::Read)
        } else if value == SPDK_BDEV_IO_TYPE_WRITE {
            Ok(IoType::Write)
        } else if value == SPDK_BDEV_IO_TYPE_UNMAP {
            Ok(IoType::Unmap)
        } else if value == SPDK_BDEV_IO_TYPE_FLUSH {
            Ok(IoType::Flush)
        } else if value == SPDK_BDEV_IO_TYPE_RESET {
            Ok(IoType::Reset)
        } else if value == SPDK_BDEV_IO_TYPE_NVME_ADMIN {
            Ok(IoType::NvmeAdmin)
        } else if value == SPDK_BDEV_IO_TYPE_NVME_IO {
            Ok(IoType::NvmeIo)
        } else if value == SPDK_BDEV_IO_TYPE_NVME_IO_MD {
            Ok(IoType::NvmeIoMd)
        } else if value == SPDK_BDEV_IO_TYPE_WRITE_ZEROES {
            Ok(IoType::WriteZeroes)
        } else if value == SPDK_BDEV_IO_TYPE_ZCOPY {
            Ok(IoType::Zcopy)
        } else if value == SPDK_BDEV_IO_TYPE_GET_ZONE_INFO {
            Ok(IoType::GenZoneInfo)
        } else if value == SPDK_BDEV_IO_TYPE_ZONE_MANAGEMENT {
            Ok(IoType::ZoneManagement)
        } else if value == SPDK_BDEV_IO_TYPE_ZONE_APPEND {
            Ok(IoType::ZoneAppend)
        } else if value == SPDK_BDEV_IO_TYPE_COMPARE {
            Ok(IoType::Compare)
        } else if value == SPDK_BDEV_IO_TYPE_COMPARE_AND_WRITE {
            Ok(IoType::CompareAndWrite)
        } else if value == SPDK_BDEV_IO_TYPE_ABORT {
            Ok(IoType::Abort)
        } else if value == SPDK_BDEV_IO_TYPE_SEEK_HOLE {
            Ok(IoType::SeekHole)
        } else if value == SPDK_BDEV_IO_TYPE_SEEK_DATA {
            Ok(IoType::SeekData)
        } else if value == SPDK_BDEV_IO_TYPE_COPY {
            Ok(IoType::Copy)
        } else if value == SPDK_BDEV_IO_TYPE_NVME_IOV_MD {
            Ok(IoType::NvmeIovMd)
        } else if value == SPDK_BDEV_IO_TYPE_NVME_NSSR {
            Ok(IoType::NvmeNssr)
        } else if value == SPDK_BDEV_IO_TYPE_WRITE_UNCORRECTABLE {
            Ok(IoType::WriteUncorrectable)
        } else {
            Err(value)
        }
    }

    fn into_c(self) -> (res: i32) {
        match self {
            IoType::Invalid => SPDK_BDEV_IO_TYPE_INVALID,
            IoType::Read => SPDK_BDEV_IO_TYPE_READ,
            IoType::Write => SPDK_BDEV_IO_TYPE_WRITE,
            IoType::Unmap => SPDK_BDEV_IO_TYPE_UNMAP,
            IoType::Flush => SPDK_BDEV_IO_TYPE_FLUSH,
            IoType::Reset => SPDK_BDEV_IO_TYPE_RESET,
            IoType::NvmeAdmin => SPDK_BDEV_IO_TYPE_NVME_ADMIN,
            IoType::NvmeIo => SPDK_BDEV_IO_TYPE_NVME_IO,
            IoType::NvmeIoMd => SPDK_BDEV_IO_TYPE_NVME_IO_MD,
            IoType::WriteZeroes => SPDK_BDEV_IO_TYPE_WRITE_ZEROES,
            IoType::Zcopy => SPDK_BDEV_IO_TYPE_ZCOPY,
            IoType::GenZoneInfo => SPDK_BDEV_IO_TYPE_GET_ZONE_INFO,
            IoType::ZoneManagement => SPDK_BDEV_IO_TYPE_ZONE_MANAGEMENT,
            IoType::ZoneAppend => SPDK_BDEV_IO_TYPE_ZONE_APPEND,
            IoType::Compare => SPDK_BDEV_IO_TYPE_COMPARE,
            IoType::CompareAndWrite => SPDK_BDEV_IO_TYPE_COMPARE_AND_WRITE,
            IoType::Abort => SPDK_BDEV_IO_TYPE_ABORT,
            IoType::SeekHole => SPDK_BDEV_IO_TYPE_SEEK_HOLE,
            IoType::SeekData => SPDK_BDEV_IO_TYPE_SEEK_DATA,
            IoType::Copy => SPDK_BDEV_IO_TYPE_COPY,
            IoType::NvmeIovMd => SPDK_BDEV_IO_TYPE_NVME_IOV_MD,
            IoType::NvmeNssr => SPDK_BDEV_IO_TYPE_NVME_NSSR,
            IoType::WriteUncorrectable => SPDK_BDEV_IO_TYPE_WRITE_UNCORRECTABLE,
        }
    }
}

} // verus!
