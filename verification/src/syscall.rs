//! Result codes shared between the kernel and user programs.

use vstd::prelude::*;

verus! {

/// Why a system call failed, as user space sees it.
#[derive(Debug, Copy, Clone, PartialEq, Eq, Structural)]
pub enum SyscallError {
    InvalidSyscallNumber,
    InternalError,
    TooManyProcess,
    NoMemorySpace,
    InvalidArguments,
    IllegalFile,
    NotFound,
}

impl SyscallError {
    /// The error that the negative return value `x` stands for.
    pub open spec fn of_code(x: int) -> SyscallError {
        if x == -1 {
            SyscallError::InvalidSyscallNumber
        } else if x == -2 {
            SyscallError::InternalError
        } else if x == -3 {
            SyscallError::TooManyProcess
        } else if x == -4 {
            SyscallError::NoMemorySpace
        } else if x == -5 {
            SyscallError::InvalidArguments
        } else if x == -6 {
            SyscallError::IllegalFile
        } else {
            SyscallError::NotFound
        }
    }

    /// Decodes the value a failed system call left in the result register.
    pub fn from_syscall_result(x: i32) -> (e: SyscallError)
        requires
            -7 <= x <= -1,
        ensures
            e == Self::of_code(x as int),
    {
        match x {
            -1 => SyscallError::InvalidSyscallNumber,
            -2 => SyscallError::InternalError,
            -3 => SyscallError::TooManyProcess,
            -4 => SyscallError::NoMemorySpace,
            -5 => SyscallError::InvalidArguments,
            -6 => SyscallError::IllegalFile,
            _ => SyscallError::NotFound,
        }
    }

    /// The words that describe the error.
    pub fn to_str(&self) -> (s: &'static str)
        ensures
            s@ == self.message(),
    {
        match self {
            SyscallError::InvalidSyscallNumber => "Invalid Syscall Number",
            SyscallError::InternalError => "Internal error",
            SyscallError::TooManyProcess => "Too many process",
            SyscallError::NoMemorySpace => "No Memory Space",
            SyscallError::InvalidArguments => "Invalid Arguments",
            SyscallError::IllegalFile => "Illegal File",
            SyscallError::NotFound => "Not Found",
        }
    }

    /// The words that describe the error.
    pub open spec fn message(&self) -> Seq<char> {
        match self {
            SyscallError::InvalidSyscallNumber => "Invalid Syscall Number"@,
            SyscallError::InternalError => "Internal error"@,
            SyscallError::TooManyProcess => "Too many process"@,
            SyscallError::NoMemorySpace => "No Memory Space"@,
            SyscallError::InvalidArguments => "Invalid Arguments"@,
            SyscallError::IllegalFile => "Illegal File"@,
            SyscallError::NotFound => "Not Found"@,
        }
    }
}

/// How a fork ended, as the process that called it sees it.
#[derive(Debug, Copy, Clone, PartialEq, Eq, Structural)]
pub enum ForkResult {
    /// This is the parent; the child has this identity.
    Parent(u32),
    /// This is the child.
    Child,
    Fail,
}

impl ForkResult {
    /// What the value `r` in the result register says of a fork: a value
    /// that is negative as a signed number, that it failed; zero, that this
    /// is the child; any other, the identity of the child.
    pub open spec fn of_code(r: u32) -> ForkResult {
        if r >= 0x8000_0000 {
            ForkResult::Fail
        } else if r == 0 {
            ForkResult::Child
        } else {
            ForkResult::Parent(r)
        }
    }

    /// Decodes the value a fork left in the result register.
    pub fn from_syscall_result(r: u32) -> (f: ForkResult)
        ensures
            f == Self::of_code(r),
    {
        if r >= 0x8000_0000 {
            ForkResult::Fail
        } else if r == 0 {
            ForkResult::Child
        } else {
            ForkResult::Parent(r)
        }
    }
}

/// Where a process stands in its life, as user space sees it.
#[derive(Debug, Copy, Clone, PartialEq, Eq, Structural)]
pub enum ProcessStatus {
    Free,
    Running,
    Runnable,
    NotRunnable,
    Zombie,
}

impl ProcessStatus {
    /// The status that the number `x` stands for.
    pub open spec fn of_code(x: u32) -> ProcessStatus {
        if x == 0 {
            ProcessStatus::Free
        } else if x == 1 {
            ProcessStatus::Running
        } else if x == 2 {
            ProcessStatus::Runnable
        } else if x == 3 {
            ProcessStatus::NotRunnable
        } else {
            ProcessStatus::Zombie
        }
    }

    /// Decodes the status that a system call returned.
    pub fn from_u32(x: u32) -> (s: ProcessStatus)
        requires
            x <= 4,
        ensures
            s == Self::of_code(x),
    {
        match x {
            0 => ProcessStatus::Free,
            1 => ProcessStatus::Running,
            2 => ProcessStatus::Runnable,
            3 => ProcessStatus::NotRunnable,
            _ => ProcessStatus::Zombie,
        }
    }
}

} // verus!
