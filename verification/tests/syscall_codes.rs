use kernel::proc::Status;
use kernel::syscall::{ForkResult, ProcessStatus, SyscallError};

#[test]
fn syscall_errors_decode_from_their_codes() {
    assert_eq!(SyscallError::from_syscall_result(-1), SyscallError::InvalidSyscallNumber);
    assert_eq!(SyscallError::from_syscall_result(-2), SyscallError::InternalError);
    assert_eq!(SyscallError::from_syscall_result(-3), SyscallError::TooManyProcess);
    assert_eq!(SyscallError::from_syscall_result(-4), SyscallError::NoMemorySpace);
    assert_eq!(SyscallError::from_syscall_result(-5), SyscallError::InvalidArguments);
    assert_eq!(SyscallError::from_syscall_result(-6), SyscallError::IllegalFile);
    assert_eq!(SyscallError::from_syscall_result(-7), SyscallError::NotFound);
}

#[test]
fn syscall_errors_have_their_words() {
    assert_eq!(SyscallError::InvalidSyscallNumber.to_str(), "Invalid Syscall Number");
    assert_eq!(SyscallError::InternalError.to_str(), "Internal error");
    assert_eq!(SyscallError::TooManyProcess.to_str(), "Too many process");
    assert_eq!(SyscallError::NoMemorySpace.to_str(), "No Memory Space");
    assert_eq!(SyscallError::InvalidArguments.to_str(), "Invalid Arguments");
    assert_eq!(SyscallError::IllegalFile.to_str(), "Illegal File");
    assert_eq!(SyscallError::NotFound.to_str(), "Not Found");
}

#[test]
fn process_status_decodes_from_its_code() {
    assert_eq!(ProcessStatus::from_u32(0), ProcessStatus::Free);
    assert_eq!(ProcessStatus::from_u32(1), ProcessStatus::Running);
    assert_eq!(ProcessStatus::from_u32(2), ProcessStatus::Runnable);
    assert_eq!(ProcessStatus::from_u32(3), ProcessStatus::NotRunnable);
    assert_eq!(ProcessStatus::from_u32(4), ProcessStatus::Zombie);
}

#[test]
fn process_status_reads_what_the_kernel_writes() {
    assert_eq!(ProcessStatus::from_u32(Status::Free.to_u32()), ProcessStatus::Free);
    assert_eq!(ProcessStatus::from_u32(Status::Running.to_u32()), ProcessStatus::Running);
    assert_eq!(ProcessStatus::from_u32(Status::Runnable.to_u32()), ProcessStatus::Runnable);
    assert_eq!(ProcessStatus::from_u32(Status::NotRunnable.to_u32()), ProcessStatus::NotRunnable);
    assert_eq!(ProcessStatus::from_u32(Status::Zombie.to_u32()), ProcessStatus::Zombie);
}

#[test]
fn fork_result_decodes_the_result_register() {
    assert_eq!(ForkResult::from_syscall_result(0), ForkResult::Child);
    assert_eq!(ForkResult::from_syscall_result(1), ForkResult::Parent(1));
    assert_eq!(ForkResult::from_syscall_result(0x7fff_ffff), ForkResult::Parent(0x7fff_ffff));
    assert_eq!(ForkResult::from_syscall_result(0x8000_0000), ForkResult::Fail);
    assert_eq!(ForkResult::from_syscall_result(-3i32 as u32), ForkResult::Fail);
    assert_eq!(ForkResult::from_syscall_result(u32::MAX), ForkResult::Fail);
}
