use theory_kernel::arch::memory::{phys_to_virt, virt_to_phys, PhysAddr, VirtAddr};
use theory_kernel::arch::x86_64::context::{restore_thread_context, save_thread_context, CpuContext};
use theory_kernel::arch::x86_64::cpu::{join_halves, long_mode_supported, split_halves};
use theory_kernel::arch::x86_64::gdt::{make_code_segment, make_data_segment, make_tss_descriptor};
use theory_kernel::arch::x86_64::idt::{report_exception, report_irq};
use theory_kernel::arch::x86_64::interrupts::{
    exception_name, handle_irq, register_irq_handler, ExceptionOutcome, InterruptFrame, IrqStep, IrqTable,
};
use theory_kernel::arch::x86_64::rtc::{
    datetime_from_cmos, decode, format_unix, from_unix, to_unix, update_in_progress, CmosTime, DateTime,
};

fn frame(vector: u64, error_code: u64, rip: u64) -> InterruptFrame {
    InterruptFrame {
        r15: 15,
        r14: 14,
        r13: 13,
        r12: 12,
        r11: 11,
        r10: 10,
        r9: 9,
        r8: 8,
        rdi: 7,
        rsi: 6,
        rbp: 5,
        rbx: 4,
        rdx: 3,
        rcx: 2,
        rax: 1,
        vector,
        error_code,
        rip,
        cs: 0x08,
        rflags: 0x202,
        rsp: 0x7000,
        ss: 0x10,
    }
}

#[test]
fn direct_map_round_trip() {
    let hhdm = 0xffff_8000_0000_0000u64;
    let v = phys_to_virt(hhdm, PhysAddr::new(0x1234_5000));
    assert_eq!(v.as_u64(), 0xffff_8000_1234_5000);
    assert_eq!(virt_to_phys(hhdm, v), Some(PhysAddr(0x1234_5000)));
    assert_eq!(virt_to_phys(hhdm, VirtAddr::new(hhdm + 42)).map(|p| p.as_u64()), Some(42));
    assert_eq!(virt_to_phys(hhdm, VirtAddr::new(0x1000)), None);
}

#[test]
fn align_rounds_to_power_of_two() {
    assert_eq!(PhysAddr(0x1234).align_down(0x1000), PhysAddr(0x1000));
    assert_eq!(PhysAddr(0x1234).align_up(0x1000), PhysAddr(0x2000));
    assert_eq!(PhysAddr(0x2000).align_up(0x1000), PhysAddr(0x2000));
    assert_eq!(PhysAddr(0).align_up(8), PhysAddr(0));
    assert!(PhysAddr(0).is_null());
    assert!(!PhysAddr(1).is_null());
}

#[test]
fn format_unix_epoch_and_recent() {
    assert_eq!(format_unix(0), b"1970-01-01 00:00:00".to_vec());
    assert_eq!(format_unix(1_700_000_000), b"2023-11-14 22:13:20".to_vec());
    assert_eq!(format_unix(-1), b"1969-12-31 23:59:59".to_vec());
}

#[test]
fn unix_round_trip_on_leap_day() {
    let dt = from_unix(951_782_400);
    assert_eq!(dt, DateTime { year: 2000, month: 2, day: 29, hour: 0, minute: 0, second: 0 });
    assert_eq!(to_unix(dt), 951_782_400);
    let t = DateTime { year: 2024, month: 12, day: 31, hour: 23, minute: 59, second: 58 };
    assert_eq!(from_unix(to_unix(t)), t);
}

#[test]
fn bcd_and_twelve_hour_clock() {
    assert_eq!(decode(0x59, true), 59);
    assert_eq!(decode(0x59, false), 0x59);
    assert!(update_in_progress(0x80));
    assert!(!update_in_progress(0x26));
    // BCD, 12-hour mode, 1 PM on 2024-03-05 at 01:02:03 PM, century register 0x20.
    let t = CmosTime { second: 0x03, minute: 0x02, hour: 0x81, day: 0x05, month: 0x03, year: 0x24, century: 0x20, status_b: 0x00 };
    assert_eq!(datetime_from_cmos(t), DateTime { year: 2024, month: 3, day: 5, hour: 13, minute: 2, second: 3 });
    // 12 AM is hour 0; binary 24-hour mode without a century register.
    let t = CmosTime { second: 0x12, minute: 0, hour: 0x12, day: 1, month: 1, year: 0x12, century: 0, status_b: 0x00 };
    assert_eq!(datetime_from_cmos(t).hour, 0);
    let t = CmosTime { second: 30, minute: 15, hour: 22, day: 9, month: 8, year: 25, century: 0, status_b: 0x06 };
    assert_eq!(datetime_from_cmos(t), DateTime { year: 2025, month: 8, day: 9, hour: 22, minute: 15, second: 30 });
}

#[test]
fn page_fault_goes_to_fault_handler() {
    let f = frame(14, 0x6, 0x4000);
    match report_exception(&f, 0xdead_b000, 0x1000) {
        ExceptionOutcome::PageFault { error_code } => assert_eq!(error_code, 6),
        ExceptionOutcome::Fatal { .. } => panic!("page fault reported as fatal"),
    }
}

#[test]
fn fatal_exception_report_text() {
    let f = frame(13, 0x10, 0xffff_ffff_8000_1234);
    let expected = "\n=== CPU EXCEPTION ===\nVector: 13 (General Protection Fault)\nError code: 0x10\n\
                    RIP: 0xffffffff80001234\nCR2: 0x0000000000000000\nCR3: 0x0000000000101000\n";
    match report_exception(&f, 0, 0x10_1000) {
        ExceptionOutcome::Fatal { report } => assert_eq!(report, expected.as_bytes().to_vec()),
        ExceptionOutcome::PageFault { .. } => panic!("vector 13 taken for a page fault"),
    }
    assert_eq!(exception_name(0), "Divide Error");
    assert_eq!(exception_name(14), "Page Fault");
}

#[test]
fn irq_dispatch_finds_registered_handler() {
    let mut table: IrqTable<u32> = IrqTable::new();
    register_irq_handler(&mut table, 1, 77);
    assert_eq!(report_irq(&table, &frame(33, 0, 0)), vec![IrqStep::Run(77), IrqStep::EndOfInterrupt]);
    assert_eq!(report_irq(&table, &frame(34, 0, 0)), vec![IrqStep::EndOfInterrupt]);
    assert_eq!(report_irq(&table, &frame(3, 0, 0)), vec![IrqStep::EndOfInterrupt]);
    // Only the low byte of the vector names the line.
    assert_eq!(handle_irq(&table, &frame(256 + 33, 0, 0)), vec![IrqStep::Run(77), IrqStep::EndOfInterrupt]);
    register_irq_handler(&mut table, 223, 5);
    assert_eq!(handle_irq(&table, &frame(255, 0, 0)), vec![IrqStep::Run(5), IrqStep::EndOfInterrupt]);
}

#[test]
fn thread_context_save_then_restore() {
    let f = frame(32, 0, 0x40_1000);
    let mut ctx = CpuContext::empty();
    save_thread_context(&mut ctx, &f);
    assert_eq!(ctx.rip, 0x40_1000);
    assert_eq!(ctx.rax, 1);
    assert_eq!(ctx.r15, 15);
    let mut other = frame(40, 5, 0);
    restore_thread_context(&ctx, &mut other);
    assert_eq!(other.rip, 0x40_1000);
    assert_eq!(other.rsp, 0x7000);
    assert_eq!(other.vector, 40);
    assert_eq!(other.error_code, 5);
}

#[test]
fn msr_halves() {
    assert_eq!(join_halves(0x89ab_cdef, 0x0123_4567), 0x0123_4567_89ab_cdef);
    assert_eq!(split_halves(0x0123_4567_89ab_cdef), (0x89ab_cdef, 0x0123_4567));
    assert!(long_mode_supported(1 << 29));
    assert!(!long_mode_supported(0));
}

#[test]
fn gdt_descriptors() {
    let kc = make_code_segment(true);
    assert_eq!(kc.access, 0x9A);
    assert_eq!(kc.limit_high_flags, 0xA0);
    let uc = make_code_segment(false);
    assert_eq!(uc.access, 0xFA);
    let kd = make_data_segment(true);
    assert_eq!(kd.access, 0x92);
    assert_eq!(kd.limit_low, 0xffff);
    assert_eq!(kd.limit_high_flags, 0xC0);
    let t = make_tss_descriptor(0xffff_8000_1234_5678, 103);
    assert_eq!(t.limit_low, 103);
    assert_eq!(t.base_low, 0x5678);
    assert_eq!(t.base_mid, 0x34);
    assert_eq!(t.base_high, 0x12);
    assert_eq!(t.base_upper, 0xffff_8000);
    assert_eq!(t.access, 0x89);
    assert_eq!(t.limit_high_flags, 0x80);
}
