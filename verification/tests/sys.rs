use netbase::{get_available_memory, get_sys_info, mebibytes, SysInfo};

#[test]
fn mebibytes_truncates() {
    assert_eq!(mebibytes(0), 0);
    assert_eq!(mebibytes(1024 * 1024 - 1), 0);
    assert_eq!(mebibytes(3 * 1024 * 1024 + 5), 3);
    assert_eq!(mebibytes(u64::MAX), ((u64::MAX / 1024 / 1024) as u32));
}

#[test]
fn sys_info_from_parts_cuts_cpu_count() {
    let info = SysInfo::from_parts(8, "cpu".to_string(), "linux".to_string(), "x86_64".to_string());
    assert_eq!(info.cpu_count, 8);
    assert_eq!(info.cpu_name, "cpu");
    let big = SysInfo::from_parts((1usize << 32) + 3, String::new(), String::new(), String::new());
    assert_eq!(big.cpu_count, 3);
}

#[test]
fn host_facts_read() {
    let info = get_sys_info("linux".to_string(), "x86_64".to_string());
    assert_eq!(info.os, "linux");
    assert_eq!(info.arch, "x86_64");
    let _ = get_available_memory();
}
