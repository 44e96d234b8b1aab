use vtable_trace::context::Ctx;
use vtable_trace::memory::{read_byte, read_qword, write_byte};
use vtable_trace::modules::ModuleSpan;
use vtable_trace::report::{
    write_attached, write_done, write_dump_header, write_failed_row, write_hit, write_resolved,
    write_slot_row, write_stack,
};
use vtable_trace::text::{push_decimal, push_hex, push_hex16, push_padded_end, push_padded_start};

fn modules() -> Vec<ModuleSpan> {
    vec![
        ModuleSpan { name: "game.exe".to_string(), base: 0x1_4000_0000, size: 0x10_0000 },
        ModuleSpan { name: "a-very-long-module.dll".to_string(), base: 0x7ff7_0000_0000, size: 0x1000 },
    ]
}

#[test]
fn numbers_are_written_as_the_standard_library_writes_them() {
    for v in [0u64, 1, 9, 10, 15, 16, 99, 100, 255, 256, 0xdead_beef, u64::MAX] {
        let mut t = String::from("=");
        push_hex(&mut t, v);
        t.push(' ');
        push_decimal(&mut t, v);
        t.push(' ');
        push_hex16(&mut t, v);
        assert_eq!(t, format!("={v:x} {v} {v:016x}"));
    }
}

#[test]
fn padding_counts_characters() {
    for s in ["", "a", "\u{e9}\u{e9}", "abcd", "abcde"] {
        let mut t = String::new();
        push_padded_end(&mut t, s, 4);
        t.push('|');
        push_padded_start(&mut t, s, ' ', 4);
        assert_eq!(t, format!("{s:<4}|{s:>4}"));
    }
}

#[test]
fn dump_header_names_the_module_of_the_vtable() {
    let (obj, vtable, entries) = (0x200_abcd_1000usize, 0x1_4000_1230u64, 16usize);
    let mut expected = format!("object  : 0x{obj:016x}\nvtable  : 0x{vtable:016x}\n");
    expected.push_str(&format!("vtable in: {} +0x{:x}\n", "game.exe", 0x1230));
    expected.push_str(&format!("entries : {entries}\n\n"));
    expected.push_str(&format!("{:<4} {:<18} {:<12} OFFSET", "SLOT", "ABSOLUTE", "MODULE"));
    assert_eq!(write_dump_header(&modules(), obj, vtable, entries), expected);
}

#[test]
fn dump_header_without_a_module() {
    assert_eq!(
        write_dump_header(&[], 1, 2, 0),
        "object  : 0x0000000000000001\nvtable  : 0x0000000000000002\nentries : 0\n\n\
         SLOT ABSOLUTE           MODULE       OFFSET"
    );
}

#[test]
fn rows_tell_where_a_slot_leads() {
    let (i, func) = (3usize, 0x1_4000_abcdu64);
    assert_eq!(
        write_slot_row(&modules(), i, func),
        format!("{i:<4} 0x{func:016x}  {:<12} +0x{:x}", "game.exe", 0xabcd)
    );
    let (i, func) = (12345usize, 0x7ff7_0000_0000u64);
    assert_eq!(
        write_slot_row(&modules(), i, func),
        format!("{i:<4} 0x{func:016x}  {:<12} +0x{:x}", "a-very-long-module.dll", 0)
    );
    assert_eq!(write_slot_row(&modules(), 0, 0), "0    0x0000000000000000  (null)");
    assert_eq!(write_slot_row(&modules(), 7, 5), "7    0x0000000000000005  (unmapped)");
    assert_eq!(write_failed_row(9, 0xfeed), "9    (read failed at 0xfeed)");
}

#[test]
fn hits_are_reported_with_their_registers() {
    let mut ctx = Ctx::new(0);
    ctx.write_u64(0x80, 0x11);
    ctx.write_u64(0x88, 0x22);
    ctx.write_u64(0xb8, 0x33);
    ctx.write_u64(0xc0, u64::MAX);
    for n in [1u64, 12, 123, 1234] {
        let (tid, rip, ret) = (4321u32, 0x7ff7_4a01_b540u64, 0x99u64);
        let expected = format!(
            "[hit {n:>3}] tid={tid}  rip=0x{rip:016x}  ret=0x{ret:016x}\n         rcx=0x{:016x}  rdx=0x{:016x}\n         r8 =0x{:016x}  r9 =0x{:016x}",
            0x11, 0x22, 0x33, u64::MAX
        );
        assert_eq!(write_hit(n, tid, rip, ret, &ctx), expected);
    }
}

#[test]
fn stack_shows_whole_words_only() {
    let bytes: Vec<u8> = (0u8..32).collect();
    for count in [0usize, 7, 8, 15, 16, 31, 32] {
        let mut line = String::from("         stack: ");
        for i in 0..count / 8 {
            let w = u64::from_le_bytes(bytes[i * 8..i * 8 + 8].try_into().unwrap());
            line.push_str(&format!("{w:016x} "));
        }
        assert_eq!(write_stack(&bytes, count), line.trim_end());
    }
    assert_eq!(write_stack(&bytes, 9), "         stack: 0706050403020100");
}

#[test]
fn progress_lines() {
    assert_eq!(write_resolved(0x200, 3, 0xabc), "resolved obj 0x200 slot 3 -> 0xabc");
    assert_eq!(write_attached(1234, 0xabc), "attached to pid 1234 \u{2014} INT3 at 0xabc; Ctrl+C to detach");
    assert_eq!(write_done(0), "done \u{2014} 0 hit(s)");
    assert_eq!(write_done(17), "done \u{2014} 17 hit(s)");
}

#[test]
fn replies_to_reads_and_writes() {
    let refused: Result<usize, String> = Err("Access is denied.".to_string());
    assert_eq!(read_byte(0x10, &Ok(1), 7), Ok(7));
    assert_eq!(read_byte(0x10, &Ok(0), 7), Err("short read at 0x10".to_string()));
    assert_eq!(read_byte(0x10, &refused, 7), Err("ReadProcessMemory at 0x10: Access is denied.".to_string()));
    let bytes = [1u8, 2, 3, 4, 5, 6, 7, 8];
    assert_eq!(read_qword(0x20, &Ok(8), &bytes), Ok(0x0807_0605_0403_0201));
    assert_eq!(read_qword(0x20, &Ok(7), &bytes), Err("short read at 0x20".to_string()));
    assert_eq!(read_qword(0x20, &refused, &bytes), Err("ReadProcessMemory at 0x20: Access is denied.".to_string()));
    assert_eq!(write_byte(0x30, &Ok(1)), Ok(()));
    assert_eq!(write_byte(0x30, &Ok(0)), Err("short write at 0x30".to_string()));
    assert_eq!(write_byte(0x30, &refused), Err("WriteProcessMemory at 0x30: Access is denied.".to_string()));
}
