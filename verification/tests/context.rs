use vtable_trace::context::{u32_at, u64_at, Ctx, CONTEXT_FULL, CTX_SIZE};

#[test]
fn fresh_context_holds_its_flags_only() {
    assert_eq!(CONTEXT_FULL, 0x0010_0000 | 0x1 | 0x2 | 0x8);
    let c = Ctx::new(CONTEXT_FULL);
    assert_eq!(c.read_u32(0x30), 0x0010_000b);
    assert_eq!(c.0[0x30..0x34], [0x0b, 0x00, 0x10, 0x00]);
    let zeros = c.0.iter().filter(|b| **b == 0).count();
    assert_eq!(zeros, CTX_SIZE - 2);
}

#[test]
fn fields_are_little_endian() {
    let mut c = Ctx::new(0);
    for i in 0..8 {
        c.0[0xf8 + i] = (i + 1) as u8;
    }
    assert_eq!(c.rip(), 0x0807_0605_0403_0201);
    assert_eq!(c.read_u32(0xf8), 0x0403_0201);
    assert_eq!(u64_at(&c.0, 0xf8), u64::from_le_bytes([1, 2, 3, 4, 5, 6, 7, 8]));
    assert_eq!(u32_at(&c.0, 0xfc), u32::from_le_bytes([5, 6, 7, 8]));
}

#[test]
fn registers_stand_at_their_offsets() {
    let mut c = Ctx::new(0);
    for (off, v) in [(0x80usize, 1u64), (0x88, 2), (0x98, 3), (0xb8, 4), (0xc0, 5), (0xf8, 6)] {
        c.write_u64(off, v);
    }
    c.write_u32(0x44, 7);
    assert_eq!((c.rcx(), c.rdx(), c.rsp(), c.r8(), c.r9(), c.rip(), c.eflags()), (1, 2, 3, 4, 5, 6, 7));
}

#[test]
fn writes_are_read_back_and_stay_local() {
    for v in [0u64, 1, 0xff, 0x0123_4567_89ab_cdef, u64::MAX] {
        let mut c = Ctx([0xa5; CTX_SIZE]);
        c.write_u64(CTX_SIZE - 8, v);
        assert_eq!(c.read_u64(CTX_SIZE - 8), v);
        assert_eq!(c.0[CTX_SIZE - 8..], v.to_le_bytes());
        assert!(c.0[..CTX_SIZE - 8].iter().all(|b| *b == 0xa5));
        c.set_rip(v);
        c.set_eflags(v as u32);
        assert_eq!(c.rip(), v);
        assert_eq!(c.eflags(), v as u32);
        assert_eq!(c.0[0x44..0x48], (v as u32).to_le_bytes());
        assert_eq!(c.0[0x43], 0xa5);
        assert_eq!(c.0[0x48], 0xa5);
    }
}

#[test]
fn rewriting_changes_nothing() {
    let mut c = Ctx::new(CONTEXT_FULL);
    for i in 0..CTX_SIZE {
        c.0[i] = (i * 7 % 256) as u8;
    }
    let before = c.0;
    let (a, b) = (c.read_u64(17), c.read_u32(1001));
    c.write_u64(17, a);
    c.write_u32(1001, b);
    assert_eq!(c.0, before);
}
