use vtable_trace::modules::{enumerate_modules, locate, ModuleSpan, RawModule};
use vtable_trace::utf16::decode_name;

fn raw(name: &str, base: usize, size: u32) -> RawModule {
    let mut units: Vec<u16> = name.encode_utf16().collect();
    units.resize(256, 0);
    RawModule { name: units, base, size }
}

fn span(name: &str, base: usize, size: usize) -> ModuleSpan {
    ModuleSpan { name: name.to_string(), base, size }
}

#[test]
fn names_are_decoded_as_the_standard_library_decodes_them() {
    let names: [&[u16]; 12] = [
        &[],
        &[0x61],
        &[0xd834, 0xdd1e, 0x6d, 0x75, 0x73, 0xdd1e, 0x69, 0x63, 0xd834],
        &[0xd800],
        &[0xdc00],
        &[0xd800, 0xd800, 0xdc00],
        &[0xdc00, 0xd800],
        &[0xdbff, 0xdfff],
        &[0xd7ff, 0xe000, 0xffff],
        &[0xd800, 0x41],
        &[0xdfff, 0xdbff, 0xdfff, 0xdbff],
        &[0xfffd],
    ];
    for units in names {
        assert_eq!(decode_name(units), String::from_utf16_lossy(units), "{units:x?}");
    }
}

#[test]
fn names_end_at_the_first_zero() {
    assert_eq!(decode_name(&[0x61, 0x62, 0, 0x63]), "ab");
    assert_eq!(decode_name(&[0, 0x63]), "");
    assert_eq!(decode_name(&[0x61, 0x62]), "ab");
}

#[test]
fn every_text_is_got_back_from_its_encoding() {
    for text in ["kernel32.dll", "\u{e4}\u{2014}\u{1d11e}x", ""] {
        let units: Vec<u16> = text.encode_utf16().collect();
        assert_eq!(decode_name(&units), text);
    }
}

#[test]
fn modules_are_sorted_by_base_and_otherwise_stay_in_order() {
    let listed = vec![
        raw("c", 0x3000, 1),
        raw("a1", 0x1000, 2),
        raw("b", 0x2000, 3),
        raw("a2", 0x1000, 4),
        raw("z", 0, 5),
        raw("a3", 0x1000, 6),
    ];
    let mut expected: Vec<ModuleSpan> = listed
        .iter()
        .map(|m| {
            let n = m.name.iter().position(|&c| c == 0).unwrap_or(m.name.len());
            span(&String::from_utf16_lossy(&m.name[..n]), m.base, m.size as usize)
        })
        .collect();
    expected.sort_by_key(|m| m.base);
    let got = enumerate_modules(&listed);
    assert_eq!(got, expected);
    let names: Vec<&str> = got.iter().map(|m| m.name.as_str()).collect();
    assert_eq!(names, ["z", "a1", "a2", "a3", "b", "c"]);
    assert_eq!(enumerate_modules(&Vec::new()), Vec::new());
}

#[test]
fn addresses_are_located_in_the_first_module_that_holds_them() {
    let m = [span("a", 0x1000, 0x1000), span("b", 0x2000, 0x800), span("c", 0x2400, 0x1000)];
    assert_eq!(locate(&m, 0xfff), None);
    assert_eq!(locate(&m, 0x1000), Some(("a", 0)));
    assert_eq!(locate(&m, 0x1fff), Some(("a", 0xfff)));
    assert_eq!(locate(&m, 0x2000), Some(("b", 0)));
    assert_eq!(locate(&m, 0x2500), Some(("b", 0x500)));
    assert_eq!(locate(&m, 0x2800), Some(("c", 0x400)));
    assert_eq!(locate(&m, 0x3400), None);
    assert_eq!(locate(&[], 0), None);
    assert_eq!(locate(&[span("empty", 5, 0)], 5), None);
    assert_eq!(locate(&[span("top", usize::MAX - 1, 1)], usize::MAX - 1), Some(("top", 0)));
}

#[test]
fn a_span_past_the_end_of_the_address_space_holds_nothing() {
    let m = [span("wrap", usize::MAX - 1, 16)];
    assert_eq!(locate(&m, usize::MAX), None);
    assert_eq!(locate(&m, 3), None);
}
