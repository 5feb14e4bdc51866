use rtld::nid::get_nid;

// Golden values computed independently: SHA-1 of the name followed by
// the fixed salt, low 64 bits little-endian, encoded over the alphabet.

#[test]
fn nid_module_start() {
    assert_eq!(get_nid(&b"module_start".to_vec()), b"BaOKcng8g88".to_vec());
}

#[test]
fn nid_module_stop() {
    assert_eq!(get_nid(&b"module_stop".to_vec()), b"KpDMrPHvt3Q".to_vec());
}

#[test]
fn nid_load_start_module() {
    assert_eq!(
        get_nid(&b"sceKernelLoadStartModule".to_vec()),
        b"wzvqT4UqKX8".to_vec()
    );
}

#[test]
fn nid_empty_name() {
    assert_eq!(get_nid(&b"".to_vec()), b"B4c6vzgC+Xc".to_vec());
}

#[test]
fn nid_deterministic() {
    let a = get_nid(&b"some_symbol".to_vec());
    let b = get_nid(&b"some_symbol".to_vec());
    assert_eq!(a, b);
    assert_eq!(a.len(), 11);
}

#[test]
fn nid_alphabet_only() {
    let n = get_nid(&b"anything at all, even spaces \x01\x02".to_vec());
    for c in n {
        let ok = (b'A'..=b'Z').contains(&c)
            || (b'a'..=b'z').contains(&c)
            || (b'0'..=b'9').contains(&c)
            || c == b'+'
            || c == b'-';
        assert!(ok);
    }
}
