use disassembler::registers::register_name;

#[test]
fn named_registers() {
    assert_eq!(register_name(0), Some("zero".to_string()));
    assert_eq!(register_name(31), Some("ra".to_string()));
    assert_eq!(register_name(8), Some("t0".to_string()));
    assert_eq!(register_name(24), Some("t8".to_string()));
    assert_eq!(register_name(16), Some("s0".to_string()));
}

#[test]
fn whole_register_table() {
    let expected = [
        "zero", "at", "v0", "v1", "a0", "a1", "a2", "a3", "t0", "t1", "t2", "t3",
        "t4", "t5", "t6", "t7", "s0", "s1", "s2", "s3", "s4", "s5", "s6", "s7",
        "t8", "t9", "k0", "k1", "gp", "sp", "fp", "ra",
    ];
    for (index, name) in expected.iter().enumerate() {
        assert_eq!(register_name(index as u32), Some(name.to_string()));
    }
}

#[test]
fn temporaries_come_in_two_runs() {
    assert_eq!(register_name(15), Some("t7".to_string()));
    assert_eq!(register_name(25), Some("t9".to_string()));
    assert_eq!(register_name(23), Some("s7".to_string()));
}

#[test]
fn no_name_outside_the_register_file() {
    assert_eq!(register_name(32), None);
    assert_eq!(register_name(33), None);
    assert_eq!(register_name(u32::MAX), None);
}

#[test]
fn register_names_are_distinct() {
    for a in 0u32..32 {
        for b in 0u32..32 {
            if a != b {
                assert_ne!(register_name(a), register_name(b));
            }
        }
    }
}
