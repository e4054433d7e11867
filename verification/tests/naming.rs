use bios_trampoline::naming::{rename, slot_name, u32_to_dec};

#[test]
fn rename_prefixes_the_original_name() {
    assert_eq!(rename("GetTime"), "RAW_GetTime");
    assert_eq!(rename("F"), "RAW_F");
}

#[test]
fn distinct_names_stay_distinct_after_renaming() {
    let names = ["A", "B", "RAW_A", "A_", "_A"];
    for (i, a) in names.iter().enumerate() {
        for (j, b) in names.iter().enumerate() {
            if i != j {
                assert_ne!(rename(a), rename(b));
            }
        }
    }
}

#[test]
fn decimal_rendering() {
    assert_eq!(u32_to_dec(0), "0");
    assert_eq!(u32_to_dec(7), "7");
    assert_eq!(u32_to_dec(10), "10");
    assert_eq!(u32_to_dec(40960), "40960");
    assert_eq!(u32_to_dec(u32::MAX), "4294967295");
}

#[test]
fn distinct_slots_stay_distinct() {
    let slots: [(u32, &str); 5] = [(1, "x"), (2, "x"), (1, "y"), (12, "x"), (1, "2_x")];
    for (i, a) in slots.iter().enumerate() {
        for (j, b) in slots.iter().enumerate() {
            if i != j {
                assert_ne!(slot_name(a.0, a.1), slot_name(b.0, b.1));
            }
        }
    }
}

#[test]
fn slot_names() {
    assert_eq!(slot_name(0, "x"), "SHIM0_x");
    assert_eq!(slot_name(3, "DoThing"), "SHIM3_DoThing");
    assert_eq!(slot_name(255, "ReadCard"), "SHIM255_ReadCard");
}
