use bios_trampoline::shim::{with_shim, ShimError};

fn strings(parts: &[&str]) -> Vec<String> {
    parts.iter().map(|p| String::from(*p)).collect()
}

#[test]
fn shim_reference_is_a_pure_rewrite() {
    let c = with_shim(&strings(&["3", "DoThing", "a", "b"])).unwrap();
    assert_eq!(c.callee, "SHIM3_DoThing");
    assert_eq!(c.args, vec![String::from("a"), String::from("b")]);
}

#[test]
fn no_forwarded_arguments_gives_empty_call() {
    let c = with_shim(&strings(&["12", "Reset"])).unwrap();
    assert_eq!(c.callee, "SHIM12_Reset");
    assert_eq!(c.args, Vec::<String>::new());
}

#[test]
fn forwarded_arguments_keep_order_and_count() {
    let c = with_shim(&strings(&["0", "F", "z", "y", "x", "w"])).unwrap();
    assert_eq!(c.callee, "SHIM0_F");
    assert_eq!(c.args, strings(&["z", "y", "x", "w"]));
}

#[test]
fn missing_function_name_fails() {
    assert_eq!(with_shim(&strings(&["3"])), Err(ShimError::BadTarget));
}

#[test]
fn missing_index_fails() {
    assert_eq!(with_shim(&strings(&[])), Err(ShimError::BadIndex));
}

#[test]
fn non_integer_index_fails() {
    assert_eq!(
        with_shim(&strings(&["x", "DoThing"])),
        Err(ShimError::BadIndex)
    );
    assert_eq!(
        with_shim(&strings(&["3a", "DoThing"])),
        Err(ShimError::BadIndex)
    );
    assert_eq!(
        with_shim(&strings(&["-1", "DoThing"])),
        Err(ShimError::BadIndex)
    );
}

#[test]
fn non_identifier_target_fails() {
    assert_eq!(with_shim(&strings(&["3", "1+1"])), Err(ShimError::BadTarget));
    assert_eq!(
        with_shim(&strings(&["3", "a::b"])),
        Err(ShimError::BadTarget)
    );
    assert_eq!(with_shim(&strings(&["3", ""])), Err(ShimError::BadTarget));
}

#[test]
fn index_uses_numeric_value_not_spelling() {
    let c = with_shim(&strings(&["007", "D"])).unwrap();
    assert_eq!(c.callee, "SHIM7_D");
}

#[test]
fn hex_octal_binary_indexes_render_in_base_ten() {
    let c = with_shim(&strings(&["0x10", "DoThing", "a", "b"])).unwrap();
    assert_eq!(c.callee, "SHIM16_DoThing");
    assert_eq!(c.args, strings(&["a", "b"]));
    assert_eq!(with_shim(&strings(&["0o17", "F"])).unwrap().callee, "SHIM15_F");
    assert_eq!(with_shim(&strings(&["0b101", "F"])).unwrap().callee, "SHIM5_F");
    assert_eq!(with_shim(&strings(&["0xfF", "F"])).unwrap().callee, "SHIM255_F");
}

#[test]
fn separators_and_standard_suffixes_are_accepted() {
    assert_eq!(with_shim(&strings(&["1_000", "F"])).unwrap().callee, "SHIM1000_F");
    assert_eq!(with_shim(&strings(&["0x_1", "F"])).unwrap().callee, "SHIM1_F");
    assert_eq!(with_shim(&strings(&["5u32", "F"])).unwrap().callee, "SHIM5_F");
    assert_eq!(with_shim(&strings(&["7_i64", "F"])).unwrap().callee, "SHIM7_F");
    assert_eq!(with_shim(&strings(&["9usize", "F"])).unwrap().callee, "SHIM9_F");
}

#[test]
fn malformed_literals_fail() {
    for bad in ["0x", "0b2", "0o8", "0x__", "5u7", "0X10", "_1", "5e3"] {
        assert_eq!(
            with_shim(&strings(&[bad, "F"])),
            Err(ShimError::BadIndex),
            "index text {:?}",
            bad
        );
    }
}

#[test]
fn index_width_limits() {
    let c = with_shim(&strings(&["4294967295", "F"])).unwrap();
    assert_eq!(c.callee, "SHIM4294967295_F");
    assert_eq!(
        with_shim(&strings(&["4294967296", "F"])),
        Err(ShimError::BadIndex)
    );
    let c = with_shim(&strings(&["0xFFFFFFFF", "F"])).unwrap();
    assert_eq!(c.callee, "SHIM4294967295_F");
    assert_eq!(
        with_shim(&strings(&["0x100000000", "F"])),
        Err(ShimError::BadIndex)
    );
}
