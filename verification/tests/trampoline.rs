use bios_trampoline::ast::{FnAttr, FnBody, FnDef, Instr};
use bios_trampoline::trampoline::{bios_call, TransformError};

fn sample(attrs: Vec<FnAttr>) -> FnDef {
    FnDef {
        name: String::from("GetTime"),
        attrs,
        body: FnBody::Source(String::from("{ read_rtc() }")),
    }
}

#[test]
fn plain_transform_emits_two_functions() {
    let f = sample(vec![FnAttr::NoMangle]);
    let (raw, tramp) = bios_call(&f, "").unwrap();

    assert_eq!(raw.name, "RAW_GetTime");
    assert_eq!(raw.attrs, vec![]);
    assert_eq!(raw.body, FnBody::Source(String::from("{ read_rtc() }")));

    assert_eq!(tramp.name, "GetTime");
    assert_eq!(
        tramp.attrs,
        vec![FnAttr::NoMangle, FnAttr::Naked, FnAttr::InstructionSetA32]
    );
    match tramp.body {
        FnBody::Instrs(instrs) => {
            assert_eq!(
                instrs,
                vec![
                    Instr::LoadAddr(String::from("RAW_GetTime")),
                    Instr::BranchTo(String::from("BiosSafeShim")),
                ]
            );
        }
        other => panic!("trampoline body is not raw instructions: {:?}", other),
    }
}

#[test]
fn plain_trampoline_instruction_text() {
    let f = sample(vec![FnAttr::NoMangle]);
    let (_, tramp) = bios_call(&f, "").unwrap();
    let FnBody::Instrs(instrs) = tramp.body else {
        panic!("trampoline body is not raw instructions");
    };
    let text: Vec<String> = instrs.iter().map(|i| i.text()).collect();
    assert_eq!(text, vec!["ldr ip, =RAW_GetTime", "b BiosSafeShim"]);
}

#[test]
fn expand64_prepends_marshalling_instructions() {
    let f = sample(vec![FnAttr::NoMangle]);
    let (_, tramp) = bios_call(&f, "expand64").unwrap();
    let FnBody::Instrs(instrs) = tramp.body else {
        panic!("trampoline body is not raw instructions");
    };
    assert_eq!(instrs.len(), 4);
    let text: Vec<String> = instrs.iter().map(|i| i.text()).collect();
    assert_eq!(
        text,
        vec![
            "mov r2, r1",
            "add r1, r1, #4",
            "ldr ip, =RAW_GetTime",
            "b BiosSafeShim",
        ]
    );
}

#[test]
fn missing_marker_fails_with_no_output() {
    let f = sample(vec![]);
    assert_eq!(bios_call(&f, ""), Err(TransformError::MissingMarker));

    let g = sample(vec![FnAttr::Other(String::from("inline"))]);
    assert_eq!(bios_call(&g, "expand64"), Err(TransformError::MissingMarker));
}

#[test]
fn other_attributes_carry_over() {
    let f = sample(vec![
        FnAttr::Other(String::from("inline")),
        FnAttr::NoMangle,
        FnAttr::Other(String::from("cold")),
    ]);
    let (raw, tramp) = bios_call(&f, "").unwrap();
    assert_eq!(
        raw.attrs,
        vec![
            FnAttr::Other(String::from("inline")),
            FnAttr::Other(String::from("cold")),
        ]
    );
    assert_eq!(
        tramp.attrs,
        vec![
            FnAttr::Other(String::from("inline")),
            FnAttr::NoMangle,
            FnAttr::Other(String::from("cold")),
            FnAttr::Naked,
            FnAttr::InstructionSetA32,
        ]
    );
}

#[test]
fn unrecognized_modifier_has_no_effect() {
    let f = sample(vec![FnAttr::NoMangle]);
    let (_, tramp) = bios_call(&f, "expand_64").unwrap();
    let FnBody::Instrs(instrs) = tramp.body else {
        panic!("trampoline body is not raw instructions");
    };
    assert_eq!(instrs.len(), 2);
}

#[test]
fn modifier_list_accepts_whitespace_duplicates_and_trailing_comma() {
    let f = sample(vec![FnAttr::NoMangle]);
    let (_, tramp) = bios_call(&f, "  expand64 , other , expand64 ,  ").unwrap();
    let FnBody::Instrs(instrs) = tramp.body else {
        panic!("trampoline body is not raw instructions");
    };
    assert_eq!(instrs.len(), 4);
}

#[test]
fn malformed_modifier_list_fails() {
    let f = sample(vec![FnAttr::NoMangle]);
    assert_eq!(bios_call(&f, ","), Err(TransformError::MalformedOptions));
    assert_eq!(bios_call(&f, "a,,b"), Err(TransformError::MalformedOptions));
    assert_eq!(bios_call(&f, "1abc"), Err(TransformError::MalformedOptions));
    assert_eq!(bios_call(&f, "a b"), Err(TransformError::MalformedOptions));
    assert_eq!(bios_call(&f, "a+b"), Err(TransformError::MalformedOptions));
}

#[test]
fn marker_missing_and_bad_options_reports_marker_first() {
    let f = sample(vec![]);
    assert_eq!(bios_call(&f, ",,,"), Err(TransformError::MissingMarker));
}
