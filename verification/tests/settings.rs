use cretonne::riscv_settings;
use cretonne::settings::Error::{BadName, BadType, BadValue};
use cretonne::settings::{
    builder, parse_bool_value, parse_enum_value, parse_num_value, template, CallConv,
    Configurable, Detail, Flags, OptLevel, PredicateView,
};

#[test]
fn settings_display_default() {
    let b = builder();
    let f = Flags::new(b);
    assert_eq!(
        f.to_string(),
        "[shared]\n\
         opt_level = \"default\"\n\
         enable_verifier = true\n\
         is_64bit = false\n\
         call_conv = \"fast\"\n\
         is_pic = false\n\
         colocated_libcalls = false\n\
         return_at_end = false\n\
         avoid_div_traps = false\n\
         is_compressed = false\n\
         enable_float = true\n\
         enable_nan_canonicalization = false\n\
         enable_simd = true\n\
         enable_atomics = true\n\
         baldrdash_prologue_words = 0\n\
         allones_funcaddrs = false\n\
         probestack_enabled = true\n\
         probestack_func_adjusts_sp = false\n\
         probestack_size_log2 = 12\n"
    );
    assert_eq!(f.opt_level(), OptLevel::Default);
    assert_eq!(f.enable_simd(), true);
    assert_eq!(f.baldrdash_prologue_words(), 0);
}

#[test]
fn modify_bool() {
    let mut b = builder();
    assert_eq!(b.enable("not_there"), Err(BadName));
    assert_eq!(b.enable("enable_simd"), Ok(()));
    assert_eq!(b.set("enable_simd", "false"), Ok(()));

    let f = Flags::new(b);
    assert_eq!(f.enable_simd(), false);
}

#[test]
fn modify_string() {
    let mut b = builder();
    assert_eq!(b.set("not_there", "true"), Err(BadName));
    assert_eq!(b.set("enable_simd", ""), Err(BadValue));
    assert_eq!(b.set("enable_simd", "best"), Err(BadValue));
    assert_eq!(b.set("opt_level", "true"), Err(BadValue));
    assert_eq!(b.set("opt_level", "best"), Ok(()));
    assert_eq!(b.set("enable_simd", "0"), Ok(()));

    let f = Flags::new(b);
    assert_eq!(f.enable_simd(), false);
    assert_eq!(f.opt_level(), OptLevel::Best);
}

#[test]
fn predicates() {
    let shared = Flags::new(builder());
    let mut b = riscv_settings::builder();
    b.enable("supports_f").unwrap();
    b.enable("supports_d").unwrap();
    let f = riscv_settings::Flags::new(&shared, &b);
    assert_eq!(f.full_float(), true);

    let mut sb = builder();
    sb.set("enable_simd", "false").unwrap();
    let shared = Flags::new(sb);
    let mut b = riscv_settings::builder();
    b.enable("supports_f").unwrap();
    b.enable("supports_d").unwrap();
    let f = riscv_settings::Flags::new(&shared, &b);
    assert_eq!(f.full_float(), false);
}

#[test]
fn display_default() {
    let shared = Flags::new(builder());
    let b = riscv_settings::builder();
    let f = riscv_settings::Flags::new(&shared, &b);
    assert_eq!(
        f.to_string(),
        "[riscv]\n\
         supports_m = false\n\
         supports_a = false\n\
         supports_f = false\n\
         supports_d = false\n\
         enable_m = true\n\
         enable_e = false\n"
    );
    // Predicates are not part of the listing.
    assert_eq!(f.full_float(), false);
    assert_eq!(f.use_m(), false);
}

#[test]
fn riscv_use_m_takes_support_and_enable() {
    let shared = Flags::new(builder());
    let mut b = riscv_settings::builder();
    b.enable("supports_m").unwrap();
    let f = riscv_settings::Flags::new(&shared, &b);
    assert!(f.supports_m());
    assert!(f.use_m());
    b.set("enable_m", "off").unwrap();
    let f = riscv_settings::Flags::new(&shared, &b);
    assert!(!f.use_m());
    b.enable("supports_a").unwrap();
    let f = riscv_settings::Flags::new(&shared, &b);
    assert!(f.use_a());
}

#[test]
fn set_every_kind_of_setting() {
    let mut b = builder();
    // A numerical setting takes a byte in decimal, with or without a plus sign.
    assert_eq!(b.set("probestack_size_log2", "20"), Ok(()));
    assert_eq!(b.set("baldrdash_prologue_words", "+7"), Ok(()));
    assert_eq!(b.set("baldrdash_prologue_words", "256"), Err(BadValue));
    assert_eq!(b.set("baldrdash_prologue_words", "-1"), Err(BadValue));
    assert_eq!(b.set("baldrdash_prologue_words", "+"), Err(BadValue));
    assert_eq!(b.set("baldrdash_prologue_words", "1x"), Err(BadValue));
    // An enumerated setting takes one of its enumerators.
    assert_eq!(b.set("call_conv", "system_v"), Ok(()));
    assert_eq!(b.set("call_conv", "best"), Err(BadValue));
    // Only booleans can be enabled.
    assert_eq!(b.enable("opt_level"), Err(BadType));
    assert_eq!(b.enable("probestack_size_log2"), Err(BadType));
    assert_eq!(b.enable("is_64bit"), Ok(()));
    assert_eq!(b.set("is_pic", "yes"), Ok(()));
    assert_eq!(b.set("enable_verifier", "off"), Ok(()));
    assert_eq!(b.state_for("shared"), &[0u8, 2, 7, 20, 0x86, 0x16][..]);
    let f = Flags::try_new(b).unwrap();
    assert_eq!(f.probestack_size_log2(), 20);
    assert_eq!(f.baldrdash_prologue_words(), 7);
    assert_eq!(f.call_conv(), CallConv::SystemV);
    assert!(f.is_64bit());
    assert!(f.is_pic());
    assert!(!f.enable_verifier());
    assert!(f.enable_float());
    assert!(f.enable_atomics());
    assert!(f.to_string().contains("call_conv = \"system_v\"\n"));
    assert!(f.to_string().contains("probestack_size_log2 = 20\n"));
}

#[test]
fn flags_only_from_the_shared_group() {
    assert!(Flags::try_new(riscv_settings::builder()).is_none());
    assert!(Flags::try_new(builder()).is_some());
}

#[test]
fn parse_values() {
    for s in ["true", "on", "yes", "1"] {
        assert_eq!(parse_bool_value(s), Ok(true));
    }
    for s in ["false", "off", "no", "0"] {
        assert_eq!(parse_bool_value(s), Ok(false));
    }
    assert_eq!(parse_bool_value("True"), Err(BadValue));
    assert_eq!(parse_bool_value(""), Err(BadValue));
    let choices = ["a", "b", "b", "c"];
    assert_eq!(parse_enum_value("a", &choices), Ok(0));
    assert_eq!(parse_enum_value("b", &choices), Ok(1));
    assert_eq!(parse_enum_value("c", &choices), Ok(3));
    assert_eq!(parse_enum_value("d", &choices), Err(BadValue));
    assert_eq!(parse_enum_value("a", &[]), Err(BadValue));
    assert_eq!(parse_num_value("0"), Ok(0));
    assert_eq!(parse_num_value("255"), Ok(255));
    assert_eq!(parse_num_value("0000255"), Ok(255));
    assert_eq!(parse_num_value("+12"), Ok(12));
    assert_eq!(parse_num_value("256"), Err(BadValue));
    assert_eq!(parse_num_value(""), Err(BadValue));
    assert_eq!(parse_num_value("١"), Err(BadValue));
}

#[test]
fn template_parts() {
    let t = template();
    assert_eq!(t.enums(2, 0), &["default", "best", "fastest"][..]);
    assert_eq!(t.enums(5, 3).len(), 6);
    let mut out = String::new();
    t.format_toml_value(Detail::Bool { bit: 3 }, 0x08, &mut out);
    out.push(' ');
    t.format_toml_value(Detail::Bool { bit: 3 }, 0xf7, &mut out);
    out.push(' ');
    t.format_toml_value(Detail::Num, 200, &mut out);
    out.push(' ');
    t.format_toml_value(Detail::Enum { last: 2, enumerators: 0 }, 2, &mut out);
    out.push(' ');
    t.format_toml_value(Detail::Enum { last: 2, enumerators: 0 }, 3, &mut out);
    t.format_toml_value(Detail::Preset, 3, &mut out);
    assert_eq!(out, "true false 200 \"fastest\" 3");
    assert!(Detail::Preset.is_preset());
    assert!(!Detail::Num.is_preset());
    let bits = [0x01u8, 0x80];
    let view = PredicateView::new(&bits);
    assert!(view.test(0));
    assert!(!view.test(1));
    assert!(view.test(15));
    assert!(!view.test(14));
}
