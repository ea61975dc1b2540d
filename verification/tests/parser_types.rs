use apyxl::model::{EntityId, Type};
use apyxl::parser::types::{builtin_ty, spelling, ty, user_ty};
use apyxl::parser::{Config, UserType};
use apyxl::text::chars_of;

fn config() -> Config {
    Config {
        user_types: vec![UserType { parse: "user_type".to_string(), name: "user".to_string() }],
    }
}

fn run_test(data: &str, expected: Type) {
    let text = chars_of(data);
    let (found, end) = ty(&config(), &text, 0).unwrap();
    assert_eq!(found, expected);
    assert_eq!(end, text.len());
}

#[test]
fn ty_bool() {
    run_test("bool", Type::Bool);
}

#[test]
fn ty_u8() {
    run_test("u8", Type::U8);
}

#[test]
fn ty_u16() {
    run_test("u16", Type::U16);
}

#[test]
fn ty_u32() {
    run_test("u32", Type::U32);
}

#[test]
fn ty_u64() {
    run_test("u64", Type::U64);
}

#[test]
fn ty_u128() {
    run_test("u128", Type::U128);
}

#[test]
fn ty_i8() {
    run_test("i8", Type::I8);
}

#[test]
fn ty_i16() {
    run_test("i16", Type::I16);
}

#[test]
fn ty_i32() {
    run_test("i32", Type::I32);
}

#[test]
fn ty_i64() {
    run_test("i64", Type::I64);
}

#[test]
fn ty_i128() {
    run_test("i128", Type::I128);
}

#[test]
fn ty_f8() {
    run_test("f8", Type::F8);
}

#[test]
fn ty_f16() {
    run_test("f16", Type::F16);
}

#[test]
fn ty_f32() {
    run_test("f32", Type::F32);
}

#[test]
fn ty_f64() {
    run_test("f64", Type::F64);
}

#[test]
fn ty_f128() {
    run_test("f128", Type::F128);
}

#[test]
fn ty_string() {
    run_test("String", Type::String);
}

#[test]
fn ty_bytes() {
    run_test("Vec<u8>", Type::Bytes);
}

#[test]
fn ty_u8_ref() {
    run_test("&u8", Type::U8);
}

#[test]
fn ty_u16_ref() {
    run_test("&u16", Type::U16);
}

#[test]
fn ty_u32_ref() {
    run_test("&u32", Type::U32);
}

#[test]
fn ty_u64_ref() {
    run_test("&u64", Type::U64);
}

#[test]
fn ty_u128_ref() {
    run_test("&u128", Type::U128);
}

#[test]
fn ty_i8_ref() {
    run_test("&i8", Type::I8);
}

#[test]
fn ty_i16_ref() {
    run_test("&i16", Type::I16);
}

#[test]
fn ty_i32_ref() {
    run_test("&i32", Type::I32);
}

#[test]
fn ty_i64_ref() {
    run_test("&i64", Type::I64);
}

#[test]
fn ty_i128_ref() {
    run_test("&i128", Type::I128);
}

#[test]
fn ty_f8_ref() {
    run_test("&f8", Type::F8);
}

#[test]
fn ty_f16_ref() {
    run_test("&f16", Type::F16);
}

#[test]
fn ty_f32_ref() {
    run_test("&f32", Type::F32);
}

#[test]
fn ty_f64_ref() {
    run_test("&f64", Type::F64);
}

#[test]
fn ty_f128_ref() {
    run_test("&f128", Type::F128);
}

#[test]
fn ty_string_ref() {
    run_test("&String", Type::String);
}

#[test]
fn ty_bytes_ref() {
    run_test("&Vec<u8>", Type::Bytes);
}

#[test]
fn ty_str() {
    run_test("&str", Type::String);
}

#[test]
fn ty_bytes_slice() {
    run_test("&[u8]", Type::Bytes);
}

#[test]
fn ty_entity_id() {
    run_test("a::b::c", Type::Api(EntityId::from("a.b.c")));
}

#[test]
fn ty_user() {
    run_test("user_type", Type::User("user".to_string()));
}

#[test]
fn earlier_user_type_wins_where_two_match() {
    let config = Config {
        user_types: vec![
            UserType { parse: "u_a".to_string(), name: "A".to_string() },
            UserType { parse: "u_ab".to_string(), name: "B".to_string() },
        ],
    };
    let text = chars_of("u_ab");
    let (name, end) = user_ty(&config, &text, 0).unwrap();
    assert_eq!(name, "A");
    assert_eq!(end, 3);
    let (found, end) = ty(&config, &text, 0).unwrap();
    assert_eq!(found, Type::User("A".to_string()));
    assert_eq!(end, 3);
}

#[test]
fn later_user_type_wins_where_the_earlier_does_not_match() {
    let config = Config {
        user_types: vec![
            UserType { parse: "u_ab".to_string(), name: "B".to_string() },
            UserType { parse: "u_a".to_string(), name: "A".to_string() },
        ],
    };
    let text = chars_of("u_ac");
    assert_eq!(user_ty(&config, &text, 0), Some(("A".to_string(), 3)));
    let text = chars_of("u_ab");
    assert_eq!(user_ty(&config, &text, 0), Some(("B".to_string(), 4)));
}

#[test]
fn user_type_that_does_not_match_consumes_nothing() {
    let text = chars_of("user_typo");
    assert_eq!(user_ty(&config(), &text, 0), None);
    let (found, end) = ty(&config(), &text, 0).unwrap();
    assert_eq!(found, Type::Api(EntityId::from("user_typo")));
    assert_eq!(end, 9);
}

#[test]
fn builtin_type_wins_over_a_user_type_of_the_same_spelling() {
    let config = Config {
        user_types: vec![UserType { parse: "i32".to_string(), name: "int".to_string() }],
    };
    let text = chars_of("i32");
    assert_eq!(ty(&config, &text, 0), Some((Type::I32, 3)));
}

#[test]
fn builtin_type_is_a_whole_word() {
    for name in ["boolean", "u8x", "i32_t", "Stringy", "f64_", "u1289", "String1"] {
        let text = chars_of(name);
        assert_eq!(builtin_ty(&text, 0), None, "{}", name);
        assert_eq!(
            ty(&config(), &text, 0),
            Some((Type::Api(EntityId::from(name)), text.len())),
            "{}",
            name
        );
    }
    assert_eq!(ty(&config(), &chars_of("&u8x"), 0), Some((Type::Api(EntityId::from("&u8x")), 4)));
    assert_eq!(ty(&config(), &chars_of("&strs"), 0), Some((Type::Api(EntityId::from("&strs")), 5)));
    assert_eq!(builtin_ty(&chars_of("Vec<u8>x"), 0), None);
    assert_eq!(builtin_ty(&chars_of("&[u8]x"), 0), None);
    assert_eq!(builtin_ty(&chars_of("u1"), 0), None);
}

#[test]
fn builtin_type_ends_before_what_is_no_word() {
    assert_eq!(builtin_ty(&chars_of("bool"), 0), Some((Type::Bool, 4)));
    assert_eq!(builtin_ty(&chars_of("bool,"), 0), Some((Type::Bool, 4)));
    assert_eq!(builtin_ty(&chars_of("u128 }"), 0), Some((Type::U128, 4)));
    assert_eq!(builtin_ty(&chars_of("String/*c*/"), 0), Some((Type::String, 6)));
    assert_eq!(builtin_ty(&chars_of("u8::x"), 0), Some((Type::U8, 2)));
    assert_eq!(builtin_ty(&chars_of("&Vec<u8>)"), 0), Some((Type::Bytes, 8)));
    assert_eq!(builtin_ty(&chars_of("&str{"), 0), Some((Type::String, 4)));
    assert_eq!(builtin_ty(&chars_of("&[u8]\n"), 0), Some((Type::Bytes, 5)));
    assert_eq!(spelling(&chars_of("u8é"), 0, "u8"), Some(2));
    assert_eq!(spelling(&chars_of("u8_"), 0, "u8"), None);
    assert_eq!(spelling(&chars_of("xu8"), 1, "u8"), Some(3));
    assert_eq!(spelling(&chars_of("u"), 0, "u8"), None);
}

#[test]
fn user_type_is_read_as_a_prefix() {
    let text = chars_of("user_types");
    assert_eq!(user_ty(&config(), &text, 0), Some(("user".to_string(), 9)));
    assert_eq!(ty(&config(), &text, 0), Some((Type::User("user".to_string()), 9)));
}

#[test]
fn type_at_a_later_position() {
    let text = chars_of("x: &u64,");
    assert_eq!(ty(&config(), &text, 3), Some((Type::U64, 7)));
}

#[test]
fn type_name_takes_the_reference_mark_only_in_front() {
    let text = chars_of("a&b");
    let (found, end) = ty(&config(), &text, 0).unwrap();
    assert_eq!(found, Type::Api(EntityId::from("a")));
    assert_eq!(end, 1);
    let text = chars_of("<T>");
    assert_eq!(ty(&config(), &text, 0), None);
    let text = chars_of("9a");
    assert_eq!(ty(&config(), &text, 0), None);
}

#[test]
fn qualified_name_stops_before_a_dangling_separator() {
    let text = chars_of("a::b::");
    let (found, end) = ty(&config(), &text, 0).unwrap();
    assert_eq!(found, Type::Api(EntityId::from("a.b")));
    assert_eq!(end, 4);
}

#[test]
fn api_and_user_accessors() {
    let api = Type::Api(EntityId::from("a.b"));
    assert_eq!(api.api().unwrap().path, vec!["a", "b"]);
    assert!(api.user().is_none());
    let user = Type::User("u".to_string());
    assert_eq!(user.user(), Some("u"));
    assert!(user.api().is_none());
    assert!(Type::Bool.api().is_none());
}
