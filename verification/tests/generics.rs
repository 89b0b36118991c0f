use crucible_idl_gen::generics::{
    array_len_to_tokens, generic_args_to_tokens, generic_params_decl, generic_params_use,
    parse_const_generic_type, try_array_len_to_tokens, try_generic_params_decl,
    try_generic_params_use, try_type_generic_bounds, type_generic_bounds, ArrayLen, GenericArg,
    GenericParam,
};
use crucible_idl_gen::tokens::{is_plain_ident_str, single_ident_stream, try_ident_stream};
use proc_macro2::TokenStream;

fn ty(name: &str) -> GenericParam {
    GenericParam::Type { name: name.into() }
}

fn cnst(name: &str, ty: &str) -> GenericParam {
    GenericParam::Const {
        name: name.into(),
        ty: parse_const_generic_type(ty).unwrap(),
    }
}

fn stream(src: &str) -> TokenStream {
    src.parse().unwrap()
}

#[test]
fn decl_empty() {
    assert!(generic_params_decl(&[]).is_empty());
}

#[test]
fn decl_type_only() {
    let gs = vec![ty("A"), ty("B")];
    assert_eq!(generic_params_decl(&gs).to_string(), "< A , B >");
}

#[test]
fn decl_mixed_type_and_const() {
    let gs = vec![ty("A"), cnst("N", "usize")];
    assert_eq!(
        generic_params_decl(&gs).to_string(),
        "< A , const N : usize >"
    );
}

#[test]
fn use_mixed() {
    let gs = vec![ty("A"), cnst("N", "usize")];
    assert_eq!(generic_params_use(&gs).to_string(), "< A , N >");
}

#[test]
fn args_type() {
    let args = vec![GenericArg::Type { ty: stream("u64") }];
    assert_eq!(generic_args_to_tokens(&args).to_string(), "< u64 >");
}

#[test]
fn args_const() {
    let args = vec![GenericArg::Const { value: stream("8") }];
    assert_eq!(generic_args_to_tokens(&args).to_string(), "< 8 >");
}

#[test]
fn args_mixed() {
    let args = vec![
        GenericArg::Type { ty: stream("u64") },
        GenericArg::Const { value: stream("8") },
    ];
    assert_eq!(generic_args_to_tokens(&args).to_string(), "< u64 , 8 >");
}

#[test]
fn array_len_value() {
    assert_eq!(
        array_len_to_tokens(&ArrayLen::Value(32)).to_string(),
        "32usize"
    );
}

#[test]
fn array_len_generic() {
    assert_eq!(
        array_len_to_tokens(&ArrayLen::Generic("N".into())).to_string(),
        "N"
    );
}

#[test]
fn array_len_zero_and_max() {
    assert_eq!(array_len_to_tokens(&ArrayLen::Value(0)).to_string(), "0usize");
    assert_eq!(
        array_len_to_tokens(&ArrayLen::Value(1005)).to_string(),
        "1005usize"
    );
}

#[test]
fn use_empty_and_args_empty() {
    assert!(generic_params_use(&[]).is_empty());
    assert!(generic_args_to_tokens(&[]).is_empty());
}

#[test]
fn decl_three_params() {
    let gs = vec![ty("T"), cnst("N", "u8"), ty("U")];
    assert_eq!(
        generic_params_decl(&gs).to_string(),
        "< T , const N : u8 , U >"
    );
    assert_eq!(generic_params_use(&gs).to_string(), "< T , N , U >");
}

#[test]
fn decl_const_type_with_path() {
    let gs = vec![cnst("N", "core::primitive::usize")];
    assert_eq!(
        generic_params_decl(&gs).to_string(),
        "< const N : core :: primitive :: usize >"
    );
}

#[test]
fn raw_identifier_name() {
    let gs = vec![ty("r#type")];
    assert_eq!(generic_params_use(&gs).to_string(), "< r#type >");
    assert_eq!(generic_params_decl(&gs).to_string(), "< r#type >");
}

#[test]
fn bounds_on_type_params_only() {
    let gs = vec![ty("A"), cnst("N", "usize"), ty("B")];
    assert_eq!(
        type_generic_bounds(&gs, stream("bytemuck::Pod")).to_string(),
        "where A : bytemuck :: Pod , B : bytemuck :: Pod"
    );
}

#[test]
fn bounds_empty_without_type_params() {
    assert!(type_generic_bounds(&[], stream("Copy")).is_empty());
    let gs = vec![cnst("N", "usize"), cnst("M", "u8")];
    assert!(type_generic_bounds(&gs, stream("Copy")).is_empty());
}

#[test]
fn bounds_single_param() {
    let gs = vec![ty("T")];
    assert_eq!(
        type_generic_bounds(&gs, stream("Clone")).to_string(),
        "where T : Clone"
    );
}

#[test]
fn args_const_group_value() {
    let args = vec![GenericArg::Const {
        value: stream("{ 4 * 2 }"),
    }];
    assert_eq!(generic_args_to_tokens(&args).to_string(), "< { 4 * 2 } >");
}

#[test]
fn law_use_equals_decl_for_type_params() {
    let gs = vec![ty("A"), ty("B"), ty("C")];
    assert_eq!(
        generic_params_use(&gs).to_string(),
        generic_params_decl(&gs).to_string()
    );
}

#[test]
fn law_bounds_skip_inserted_const() {
    let without = vec![ty("A"), ty("B")];
    let with = vec![ty("A"), cnst("N", "usize"), ty("B")];
    assert_eq!(
        type_generic_bounds(&without, stream("Copy")).to_string(),
        type_generic_bounds(&with, stream("Copy")).to_string()
    );
}

#[test]
fn law_use_list_shape() {
    let gs = vec![ty("X"), cnst("K", "u32"), ty("Y")];
    let trees: Vec<proc_macro2::TokenTree> = generic_params_use(&gs).into_iter().collect();
    assert_eq!(trees.len(), 2 * gs.len() + 1);
    assert_eq!(trees[1].to_string(), "X");
    assert_eq!(trees[3].to_string(), "K");
    assert_eq!(trees[5].to_string(), "Y");
    assert_eq!(trees[2].to_string(), ",");
}

#[test]
fn plain_ident_names() {
    assert!(is_plain_ident_str("A"));
    assert!(is_plain_ident_str("_"));
    assert!(is_plain_ident_str("fn"));
    assert!(is_plain_ident_str("snake_case_9"));
    assert!(is_plain_ident_str("r#type"));
    assert!(!is_plain_ident_str("r#self"));
    assert!(!is_plain_ident_str("r#_"));
    assert!(!is_plain_ident_str("r#"));
    assert!(!is_plain_ident_str("été"));
    assert!(!is_plain_ident_str(""));
    assert!(!is_plain_ident_str("1a"));
    assert!(!is_plain_ident_str("a b"));
    assert!(!is_plain_ident_str("a::b"));
}

#[test]
fn ident_stream_for_any_name() {
    assert_eq!(try_ident_stream("A").unwrap().to_string(), "A");
    assert_eq!(try_ident_stream("r#type").unwrap().to_string(), "r#type");
    assert_eq!(try_ident_stream("été").unwrap().to_string(), "été");
    assert!(try_ident_stream("").is_none());
    assert!(try_ident_stream("123").is_none());
    assert!(try_ident_stream(" a").is_none());
    assert!(try_ident_stream("a::b").is_none());
    assert!(try_ident_stream("r#self").is_none());
    assert!(try_ident_stream("(a)").is_none());
}

#[test]
fn parse_const_sources() {
    assert_eq!(parse_const_generic_type("usize").unwrap().to_string(), "usize");
    assert_eq!(
        parse_const_generic_type("[u8; 4]").unwrap().to_string(),
        "[u8 ; 4]"
    );
    assert!(parse_const_generic_type("(").is_err());
    assert!(parse_const_generic_type("\"open").is_err());
}

#[test]
fn try_decl_accepts_valid_and_rejects_invalid() {
    let ok = vec![ty("A"), cnst("N", "usize")];
    assert_eq!(
        try_generic_params_decl(&ok).unwrap().to_string(),
        "< A , const N : usize >"
    );
    assert_eq!(
        try_generic_params_decl(&[ty("Été"), cnst("Ñ", "u8")])
            .unwrap()
            .to_string(),
        "< Été , const Ñ : u8 >"
    );
    assert!(try_generic_params_decl(&[ty("1A")]).is_none());
    assert!(try_generic_params_decl(&[cnst("a b", "usize")]).is_none());
    assert!(try_generic_params_decl(&[]).unwrap().is_empty());
}

#[test]
fn try_use_rejects_invalid_name() {
    assert_eq!(
        try_generic_params_use(&[ty("A"), cnst("N", "usize")])
            .unwrap()
            .to_string(),
        "< A , N >"
    );
    assert!(try_generic_params_use(&[ty("A"), cnst("", "usize")]).is_none());
    assert_eq!(
        try_generic_params_use(&[ty("é")]).unwrap().to_string(),
        "< é >"
    );
}

#[test]
fn try_bounds_ignores_const_names() {
    let gs = vec![ty("A"), cnst("not an ident", "usize")];
    assert_eq!(
        try_type_generic_bounds(&gs, stream("Copy")).unwrap().to_string(),
        "where A : Copy"
    );
    assert!(try_type_generic_bounds(&[ty("a-b")], stream("Copy")).is_none());
}

#[test]
fn try_array_len() {
    assert_eq!(
        try_array_len_to_tokens(&ArrayLen::Value(7)).unwrap().to_string(),
        "7usize"
    );
    assert!(try_array_len_to_tokens(&ArrayLen::Generic("9".into())).is_none());
    assert_eq!(
        try_array_len_to_tokens(&ArrayLen::Generic("LEN".into()))
            .unwrap()
            .to_string(),
        "LEN"
    );
}

#[test]
fn parse_const_plain_and_digits() {
    let t: Vec<proc_macro2::TokenTree> = parse_const_generic_type("u32").unwrap().into_iter().collect();
    assert_eq!(t.len(), 1);
    assert!(matches!(t[0], proc_macro2::TokenTree::Ident(_)));
    assert_eq!(t[0].to_string(), "u32");
    let d: Vec<proc_macro2::TokenTree> = parse_const_generic_type("0128").unwrap().into_iter().collect();
    assert_eq!(d.len(), 1);
    assert!(matches!(d[0], proc_macro2::TokenTree::Literal(_)));
    assert_eq!(d[0].to_string(), "0128");
}

#[test]
fn single_ident_stream_checks_exact_identifier() {
    assert!(single_ident_stream(stream("abc"), "abc").is_some());
    assert!(single_ident_stream(stream("abc"), "abd").is_none());
    assert!(single_ident_stream(stream("a b"), "a").is_none());
    assert!(single_ident_stream(stream("8"), "8").is_none());
    assert!(single_ident_stream(stream("r#type"), "r#type").is_some());
    assert!(single_ident_stream(stream(""), "").is_none());
}
