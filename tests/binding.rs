use pyo3_binding::binder::{parse_fn_args, BindError, ParamDescription};
use pyo3_binding::kwargs::KwArgs;

fn param(name: &'static str, is_optional: bool, kw_only: bool) -> ParamDescription {
    ParamDescription { name, is_optional, kw_only }
}

fn kw(entries: &[(&str, i32)]) -> KwArgs<i32> {
    let mut k = KwArgs::new();
    for (name, v) in entries {
        k.insert(name.to_string(), *v);
    }
    k
}

#[test]
fn required_then_optional_by_keyword() {
    let params = [param("a", false, false), param("b", true, false)];
    let kwargs = kw(&[("b", 2)]);
    let mut out = vec![None; 2];
    let r = parse_fn_args(&params, &[1], Some(&kwargs), false, false, &mut out);
    let (rest, rest_kw) = r.unwrap();
    assert_eq!(out, vec![Some(1), Some(2)]);
    assert_eq!(rest, vec![1]);
    assert!(rest_kw.is_none());
}

#[test]
fn positional_and_keyword_duplicate() {
    let params = [param("a", false, false), param("b", true, false)];
    let kwargs = kw(&[("a", 9)]);
    let mut out = vec![None; 2];
    let r = parse_fn_args(&params, &[1, 2], Some(&kwargs), false, false, &mut out);
    assert_eq!(r.err(), Some(BindError::DuplicateArgument("a".to_string())));
}

#[test]
fn missing_keyword_only() {
    let params = [param("x", false, true)];
    let kwargs = kw(&[]);
    let mut out = vec![None; 1];
    let r = parse_fn_args(&params, &[], Some(&kwargs), false, false, &mut out);
    assert_eq!(r.err(), Some(BindError::MissingRequiredKeywordArgument("x".to_string())));
    let r = parse_fn_args::<i32>(&params, &[], None, false, false, &mut out);
    assert_eq!(r.err(), Some(BindError::MissingRequiredKeywordArgument("x".to_string())));
}

#[test]
fn positional_fill_left_to_right() {
    let params = [param("a", false, false), param("b", false, false), param("c", true, false)];
    let mut out = vec![None; 3];
    let r = parse_fn_args::<i32>(&params, &[10, 20], None, false, false, &mut out);
    assert!(r.is_ok());
    assert_eq!(out, vec![Some(10), Some(20), None]);
    let mut out = vec![None; 3];
    let r = parse_fn_args::<i32>(&params, &[10, 20, 30], None, true, true, &mut out);
    let (rest, rest_kw) = r.unwrap();
    assert_eq!(out, vec![Some(10), Some(20), Some(30)]);
    assert!(rest.is_empty());
    assert!(rest_kw.is_none());
}

#[test]
fn duplicate_despite_extra_arguments() {
    let params = [param("a", false, false), param("b", false, false)];
    let kwargs = kw(&[("b", 7), ("zzz", 1)]);
    let mut out = vec![None; 2];
    let r = parse_fn_args(&params, &[1, 2, 3, 4], Some(&kwargs), true, true, &mut out);
    assert_eq!(r.err(), Some(BindError::DuplicateArgument("b".to_string())));
}

#[test]
fn missing_positional_names_parameter() {
    let params = [param("a", false, false), param("b", false, false)];
    let mut out = vec![None; 2];
    let r = parse_fn_args::<i32>(&params, &[1], None, false, false, &mut out);
    assert_eq!(r.err(), Some(BindError::MissingRequiredPositionalArgument("b".to_string())));
}

#[test]
fn too_many_positional() {
    let params = [param("a", false, false), param("b", true, false)];
    let mut out = vec![None; 2];
    let r = parse_fn_args::<i32>(&params, &[1, 2, 3], None, false, false, &mut out);
    assert_eq!(r.err(), Some(BindError::TooManyPositionalArguments { expected: 2, got: 3 }));
}

#[test]
fn extra_positional_captured_in_order() {
    let params = [param("a", false, false), param("k", true, true)];
    let mut out = vec![None; 2];
    let r = parse_fn_args::<i32>(&params, &[1, 2, 3], None, true, false, &mut out);
    let (rest, _) = r.unwrap();
    assert_eq!(out, vec![Some(1), None]);
    assert_eq!(rest, vec![2, 3]);
}

#[test]
fn unexpected_keyword() {
    let params = [param("a", true, false)];
    let kwargs = kw(&[("a", 1), ("q", 2), ("r", 3)]);
    let mut out = vec![None; 1];
    let r = parse_fn_args(&params, &[], Some(&kwargs), false, false, &mut out);
    assert_eq!(r.err(), Some(BindError::UnexpectedKeywordArgument("q".to_string())));
}

#[test]
fn extra_keywords_captured_intact() {
    let params = [param("a", true, false)];
    let kwargs = kw(&[("q", 2), ("a", 1), ("r", 3)]);
    let mut out = vec![None; 1];
    let r = parse_fn_args(&params, &[], Some(&kwargs), false, true, &mut out);
    let (_, rest_kw) = r.unwrap();
    let rest_kw = rest_kw.unwrap();
    assert_eq!(out, vec![Some(1)]);
    assert_eq!(rest_kw.len(), 2);
    assert_eq!(rest_kw.key_at(0), "q");
    assert_eq!(rest_kw.value_at(0), 2);
    assert_eq!(rest_kw.get("r"), Some(3));
    assert_eq!(rest_kw.get("a"), None);
}

#[test]
fn all_keywords_matched_gives_no_leftover() {
    let params = [param("a", true, false)];
    let kwargs = kw(&[("a", 1)]);
    let mut out = vec![None; 1];
    let (_, rest_kw) = parse_fn_args(&params, &[], Some(&kwargs), false, true, &mut out).unwrap();
    assert!(rest_kw.is_none());
}

#[test]
fn caller_mapping_untouched() {
    let params = [param("a", false, false), param("b", true, false)];
    let kwargs = kw(&[("b", 2), ("c", 3)]);
    let mut out = vec![None; 2];
    let _ = parse_fn_args(&params, &[1], Some(&kwargs), false, true, &mut out);
    assert_eq!(kwargs.len(), 2);
    assert_eq!(kwargs.key_at(0), "b");
    assert_eq!(kwargs.get("b"), Some(2));
    assert_eq!(kwargs.get("c"), Some(3));
}

#[test]
fn keyword_only_never_takes_positional() {
    let params = [param("a", false, false), param("k", true, true)];
    let mut out = vec![None; 2];
    let r = parse_fn_args::<i32>(&params, &[1, 2], None, false, false, &mut out);
    assert_eq!(r.err(), Some(BindError::TooManyPositionalArguments { expected: 1, got: 2 }));
}

#[test]
fn keyword_insert_replaces() {
    let mut k: KwArgs<i32> = KwArgs::new();
    assert!(k.is_empty());
    k.insert("a".to_string(), 1);
    k.insert("b".to_string(), 2);
    k.insert("a".to_string(), 5);
    assert_eq!(k.len(), 2);
    assert_eq!(k.key_at(0), "a");
    assert_eq!(k.get("a"), Some(5));
    assert_eq!(k.position("b"), Some(1));
    assert_eq!(k.position("z"), None);
}
