use utoipa_gen::rust_type::{PathArguments, TypeSegment, RustType, TypePath};
use utoipa_gen::unnamed_struct::unnamed_struct_layout;

fn plain(name: &str) -> RustType {
    RustType::Path(TypePath {
        segments: vec![TypeSegment { ident: name.to_string(), arguments: PathArguments::Empty }],
    })
}

#[test]
fn single_field_struct_is_its_field() {
    let l = unnamed_struct_layout(&vec![plain("String")], false).ok().unwrap();
    assert!(l.all_fields_are_same);
    assert_eq!(l.array_len, None);
    assert_eq!(l.first.path.as_ref().unwrap().segments[0].ident, "String");
}

#[test]
fn single_field_struct_allows_a_pattern() {
    assert!(unnamed_struct_layout(&vec![plain("String")], true).is_ok());
}

#[test]
fn fields_of_one_type_make_an_array() {
    let l = unnamed_struct_layout(&vec![plain("i32"), plain("i32"), plain("i32")], false).ok().unwrap();
    assert!(l.all_fields_are_same);
    assert_eq!(l.array_len, Some(3));
}

#[test]
fn fields_of_different_types_make_an_object_array() {
    let l = unnamed_struct_layout(&vec![plain("i32"), plain("String")], true).ok().unwrap();
    assert!(!l.all_fields_are_same);
    assert_eq!(l.array_len, Some(2));
}

#[test]
fn pattern_on_several_fields_of_one_type_is_an_error() {
    let d = unnamed_struct_layout(&vec![plain("String"), plain("String")], true).err().unwrap();
    assert_eq!(d.message(), "Pattern attribute is not allowed for unnamed structs with multiple fields");
}

#[test]
fn unread_field_type_is_an_error() {
    let d = unnamed_struct_layout(&vec![plain("i32"), RustType::Other], false).err().unwrap();
    assert_eq!(
        d.message(),
        "unexpected type in component part get type path, expected one of: Path, Tuple, Reference, Group, Array, Slice, TraitObject"
    );
}
