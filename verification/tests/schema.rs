use utoipa_gen::config::SchemaCollect;
use utoipa_gen::attrs::GenericParam;
use utoipa_gen::features::{As, Bound};
use utoipa_gen::rust_type::{PathArguments, TypePath, TypeSegment};
use utoipa_gen::schema::{schema_bounds, schema_name, schema_reference_plan, SchemaBounds, SchemaRefInfo};

fn info(no_recursion: bool, is_partial: bool, is_inline: bool) -> SchemaRefInfo {
    SchemaRefInfo { no_recursion, is_partial, is_inline }
}

#[test]
fn non_inlined_collection_leaves_out_inlined_schemas() {
    let refs = vec![
        info(false, false, false),
        info(false, false, true),
        info(true, false, false),
        info(false, true, false),
    ];
    let plan = schema_reference_plan(&refs, SchemaCollect::NonInlined);
    assert_eq!(plan.collected, vec![0]);
    assert_eq!(plan.references, vec![0, 1]);
    assert_eq!(plan.generic, vec![3]);
}

#[test]
fn collecting_all_keeps_inlined_schemas() {
    let refs = vec![info(false, false, false), info(false, false, true), info(true, true, false)];
    let plan = schema_reference_plan(&refs, SchemaCollect::All);
    assert_eq!(plan.collected, vec![0, 1]);
    assert_eq!(plan.references, vec![0, 1]);
    assert!(plan.generic.is_empty());
}

#[test]
fn schema_name_is_the_as_path_or_the_ident() {
    let path = TypePath {
        segments: vec![
            TypeSegment { ident: "api".to_string(), arguments: PathArguments::Empty },
            TypeSegment { ident: "Pet".to_string(), arguments: PathArguments::Empty },
        ],
    };
    let schema_as = As(path);
    assert_eq!(schema_name("PetDto", Some(&schema_as)), "api.Pet");
    assert_eq!(schema_name("PetDto", None), "PetDto");
}

#[test]
fn schema_bounds_from_feature_or_type_params() {
    let params = vec![
        GenericParam::Lifetime("a".to_string()),
        GenericParam::Type("T".to_string()),
        GenericParam::Const("N".to_string()),
        GenericParam::Type("U".to_string()),
    ];
    match schema_bounds(None, &params) {
        SchemaBounds::ToSchema(names) => assert_eq!(names, vec!["T".to_string(), "U".to_string()]),
        SchemaBounds::Given(_) => panic!("expected the type parameters"),
    }
    let bound = Bound("T: Clone".to_string());
    match schema_bounds(Some(&bound), &params) {
        SchemaBounds::Given(text) => assert_eq!(text, "T: Clone"),
        SchemaBounds::ToSchema(_) => panic!("expected the given bound"),
    }
}
