use utoipa_gen::features::{extract_vec_xml_feature, Feature, FeatureKind, Title, XmlAttr};
use utoipa_gen::tokens::Token;
use utoipa_gen::type_tree::GenericType;
use utoipa_gen::xml::Xml;

fn ident(s: &str) -> Token {
    Token::Ident(s.to_string())
}

fn lit(s: &str) -> Token {
    Token::Literal(format!("\"{s}\""))
}

fn eq() -> Token {
    Token::Punct('=')
}

fn comma() -> Token {
    Token::Punct(',')
}

#[test]
fn xml_options_are_read() {
    let tokens = vec![
        ident("name"), eq(), lit("item"), comma(),
        ident("namespace"), eq(), lit("https://example.com"), comma(),
        ident("prefix"), eq(), lit("ex"), comma(),
        ident("attribute"), comma(),
        ident("wrapped"), Token::Group('(', vec![ident("name"), eq(), lit("items")]),
    ];
    let xml = Xml::parse(&tokens).ok().unwrap();
    assert_eq!(xml.name, Some("item".to_string()));
    assert_eq!(xml.namespace, Some("https://example.com".to_string()));
    assert_eq!(xml.prefix, Some("ex".to_string()));
    assert!(xml.is_attribute);
    assert!(xml.is_wrapped);
    assert_eq!(xml.wrap_name, Some("items".to_string()));
}

#[test]
fn xml_attribute_false_and_plain_wrapped() {
    let tokens = vec![ident("attribute"), eq(), ident("false"), comma(), ident("wrapped")];
    let xml = Xml::parse(&tokens).ok().unwrap();
    assert!(!xml.is_attribute);
    assert!(xml.is_wrapped);
    assert_eq!(xml.wrap_name, None);
    let empty = Xml::parse(&vec![]).ok().unwrap();
    assert!(!empty.is_wrapped && empty.name.is_none());
}

#[test]
fn xml_errors() {
    let err = |tokens: Vec<Token>| Xml::parse(&tokens).err().unwrap();
    assert_eq!(
        err(vec![ident("title")]),
        "unexpected attribute: title, expected one of: name, namespace, prefix, attribute, wrapped"
    );
    assert_eq!(err(vec![ident("name"), lit("x")]), "expected `=`");
    assert_eq!(err(vec![ident("name"), eq()]), "unexpected end of input, expected string literal");
    assert_eq!(err(vec![ident("name"), eq(), ident("x")]), "expected string literal");
    assert_eq!(err(vec![lit("x")]), "expected identifier");
    assert_eq!(
        err(vec![ident("wrapped"), Token::Group('(', vec![ident("title"), eq(), lit("x")])]),
        "unexpected wrapped attribute, expected: name"
    );
}

#[test]
fn split_for_vec_moves_wrapping_to_the_vec() {
    let mut attr = XmlAttr(Xml::parse(&vec![
        ident("name"), eq(), lit("item"), comma(),
        ident("wrapped"), Token::Group('(', vec![ident("name"), eq(), lit("items")]),
    ]).ok().unwrap());
    let (vec_xml, value_xml) = attr.split_for_vec(Some(GenericType::Vec)).ok().unwrap();
    let vec_xml = vec_xml.unwrap();
    let value_xml = value_xml.unwrap();
    assert!(vec_xml.0.is_wrapped);
    assert_eq!(vec_xml.0.wrap_name, Some("items".to_string()));
    assert_eq!(vec_xml.0.name, None);
    assert_eq!(value_xml.0.name, Some("item".to_string()));
    assert!(!value_xml.0.is_wrapped);
    assert!(attr.0.name.is_none());
}

#[test]
fn split_for_non_vec_refuses_wrapping() {
    let mut attr = XmlAttr(Xml::parse(&vec![ident("wrapped")]).ok().unwrap());
    let error = attr.split_for_vec(None).err().unwrap();
    assert_eq!(
        error.rendered_messages()[0],
        "cannot use `wrapped` attribute in non slice field type\n\nhelp = Try removing `wrapped` attribute or make your field `Vec`"
    );
    assert!(attr.0.is_wrapped);

    let mut plain = XmlAttr(Xml::parse(&vec![ident("name"), eq(), lit("n")]).ok().unwrap());
    let (vec_xml, value_xml) = plain.split_for_vec(Some(GenericType::Option)).ok().unwrap();
    assert!(vec_xml.is_none());
    assert_eq!(value_xml.unwrap().0.name, Some("n".to_string()));
}

#[test]
fn extract_vec_xml_feature_replaces_the_feature() {
    let xml = Xml::parse(&vec![ident("name"), eq(), lit("item"), comma(), ident("wrapped")]).ok().unwrap();
    let mut features = vec![Feature::Title(Title("t".to_string())), Feature::XmlAttr(XmlAttr(xml))];
    let extracted = extract_vec_xml_feature(&mut features, Some(GenericType::Vec)).ok().unwrap();
    match extracted {
        Some(Feature::XmlAttr(v)) => assert!(v.0.is_wrapped),
        _ => panic!("expected the vec options"),
    }
    assert_eq!(features.len(), 2);
    assert_eq!(features[0].kind(), FeatureKind::Title);
    match &features[1] {
        Feature::XmlAttr(x) => {
            assert!(!x.0.is_wrapped);
            assert_eq!(x.0.name, Some("item".to_string()));
        }
        _ => panic!("expected the value options"),
    }

    let mut none = vec![Feature::Title(Title("t".to_string()))];
    assert!(extract_vec_xml_feature(&mut none, Some(GenericType::Vec)).ok().unwrap().is_none());
}
