use glsl_front::ast::Metadata;
use glsl_front::error::Error;
use glsl_front::parser::{resolve_overload, parse_version, Resolution};
use glsl_front::token::{LexToken, SourceMetadata, TokenValue};
use glsl_front::types::{check_swizzle, conv_cost, PlainType, ScalarKind, Type};
use glsl_front::{
    BufferMapAsyncStatus, BufferMapOperation, ErrorKind, Options, Parser, Profile, ShaderStage,
};

fn float_ty() -> Type {
    Type::Plain(PlainType::Scalar(ScalarKind::Float))
}

fn sint_ty() -> Type {
    Type::Plain(PlainType::Scalar(ScalarKind::Sint))
}

fn uint_ty() -> Type {
    Type::Plain(PlainType::Scalar(ScalarKind::Uint))
}

#[test]
fn reparsing_is_idempotent() {
    let source = r#"
        #  version 450
        const float a = 1.0;
        struct Test { vec4 pos; };
        float test(vec4 p) { return p.x; }
        void main() { vec4 v = vec4(1); v.x = test(v); }
        "#;
    let mut p1 = Parser::default();
    let mut p2 = Parser::default();
    let m1 = p1.parse(&Options::from(ShaderStage::Vertex), source).unwrap();
    let m2 = p2.parse(&Options::from(ShaderStage::Vertex), source).unwrap();
    assert_eq!(m1, m2);
    assert_eq!(p1.metadata(), p2.metadata());

    let bad = "#version 449\n void main(){}";
    let e1: Vec<Error> = p1
        .parse(&Options::from(ShaderStage::Vertex), bad)
        .err()
        .unwrap();
    let e2: Vec<Error> = p2
        .parse(&Options::from(ShaderStage::Vertex), bad)
        .err()
        .unwrap();
    assert_eq!(e1, e2);
}

#[test]
fn all_supported_versions_and_profiles() {
    for v in [440u64, 450, 460] {
        let mut parser = Parser::default();
        let with_profile = format!("#version {} core\nvoid main() {{}}", v);
        parser
            .parse(&Options::from(ShaderStage::Vertex), &with_profile)
            .unwrap();
        assert_eq!(
            parser.metadata(),
            Metadata {
                version: v,
                profile: Profile::Core
            }
        );
        let bare = format!("#version {}\nvoid main() {{}}", v);
        parser
            .parse(&Options::from(ShaderStage::Vertex), &bare)
            .unwrap();
        assert_eq!(parser.metadata().version, v);
    }
}

#[test]
fn missing_version_directive_is_rejected() {
    let mut parser = Parser::default();
    let errors = parser
        .parse(&Options::from(ShaderStage::Vertex), "void main() {}")
        .err()
        .unwrap();
    assert!(matches!(errors[0].kind, ErrorKind::SemanticError(_)));
}

#[test]
fn parse_version_reports_exact_diagnostics() {
    let num = LexToken {
        value: TokenValue::IntConstant(441),
        meta: SourceMetadata { start: 9, end: 12 },
    };
    let mut errors: Vec<Error> = Vec::new();
    let md = parse_version(
        &vec![num],
        true,
        SourceMetadata { start: 0, end: 8 },
        &mut errors,
    );
    assert_eq!(errors.len(), 1);
    assert_eq!(errors[0].kind, ErrorKind::InvalidVersion(441));
    assert_eq!(errors[0].meta, SourceMetadata { start: 9, end: 12 });
    assert_eq!(md.version, 450);

    let num = LexToken {
        value: TokenValue::IntConstant(460),
        meta: SourceMetadata { start: 9, end: 12 },
    };
    let profile = LexToken {
        value: TokenValue::Identifier("compatibility".into()),
        meta: SourceMetadata { start: 13, end: 26 },
    };
    let mut errors: Vec<Error> = Vec::new();
    let md = parse_version(
        &vec![num, profile],
        true,
        SourceMetadata { start: 0, end: 8 },
        &mut errors,
    );
    assert_eq!(errors.len(), 1);
    assert_eq!(
        errors[0].kind,
        ErrorKind::InvalidProfile("compatibility".into())
    );
    assert_eq!(errors[0].meta, SourceMetadata { start: 13, end: 26 });
    assert_eq!(md.version, 460);
}

#[test]
fn swizzle_rules() {
    // reads allow repeats within one naming set and the source arity
    assert_eq!(check_swizzle("xx", 4, false), Some(vec![0, 0]));
    assert_eq!(check_swizzle("rgba", 4, false), Some(vec![0, 1, 2, 3]));
    assert_eq!(check_swizzle("stp", 3, false), Some(vec![0, 1, 2]));
    // a component at or past the arity is rejected
    assert_eq!(check_swizzle("w", 3, false), None);
    assert_eq!(check_swizzle("z", 2, true), None);
    // mixing naming sets is rejected
    assert_eq!(check_swizzle("xg", 4, false), None);
    // writes forbid repeats and widening past the arity
    assert_eq!(check_swizzle("xx", 4, true), None);
    assert_eq!(check_swizzle("xyz", 4, true), Some(vec![0, 1, 2]));
    assert_eq!(check_swizzle("xyz", 2, true), None);
    // length bounds
    assert_eq!(check_swizzle("", 4, false), None);
    assert_eq!(check_swizzle("xyzwx", 4, false), None);
}

#[test]
fn conversion_ranking() {
    assert_eq!(conv_cost(sint_ty(), sint_ty()), Some(0));
    assert_eq!(conv_cost(sint_ty(), float_ty()), Some(1));
    assert_eq!(conv_cost(sint_ty(), uint_ty()), Some(1));
    assert_eq!(conv_cost(uint_ty(), float_ty()), Some(1));
    // no narrowing back out of float, no unsigned-to-signed
    assert_eq!(conv_cost(float_ty(), sint_ty()), None);
    assert_eq!(conv_cost(float_ty(), uint_ty()), None);
    assert_eq!(conv_cost(uint_ty(), sint_ty()), None);
    // vectors convert componentwise only at equal arity
    let v2f = Type::Plain(PlainType::Vector(ScalarKind::Float, 2));
    let v2i = Type::Plain(PlainType::Vector(ScalarKind::Sint, 2));
    let v3f = Type::Plain(PlainType::Vector(ScalarKind::Float, 3));
    assert_eq!(conv_cost(v2i, v2f), Some(1));
    assert_eq!(conv_cost(v2f, v3f), None);
}

#[test]
fn overload_resolution_outcomes() {
    // no candidate applicable: float converts to neither int nor uint
    let cands = vec![vec![sint_ty()], vec![uint_ty()]];
    let args = vec![float_ty()];
    assert_eq!(resolve_overload(&cands, &args), Resolution::Unknown);

    // two candidates tie at the minimum cost for an int argument
    let cands = vec![vec![float_ty()], vec![uint_ty()]];
    let args = vec![sint_ty()];
    assert_eq!(resolve_overload(&cands, &args), Resolution::Ambiguous);

    // an exact match beats a conversion
    let cands = vec![vec![float_ty()], vec![sint_ty()]];
    let args = vec![sint_ty()];
    assert_eq!(resolve_overload(&cands, &args), Resolution::Found(1));

    // arity must match for a candidate to apply
    let cands = vec![vec![float_ty(), float_ty()], vec![float_ty()]];
    let args = vec![float_ty()];
    assert_eq!(resolve_overload(&cands, &args), Resolution::Found(1));
}

#[test]
fn distinct_constants_both_kept() {
    let mut parser = Parser::default();
    let module = parser
        .parse(
            &Options::from(ShaderStage::Vertex),
            r#"
        #  version 450
        const float a = 1.0;
        const int n = 3;
        const float c = a;

        void main() {}
        "#,
        )
        .unwrap();
    assert_eq!(module.constants.len(), 2);
}

#[test]
fn module_records_declarations_in_order() {
    let mut parser = Parser::default();
    let module = parser
        .parse(
            &Options::from(ShaderStage::Vertex),
            r#"
        #  version 450
        struct Test { vec4 pos; };
        float test(vec2 p);
        float test(vec2 p) { return p.x; }
        float other(vec3 p) { return p.x; }
        void main() {}
        "#,
        )
        .unwrap();
    assert_eq!(module.structs.len(), 1);
    assert_eq!(module.structs[0].name, "Test");
    // the prototype and its definition share one entry
    assert_eq!(module.functions.len(), 3);
    assert_eq!(module.functions[0].name, "test");
    assert!(module.functions[0].body.is_some());
    assert_eq!(module.functions[1].name, "other");
    assert_eq!(module.functions[2].name, "main");
    assert_eq!(module.version, 450);
    assert_eq!(module.profile, Profile::Core);
}

#[test]
fn buffer_map_error_status() {
    assert_eq!(
        BufferMapOperation::Read.call_error(),
        BufferMapAsyncStatus::Error
    );
    assert_eq!(
        BufferMapOperation::Write.call_error(),
        BufferMapAsyncStatus::Error
    );
}

#[test]
fn directive_only_source_parses_empty_module() {
    let mut parser = Parser::default();
    let module = parser
        .parse(&Options::from(ShaderStage::Vertex), "#version 450\n")
        .unwrap();
    assert_eq!(module.functions.len(), 0);
    assert_eq!(module.constants.len(), 0);
    assert_eq!(module.globals.len(), 0);
    assert_eq!(module.structs.len(), 0);
    assert_eq!(parser.metadata().version, 450);
    assert_eq!(parser.metadata().profile, Profile::Core);
}
