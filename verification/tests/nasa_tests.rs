use nirapod_audit_core::context::{build_file_context, build_project_context};
use nirapod_audit_core::nasa_pass::NasaPass;
use nirapod_audit_core::pass::Pass;
use nirapod_audit_core::{AuditConfig, Diagnostic};

fn run_nasa(name: &str, raw: &str) -> Vec<Diagnostic> {
    let file = format!("/tmp/nasa/{name}");
    let project = build_project_context("/tmp/nasa", vec![file.clone()], AuditConfig::default());
    let context = match build_file_context(&file, raw, &project) {
        Ok(c) => c,
        Err(_) => panic!("failed to build context"),
    };
    NasaPass.run(&context)
}

fn ids(diagnostics: &[Diagnostic]) -> Vec<&str> {
    diagnostics.iter().map(|d| d.rule.id.as_str()).collect()
}

#[test]
fn non_trivial_function_without_assertions_is_reported() {
    let diagnostics = run_nasa(
        "assert.c",
        "int validate(int value) {\n    int total = value;\n    total += 1;\n    total += 2;\n    total += 3;\n    total += 4;\n    return total;\n}\n",
    );
    let d = diagnostics.iter().find(|d| d.rule.id == "NRP-NASA-007").expect("assertions");
    assert_eq!(d.message, "Function 'validate' has 0 assertion(s); minimum is 2.");
}

#[test]
fn discarded_non_void_local_call_is_reported() {
    let diagnostics = run_nasa(
        "discard.c",
        "int status(void) {\n    return 1;\n}\n\nvoid caller(void) {\n    status();\n}\n",
    );
    let d = diagnostics.iter().find(|d| d.rule.id == "NRP-NASA-008").expect("discard");
    assert_eq!(d.message, "Return value from 'status()' is discarded.");
}

#[test]
fn initialized_global_is_reported() {
    let diagnostics = run_nasa("global.c", "int global_counter = 0;\n");
    let d = diagnostics.iter().find(|d| d.rule.id == "NRP-NASA-011").expect("global");
    assert_eq!(d.message, "Global variable 'global_counter' has broad file scope.");
}

#[test]
fn immutable_local_without_const_is_reported() {
    let diagnostics = run_nasa(
        "const.c",
        "int compute(int input) {\n    int threshold = 10;\n    return input + threshold;\n}\n",
    );
    let d = diagnostics.iter().find(|d| d.rule.id == "NRP-NASA-012").expect("const");
    assert_eq!(d.message, "Local variable 'threshold' is never mutated after initialization.");
}

#[test]
fn control_flow_rules_fire_in_order() {
    let raw = "#include <setjmp.h>\n#define LIMIT 4\n#define SQ(x) ((x) * (x))\nint fact(int n) {\n    if (n == 0) { goto done; }\n    setjmp(env);\n    void *p = malloc(4);\n    while (n) { n--; }\n    return fact(n - 1);\ndone:\n    return 1;\n}\n";
    let diagnostics = run_nasa("flow.c", raw);
    let ids = ids(&diagnostics);
    for id in ["NRP-NASA-001", "NRP-NASA-002", "NRP-NASA-003", "NRP-NASA-004", "NRP-NASA-005", "NRP-NASA-009", "NRP-NASA-010"] {
        assert!(ids.contains(&id), "missing {id} in {ids:?}");
    }
    let first_of = |id: &str| ids.iter().position(|x| *x == id).unwrap();
    assert!(first_of("NRP-NASA-001") < first_of("NRP-NASA-002"));
    assert!(first_of("NRP-NASA-004") < first_of("NRP-NASA-005"));
    let w = diagnostics.iter().find(|d| d.rule.id == "NRP-NASA-004").unwrap();
    assert_eq!(w.message, "while statement has no documented upper bound.");
    let m = diagnostics.iter().find(|d| d.rule.id == "NRP-NASA-010").unwrap();
    assert_eq!(m.message, "#define uses function-like macro 'SQ'.");
}

#[test]
fn bounded_loops_are_accepted() {
    let raw = "void f(int *a) {\n    for (int i = 0; i < MAX_ITEMS; i++) { a[i] = 0; }\n    // max: 8 iterations\n    while (a[0]) { a[0]--; }\n}\n";
    let diagnostics = run_nasa("loops.c", raw);
    assert!(!ids(&diagnostics).contains(&"NRP-NASA-004"));
}

#[test]
fn long_function_reports_counts() {
    let mut body = String::from("void big(void) {\n");
    for i in 0..61 {
        body.push_str(&format!("    call_{i}();\n"));
    }
    body.push_str("}\n");
    let diagnostics = run_nasa("big.c", &body);
    let d = diagnostics.iter().find(|d| d.rule.id == "NRP-NASA-006").expect("length");
    assert_eq!(d.message, "Function 'big' is 62 lines; limit is 60.");
    assert_eq!(d.notes, vec!["Counted non-blank, non-comment lines from line 1 to 63.".to_owned()]);
}
