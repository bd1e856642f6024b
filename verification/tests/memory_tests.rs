use nirapod_audit_core::context::{build_file_context, build_project_context};
use nirapod_audit_core::memory_pass::MemoryPass;
use nirapod_audit_core::pass::Pass;
use nirapod_audit_core::{AuditConfig, Diagnostic};

fn run_memory(name: &str, raw: &str) -> Vec<Diagnostic> {
    let file = format!("/tmp/memory/{name}");
    let project = build_project_context("/tmp/memory", vec![file.clone()], AuditConfig::default());
    let context = match build_file_context(&file, raw, &project) {
        Ok(c) => c,
        Err(_) => panic!("failed to build context"),
    };
    MemoryPass.run(&context)
}

#[test]
fn array_index_without_guard_is_reported() {
    let diagnostics = run_memory(
        "bounds.c",
        "void read_buf(int *buf, size_t idx, size_t len) {\n    int value = buf[idx];\n}\n",
    );
    let d = diagnostics.iter().find(|d| d.rule.id == "NRP-MEM-001").expect("bounds");
    assert_eq!(d.message, "Array subscript uses index 'idx' without visible bounds check.");
    assert_eq!(d.span.start_line, 2);
}

#[test]
fn size_addition_without_guard_is_reported() {
    let diagnostics = run_memory(
        "size.c",
        "size_t total_size(size_t header_len, size_t payload_len) {\n    size_t total = header_len + payload_len;\n    return total;\n}\n",
    );
    assert!(diagnostics.iter().any(|d| d.rule.id == "NRP-MEM-003"));
}

#[test]
fn guarded_accesses_are_not_reported() {
    let raw = "void f(int *buf, size_t idx) {\n    NIRAPOD_ASSERT(buf != NULL);\n    NIRAPOD_ASSERT(idx < 8);\n    buf[idx] = *buf;\n    buf[3] = 1;\n}\n";
    let diagnostics = run_memory("guarded.c", raw);
    assert!(diagnostics.is_empty(), "{:?}", diagnostics.iter().map(|d| d.message.clone()).collect::<Vec<_>>());
}

#[test]
fn unguarded_pointer_dereference_is_reported() {
    let raw = "int get(const struct ctx *c) {\n    return c->value;\n}\n";
    let diagnostics = run_memory("deref.c", raw);
    let d = diagnostics.iter().find(|d| d.rule.id == "NRP-MEM-002").expect("null guard");
    assert_eq!(d.message, "Pointer parameter 'c' dereferenced without null check in 'get'.");
    assert_eq!(d.help.as_deref(), Some("Add NIRAPOD_ASSERT(c != NULL); near function entry."));
}

#[test]
fn narrowing_cast_without_range_check_is_reported() {
    let raw = "void g(size_t len) {\n    int n = (int)len;\n}\nvoid h(size_t len) {\n    if (len > 10) { return; }\n    int n = (int)len;\n}\n";
    let diagnostics = run_memory("narrow.c", raw);
    let lines: Vec<usize> = diagnostics
        .iter()
        .filter(|d| d.rule.id == "NRP-MEM-004")
        .map(|d| d.span.start_line)
        .collect();
    assert_eq!(lines, vec![2]);
}
