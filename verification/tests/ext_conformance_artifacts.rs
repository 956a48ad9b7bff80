use pi::compat_scanner::{relative_posix, scan_root, SignalKind, SourceFile};

fn file(path: &str, content: &str) -> SourceFile {
    SourceFile { path: path.to_string(), content: content.to_string() }
}

fn fixture() -> Vec<SourceFile> {
    vec![
        file("b.ts", "import fs from 'fs';\npi.tool('read', {});\nnew Function('return 1');\n"),
        file("sub/a.ts", "import { spawn } from 'child_process';\nprocess.env.PATH;\n"),
    ]
}

#[test]
fn test_compat_scanner_unit_fixture_ordering() {
    let ledger = scan_root(&fixture());
    let found: Vec<(&str, SignalKind, usize)> =
        ledger.signals.iter().map(|s| (s.path.as_str(), s.kind, s.line)).collect();
    assert_eq!(
        found,
        vec![
            ("b.ts", SignalKind::Tool, 2),
            ("b.ts", SignalKind::FilesystemImport, 1),
            ("b.ts", SignalKind::DynamicEval, 3),
            ("sub/a.ts", SignalKind::EnvAccess, 2),
        ]
    );
    let text = ledger.to_json_pretty();
    assert!(text.starts_with("{\n  \"signals\": [\n    {\n      \"kind\": \"tool\",\n      \"line\": 2,\n      \"path\": \"b.ts\"\n    },"));
}

#[test]
fn the_ledger_does_not_depend_on_the_order_of_the_files() {
    let mut reversed = fixture();
    reversed.reverse();
    assert_eq!(scan_root(&fixture()).to_json_pretty(), scan_root(&reversed).to_json_pretty());
    assert_eq!(scan_root(&fixture()).to_json_pretty(), scan_root(&fixture()).to_json_pretty());
}

#[test]
fn every_kind_of_signal_is_found() {
    let source = "pi.exec('ls');\nawait pi.http({});\nconst net = require(\"node:net\");\nimport('https');\neval(code); pi.tool('x'); process.env.HOME\nconst p = require('fs/promises');\nnothing here\n";
    let ledger = scan_root(&[file("x.js", source)]);
    let found: Vec<(SignalKind, usize)> = ledger.signals.iter().map(|s| (s.kind, s.line)).collect();
    assert_eq!(
        found,
        vec![
            (SignalKind::Tool, 5),
            (SignalKind::Exec, 1),
            (SignalKind::Http, 2),
            (SignalKind::NetworkImport, 3),
            (SignalKind::NetworkImport, 4),
            (SignalKind::FilesystemImport, 6),
            (SignalKind::DynamicEval, 5),
            (SignalKind::EnvAccess, 5),
        ]
    );
    assert!(scan_root(&[]).signals.is_empty());
    assert_eq!(scan_root(&[]).to_json().to_compact(), "{\"signals\":[]}");
}

#[test]
fn paths_are_joined_with_slashes() {
    assert_eq!(relative_posix(&["sub".to_string(), "dir".to_string(), "a.ts".to_string()]), "sub/dir/a.ts");
    assert_eq!(relative_posix(&["a.ts".to_string()]), "a.ts");
    assert_eq!(relative_posix(&[]), "");
}
