use codeg_core::code_intel::codegraph::{build_codegraph_argv, CodegraphOp};
use codeg_core::code_intel::config::{
    default_config, preset_lsp_servers, sanitize_loaded_config, CodeIntelConfig, CustomLspServer,
};
use codeg_core::code_intel::detect::{
    all_found, all_via_manifest, build_candidates, detect_step, file_extension, finish,
    mark_manifest, normalize_ext, observe_file, DetectAction, DetectedLanguage,
};
use codeg_core::code_intel::lsp_pool::{
    admit_server_start, command_and_args, language_id_for_file, pick_server, server_matches_file,
    servers_to_start, settle_spawned_server, SpawnedServer,
};
use codeg_core::code_intel::mcp_tools::{
    advertised_mcp_tools, format_ids, lsp_tool_aliases, normalize_lsp_name,
};
use codeg_core::code_intel::mcp_adapter::{plan_lsp_call, position, LspCall, LspOp};
use codeg_core::code_intel::supervisor::parse_stdio_bridge_url;
use codeg_core::json::parse_json;

#[test]
fn argv_explore_is_plain_text() {
    let argv =
        build_codegraph_argv(CodegraphOp::Explore, Some("auth"), None, None, None, None).unwrap();
    assert_eq!(argv, vec!["explore", "auth"]);
}

#[test]
fn argv_query_adds_json_kind_limit() {
    let argv = build_codegraph_argv(
        CodegraphOp::Query,
        Some("Foo"),
        None,
        Some("function"),
        Some(5),
        None,
    )
    .unwrap();
    assert_eq!(
        argv,
        vec!["query", "Foo", "--kind", "function", "--limit", "5", "--json"]
    );
}

#[test]
fn argv_status_json_no_query() {
    let argv = build_codegraph_argv(CodegraphOp::Status, None, None, None, None, None).unwrap();
    assert_eq!(argv, vec!["status", "--json"]);
}

#[test]
fn argv_explore_rejects_empty_query() {
    assert!(
        build_codegraph_argv(CodegraphOp::Explore, Some("  "), None, None, None, None).is_err()
    );
}

#[test]
fn parse_rejects_install() {
    assert!(CodegraphOp::parse("install").is_none());
    assert!(CodegraphOp::parse("serve").is_none());
    assert_eq!(CodegraphOp::parse("explore"), Some(CodegraphOp::Explore));
}

#[test]
fn argv_impact_and_files_options() {
    assert_eq!(
        build_codegraph_argv(CodegraphOp::Impact, Some("x"), None, None, None, Some(3)).unwrap(),
        vec!["impact", "x", "--depth", "3", "--json"]
    );
    assert_eq!(
        build_codegraph_argv(CodegraphOp::Files, None, Some(" src "), None, None, None).unwrap(),
        vec!["files", "src", "--json"]
    );
    assert_eq!(
        build_codegraph_argv(CodegraphOp::Node, None, None, None, None, None).unwrap_err(),
        "codegraph node requires a non-empty query"
    );
    assert_eq!(CodegraphOp::parse("  CALLERS "), Some(CodegraphOp::Callers));
}

#[test]
fn default_is_disabled_with_five_lsp_checked() {
    let cfg = default_config();
    assert!(!cfg.enabled);
    assert!(cfg.codegraph.enabled);
    assert!(cfg.codegraph.binary_path.is_none());
    assert!(cfg.lsp.auto_attach);
    assert_eq!(cfg.lsp.max_concurrent, 2);
    assert_eq!(
        cfg.lsp.checked,
        vec![
            "rust-analyzer".to_string(),
            "gopls".to_string(),
            "pyright".to_string(),
            "typescript".to_string(),
            "clangd".to_string(),
        ]
    );
    let ids: Vec<_> = preset_lsp_servers().iter().map(|p| p.id).collect();
    assert_eq!(
        ids,
        [
            "rust-analyzer",
            "gopls",
            "pyright",
            "typescript",
            "clangd",
            "lua-ls",
            "bash-ls",
            "yaml-ls",
            "kotlin-ls",
            "zls",
            "taplo"
        ]
    );
}

#[test]
fn loaded_config_clamps_max_concurrent() {
    let mut cfg = default_config();
    cfg.lsp.max_concurrent = 0;
    assert_eq!(sanitize_loaded_config(cfg).lsp.max_concurrent, 1);
    let mut cfg = default_config();
    cfg.lsp.max_concurrent = 99;
    assert_eq!(sanitize_loaded_config(cfg).lsp.max_concurrent, 8);
    let mut cfg = default_config();
    cfg.lsp.max_concurrent = 4;
    assert_eq!(sanitize_loaded_config(cfg).lsp.max_concurrent, 4);
}

fn detected(ids: &[&str]) -> Vec<DetectedLanguage> {
    ids.iter()
        .map(|id| DetectedLanguage {
            server_id: (*id).to_string(),
            via_manifest: true,
            via_extension: false,
        })
        .collect()
}

fn enabled_cfg() -> CodeIntelConfig {
    let mut cfg = default_config();
    cfg.enabled = true;
    cfg
}

#[test]
fn servers_to_start_is_full_intersection_not_truncated_to_cap() {
    let mut cfg = enabled_cfg();
    cfg.lsp.max_concurrent = 2;
    cfg.lsp.checked = vec![
        "rust-analyzer".into(),
        "gopls".into(),
        "typescript".into(),
        "pyright".into(),
    ];
    let hits = detected(&["rust-analyzer", "gopls", "typescript", "pyright"]);
    let ids = servers_to_start(&cfg, &hits, &|id: &str| id != "pyright");
    assert_eq!(ids, vec!["rust-analyzer", "gopls", "typescript"]);
}

#[test]
fn language_id_for_cpp_comes_from_extension_not_preset_label() {
    let cfg = enabled_cfg();
    assert_eq!(language_id_for_file(Some("src/main.cpp"), "clangd", &cfg), "cpp");
    assert_eq!(language_id_for_file(Some("src/main.cc"), "clangd", &cfg), "cpp");
    assert_eq!(language_id_for_file(Some("src/main.cxx"), "clangd", &cfg), "cpp");
    assert_eq!(language_id_for_file(Some("src/main.hpp"), "clangd", &cfg), "cpp");
    assert_eq!(language_id_for_file(Some("src/main.c"), "clangd", &cfg), "c");
    assert_eq!(language_id_for_file(Some("src/main.h"), "clangd", &cfg), "c");
    assert_eq!(language_id_for_file(None, "clangd", &cfg), "cpp");
    assert_eq!(language_id_for_file(Some("a.js"), "typescript", &cfg), "javascript");
    assert_eq!(language_id_for_file(Some("a.jsx"), "typescript", &cfg), "javascript");
    assert_eq!(language_id_for_file(Some("a.ts"), "typescript", &cfg), "typescript");
    assert_eq!(language_id_for_file(Some("a.tsx"), "typescript", &cfg), "typescript");
    assert_eq!(language_id_for_file(None, "typescript", &cfg), "typescript");
    assert_eq!(language_id_for_file(Some("a.rs"), "rust-analyzer", &cfg), "rust");
    assert_eq!(language_id_for_file(Some("a.go"), "gopls", &cfg), "go");
    assert_eq!(language_id_for_file(Some("a.py"), "pyright", &cfg), "python");
}

#[test]
fn servers_to_start_empty_when_auto_attach_off() {
    let mut cfg = enabled_cfg();
    cfg.lsp.auto_attach = false;
    let hits = detected(&["rust-analyzer", "gopls"]);
    let ids = servers_to_start(&cfg, &hits, &|_: &str| true);
    assert!(ids.is_empty());
}

#[test]
fn servers_to_start_empty_when_master_off() {
    let mut cfg = enabled_cfg();
    cfg.enabled = false;
    let hits = detected(&["rust-analyzer", "gopls"]);
    let ids = servers_to_start(&cfg, &hits, &|_: &str| true);
    assert!(ids.is_empty());
}

#[test]
fn servers_to_start_invokes_on_path_with_server_id() {
    let mut cfg = enabled_cfg();
    cfg.lsp.checked = vec!["pyright".into()];
    let hits = detected(&["pyright"]);
    let seen = std::sync::Mutex::new(Vec::new());
    let ids = servers_to_start(&cfg, &hits, &|id: &str| {
        seen.lock().unwrap().push(id.to_string());
        true
    });
    assert_eq!(ids, vec!["pyright"]);
    let seen = seen.into_inner().unwrap();
    assert_eq!(seen, vec!["pyright"]);
    assert!(!seen.iter().any(|id| id == "pyright-langserver"));
}

fn elixir() -> CustomLspServer {
    CustomLspServer {
        id: "elixir-ls".into(),
        language: "Elixir".into(),
        command: "elixir-ls".into(),
        args: vec!["--stdio".into()],
        extensions: vec!["EX".into()],
        manifests: vec!["mix.exs".into()],
    }
}

#[test]
fn custom_servers_launch_and_match_files() {
    let mut cfg = enabled_cfg();
    cfg.lsp.custom.push(elixir());
    assert_eq!(
        command_and_args(&cfg, "pyright"),
        Some(("pyright-langserver".to_string(), vec!["--stdio".to_string()]))
    );
    assert_eq!(
        command_and_args(&cfg, "elixir-ls"),
        Some(("elixir-ls".to_string(), vec!["--stdio".to_string()]))
    );
    assert_eq!(command_and_args(&cfg, "nope"), None);
    assert!(server_matches_file(&cfg, "elixir-ls", "lib/app.ex"));
    assert!(server_matches_file(&cfg, "typescript", "web/App.TSX"));
    assert!(!server_matches_file(&cfg, "gopls", "main.rs"));
    assert!(!server_matches_file(&cfg, "gopls", "Makefile"));
    assert_eq!(language_id_for_file(Some("x.unknown"), "elixir-ls", &cfg), "elixir");
    assert_eq!(language_id_for_file(None, "nope", &cfg), "plaintext");
    assert_eq!(normalize_ext("RS"), ".rs");
    assert_eq!(normalize_ext(".Go"), ".go");
}

#[test]
fn pick_server_prefers_request_then_file() {
    let cfg = enabled_cfg();
    let eligible = vec!["rust-analyzer".to_string(), "typescript".to_string()];
    assert_eq!(pick_server(&cfg, &eligible, None, Some(" gopls ")), Ok("gopls".to_string()));
    assert_eq!(
        pick_server(&cfg, &eligible, Some("web/a.ts"), None),
        Ok("typescript".to_string())
    );
    assert_eq!(pick_server(&cfg, &eligible, None, None), Ok("rust-analyzer".to_string()));
    assert!(pick_server(&cfg, &eligible, Some("a.py"), None).is_err());
    assert!(pick_server(&cfg, &Vec::new(), None, None).is_err());
}

#[test]
fn detection_steps_mark_candidates() {
    let presets = preset_lsp_servers();
    let custom = vec![elixir()];
    let mut candidates = build_candidates(&presets, &custom);
    assert_eq!(candidates.len(), 12);
    assert!(!all_via_manifest(&candidates));
    mark_manifest(&mut candidates, 0);
    observe_file(&mut candidates, ".ex", true);
    observe_file(&mut candidates, ".go", false);
    observe_file(&mut candidates, ".rs", true);
    assert!(!all_found(&candidates));
    let hits = finish(candidates);
    let got: Vec<(String, bool, bool)> = hits
        .into_iter()
        .map(|h| (h.server_id, h.via_manifest, h.via_extension))
        .collect();
    assert_eq!(
        got,
        vec![
            ("rust-analyzer".to_string(), true, false),
            ("elixir-ls".to_string(), false, true),
        ]
    );
    assert_eq!(file_extension("src/Main.RS").as_deref(), Some(".rs"));
    assert_eq!(file_extension(".gitignore"), None);
    assert_eq!(file_extension("Makefile"), None);
}

#[test]
fn disabled_config_advertises_no_tools() {
    let cfg = default_config();
    assert!(!cfg.enabled);
    let tools = advertised_mcp_tools(&cfg);
    assert!(tools.iter().all(|t| !t.advertised));
    assert!(tools.iter().any(|t| t.name == "goToDefinition"));
    assert!(tools.iter().any(|t| t.name == "codegraph_explore"));
    assert!(!tools.iter().any(|t| t.name == "rust-analyzer"));
}

#[test]
fn master_and_lsp_advertise_facade_not_servers() {
    let mut cfg = default_config();
    cfg.enabled = true;
    cfg.lsp.auto_attach = true;
    cfg.codegraph.enabled = false;
    let tools = advertised_mcp_tools(&cfg);
    assert!(tools.iter().filter(|t| t.group == "lsp").all(|t| t.advertised));
    assert!(tools
        .iter()
        .filter(|t| t.group == "codegraph")
        .all(|t| !t.advertised));
}

#[test]
fn tool_names_and_aliases() {
    assert!(lsp_tool_aliases("definition"));
    assert!(lsp_tool_aliases("servers"));
    assert!(!lsp_tool_aliases("codegraph_explore"));
    assert_eq!(normalize_lsp_name("workspace_symbol"), "workspaceSymbol");
    assert_eq!(normalize_lsp_name("hover"), "hover");
    assert_eq!(format_ids(&Vec::new()), "(none)");
    assert_eq!(format_ids(&vec!["a".to_string(), "b".to_string()]), "a, b");
}

#[test]
fn parse_stdio_bridge_url_reads_flag() {
    let url = parse_stdio_bridge_url(vec![
        "codeg".into(),
        "--code-intel-mcp-stdio".into(),
        "--url".into(),
        "http://127.0.0.1:9/mcp".into(),
    ]);
    assert_eq!(url.as_deref(), Some("http://127.0.0.1:9/mcp"));
    assert!(parse_stdio_bridge_url(vec!["codeg".into()]).is_none());
}

#[test]
fn bridge_url_needs_a_value() {
    assert!(parse_stdio_bridge_url(vec![
        "--code-intel-mcp-stdio".into(),
        "--url".into(),
        "  ".into(),
    ])
    .is_none());
    assert!(parse_stdio_bridge_url(vec!["--code-intel-mcp-stdio".into(), "--url".into()]).is_none());
}

#[test]
fn lsp_calls_read_path_query_and_position() {
    let args = parse_json(r#"{"path":" src/main.rs ","line":10,"character":4,"server":"rust-analyzer"}"#).unwrap();
    assert_eq!(
        plan_lsp_call("/work", "definition", &args),
        Ok(LspCall::File {
            op: LspOp::GoToDefinition,
            path: "/work/src/main.rs".to_string(),
            server: Some("rust-analyzer".to_string()),
            line: 9,
            character: 4,
        })
    );
    let abs = parse_json(r#"{"path":"/etc/x.rs"}"#).unwrap();
    assert_eq!(
        plan_lsp_call("/work", "hover", &abs),
        Ok(LspCall::File { op: LspOp::Hover, path: "/etc/x.rs".to_string(), server: None, line: 0, character: 0 })
    );
    let empty = parse_json("{}").unwrap();
    assert_eq!(plan_lsp_call("/work", "servers", &empty), Ok(LspCall::Servers));
    assert_eq!(plan_lsp_call("/work", "hover", &empty), Err("path required".to_string()));
    assert_eq!(
        plan_lsp_call("/work", "workspace_symbol", &empty),
        Err("query required for workspaceSymbol".to_string())
    );
    let q = parse_json(r#"{"query":"  Foo "}"#).unwrap();
    assert_eq!(
        plan_lsp_call("/work", "workspaceSymbol", &q),
        Ok(LspCall::WorkspaceSymbol { path: None, query: "Foo".to_string(), server: None })
    );
    assert!(matches!(
        plan_lsp_call("/work", "rename", &abs),
        Ok(LspCall::File { op: LspOp::Unsupported, .. })
    ));
    let zero = parse_json(r#"{"path":"a","line":0}"#).unwrap();
    assert_eq!(position(&zero), (0, 0));
}

#[test]
fn server_starts_respect_eligibility_epoch_and_cap() {
    let eligible = vec!["rust-analyzer".to_string(), "gopls".to_string()];
    let running = vec!["gopls".to_string()];
    assert_eq!(
        admit_server_start(&eligible, "pyright", false, &running, 1, 1, 2),
        Err("server not eligible".to_string())
    );
    assert_eq!(
        admit_server_start(&eligible, "rust-analyzer", true, &running, 1, 1, 2),
        Err("lsp cancelled".to_string())
    );
    assert_eq!(admit_server_start(&eligible, "gopls", false, &running, 1, 1, 2), Ok(true));
    assert_eq!(
        admit_server_start(&eligible, "rust-analyzer", false, &running, 1, 2, 2),
        Err("lsp cancelled".to_string())
    );
    assert_eq!(admit_server_start(&eligible, "rust-analyzer", false, &running, 1, 1, 2), Ok(false));
    assert_eq!(
        admit_server_start(&eligible, "rust-analyzer", false, &running, 1, 1, 1),
        Err("LSP concurrency limit (1) reached".to_string())
    );
    assert_eq!(
        admit_server_start(&eligible, "rust-analyzer", false, &running, 1, 1, 0),
        Err("LSP concurrency limit (1) reached".to_string())
    );
    assert_eq!(settle_spawned_server(&running, "gopls", 1, 1, false, 2), SpawnedServer::Duplicate);
    assert_eq!(
        settle_spawned_server(&running, "rust-analyzer", 1, 1, true, 2),
        SpawnedServer::Reject("lsp cancelled".to_string())
    );
    assert_eq!(
        settle_spawned_server(&running, "rust-analyzer", 1, 1, false, 1),
        SpawnedServer::Reject("LSP concurrency limit (1) reached".to_string())
    );
    assert_eq!(settle_spawned_server(&running, "rust-analyzer", 1, 1, false, 2), SpawnedServer::Keep);
}

#[test]
fn walk_steps_stop_at_the_budget_or_once_all_are_found() {
    let mut candidates = build_candidates(&Vec::new(), &vec![elixir()]);
    assert_eq!(candidates.len(), 1);
    assert_eq!(detect_step(&mut candidates, "/w", 5001, "/w/lib/a.ex", true), DetectAction::Stop);
    assert!(!all_found(&candidates));
    assert_eq!(detect_step(&mut candidates, "/w", 1, "/w/mix.exs", true), DetectAction::Continue);
    assert!(!all_found(&candidates));
    assert_eq!(detect_step(&mut candidates, "/w", 2, "/w/README", true), DetectAction::Continue);
    assert_eq!(detect_step(&mut candidates, "/w", 3, "/w/lib/a.ex", false), DetectAction::Continue);
    assert!(!all_found(&candidates));
    assert_eq!(detect_step(&mut candidates, "/w", 5000, "/w/lib/A.EX", true), DetectAction::Stop);
    let hits = finish(candidates);
    assert_eq!(hits.len(), 1);
    assert_eq!(hits[0].server_id, "elixir-ls");
    assert!(hits[0].via_extension && !hits[0].via_manifest);
}
