use nifty::dirs::Dirs;
use nifty::init::{
    config_candidates, config_file_path, esbuild_config_text, find_config_file, handle_defs_symlinks,
    instance_name_ok, setinstance, setinstance_reminder, shell_kind, swcrc_text, OsKind, ShellKind,
};

fn dirs() -> Dirs {
    Dirs {
        tmp: "/t/".to_string(),
        main_client: "/c/".to_string(),
        main_server: "/s/".to_string(),
        instance_client: "/ic/".to_string(),
        instance_server: "/is/".to_string(),
        chrome_overrides: "/co/".to_string(),
    }
}

fn strs(v: &[&str]) -> Vec<String> {
    v.iter().map(|s| s.to_string()).collect()
}

#[test]
fn instance_names_need_three_bytes() {
    assert!(!instance_name_ok("ab"));
    assert!(instance_name_ok("abc"));
}

#[test]
fn profile_selector_line_is_rewritten() {
    assert_eq!(setinstance("a\nexport NIFTY_INSTANCE=old\nb\n", "new"), "a\nexport NIFTY_INSTANCE=new\nb");
    assert_eq!(setinstance("x=1\r\ny", "new"), "x=1\ny");
    assert_eq!(setinstance("", "new"), "");
    assert_eq!(setinstance_reminder("/home/u/.zshrc"), "Remember to run 'source ~/.zshrc' to apply changes");
}

#[test]
fn definition_links_use_configured_directories() {
    let profile = "export NIFTY_INSTANCE=shop\nexport NIFTY_INSTANCE_SHOP_SERVER_DIR=\"/is/\"\nexport NIFTY_INSTANCE_SHOP_CLIENT_DIR=/ic\n";
    let links = handle_defs_symlinks(&dirs(), "shop", profile);
    assert_eq!(
        links,
        vec![
            ("/s/src/defs.ts".to_string(), "/c/defs_server_symlink.ts".to_string()),
            ("/s/src/defs.ts".to_string(), "/is/defs_server_symlink.ts".to_string()),
            ("/s/src/defs.ts".to_string(), "/ic/defs_server_symlink.ts".to_string()),
            ("/is/defs.ts".to_string(), "/ic/defs_instance_server_symlink.ts".to_string()),
            ("/c/defs.ts".to_string(), "/ic/defs_client_symlink.ts".to_string()),
        ]
    );
    let missing = handle_defs_symlinks(&dirs(), "shop", "");
    assert_eq!(missing[1], ("/s/src/defs.ts".to_string(), "defs_server_symlink.ts".to_string()));
}

#[test]
fn profile_choice() {
    assert_eq!(shell_kind("/bin/zsh"), ShellKind::Zsh);
    assert_eq!(shell_kind("/usr/local/bin/fish"), ShellKind::Fish);
    assert_eq!(shell_kind("/bin/bash"), ShellKind::Bash);
    assert_eq!(shell_kind(""), ShellKind::Unknown);
    assert_eq!(config_candidates("/h", OsKind::Linux, ShellKind::Bash), strs(&["/h/.bashrc", "/h/.profile"]));
    assert_eq!(config_candidates("/h", OsKind::MacOs, ShellKind::Zsh), strs(&["/h/.zprofile", "/h/.zshrc", "/h/.profile"]));
    assert_eq!(config_candidates("/h", OsKind::MacOs, ShellKind::Fish), strs(&["/h/.profile", "/h/.bashrc"]));
    assert_eq!(config_candidates("/h", OsKind::Linux, ShellKind::Fish), strs(&["/h/.config/fish/config.fish"]));
    let c = strs(&["/h/.zshrc", "/h/.profile"]);
    assert_eq!(find_config_file("/h", &c, &vec![false, true]), "/h/.profile");
    assert_eq!(find_config_file("/h", &c, &vec![true, true]), "/h/.zshrc");
    assert_eq!(find_config_file("/h", &strs(&["/h/.bashrc"]), &vec![false]), "/h/.profile");
}

#[test]
fn tool_configurations() {
    let script = esbuild_config_text("/t/");
    assert!(script.contains("const files_instructions_path_str = '/t/filestobundle.json'"));
    assert!(script.starts_with("\n        import * as esbuild from 'esbuild';"));
    let swcrc: serde_json::Value = serde_json::from_str(&swcrc_text()).unwrap();
    assert_eq!(swcrc["jsc"]["parser"]["syntax"], "typescript");
    assert_eq!(swcrc["module"]["type"], "es6");
    assert_eq!(config_file_path(&dirs(), "esbuild.config.mjs"), "/t/configs/esbuild.config.mjs");
}
