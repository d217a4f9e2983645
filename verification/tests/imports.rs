use bedrock::roi::RawOrImport;
use bedrock::Config;

const FILE: &str = r#"
port = 80

[languages]
python3 = "latest"

[setup]
import = "./setup.toml"

[packet]
title = "Imported"
"#;

#[test]
fn parse() {
    Config::from_str(FILE, Some("imports.toml")).unwrap();
}

#[test]
fn parse_keeps_import_path() {
    let config = Config::from_str(FILE, Some("imports.toml")).unwrap();
    match config.setup {
        Some(RawOrImport::Import(path, _)) => assert_eq!("./setup.toml", path),
        other => panic!("expected an unresolved import, got {:?}", other),
    }
}

#[test]
fn nested_import_in_setup_is_kept() {
    let config = Config::from_str(
        "[languages]\npython3 = \"latest\"\n[packet]\ntitle = \"T\"\n[setup]\ninstall = { import = \"./install.sh\" }\n",
        None,
    )
    .unwrap();
    let setup = match config.setup {
        Some(RawOrImport::Value(s)) => s,
        other => panic!("expected an in-place setup, got {:?}", other),
    };
    match setup.install {
        Some(RawOrImport::Import(path, _)) => assert_eq!("./install.sh", path),
        other => panic!("expected an unresolved install import, got {:?}", other),
    }
}
