use bedrock::Config;

#[test]
fn port_diff() {
    let mut a = Config::default();
    a.port = 69;

    let mut b = Config::default();
    b.port = 420;

    assert_eq!(a.hash(), b.hash());
}

#[test]
fn whitespace_diff() {
    let a = Config::from_str(
        r#"
port = 80
[languages]
python3 = "latest"
java = "21"
ocaml = { build = "ocamlc -o out solution.ml", run = "./out", source_file = "solution.ml" }

# Specify information about the packet itself
[packet]
# import = "./packet.toml"
title = "Example Packet"
preamble = '''
...
'''"#,
        None,
    )
    .unwrap();

    let b = Config::from_str(
        r#"
port = 80
# Specify information a
[packet]
# import = "./packet.toml"
title = "Example Packet"
preamble = '''
...
'''

[languages]
python3 = "latest"
java = "21"
ocaml = { build = "ocamlc -o out solution.ml", run = "./out", source_file = "solution.ml" }




"#,
        None,
    )
    .unwrap();

    assert_eq!(a.hash(), b.hash());
}

#[test]
fn parsed_value_changes_hash() {
    let a = Config::from_str("[languages]\npython3 = \"latest\"\n[packet]\ntitle = \"T\"\n", None)
        .unwrap();
    let b = Config::from_str("[languages]\npython3 = \"latest\"\n[packet]\ntitle = \"U\"\n", None)
        .unwrap();
    assert_ne!(a.hash(), b.hash());
}
