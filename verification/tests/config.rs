use bedrock::language::{BuiltInLanguage, Language, Version};
use bedrock::Config;
use std::io::Cursor;

const EXAMPLE_ONE_CONTENT: &str = r#"
port = 8517

[languages]
python3 = "latest"
java = "21"
ocaml = { build = "ocamlc -o out solution.ml", run = "./out", source_file = "solution.ml" }

[accounts]
admins = [{ name = "host", password = "SECRET-REDACTED" }]
competitors = [{ name = "team1", password = "SECRET-REDACTED" }]

[packet]
title = "Example Packet"
preamble = '''
Welcome to the competition.
'''

[[packet.problems]]
title = "Hello"
description = "Print `hello`."
tests = [{ input = "", output = "hello", visible = true }]

[test_runner]
timeout_ms = 5000
max_memory = 512
"#;

#[test]
fn packets_parse_correctly() {
    Config::from_str(EXAMPLE_ONE_CONTENT, Some("Cargo.toml")).unwrap();
}

#[test]
fn packet_files_parse_correctly() {
    let mut file = Cursor::new(EXAMPLE_ONE_CONTENT);
    let config = Config::read(&mut file, Some("Cargo.toml")).unwrap();
    let languages = config.languages.value().unwrap();

    assert_eq!(
        Some(&Language::BuiltIn {
            language: BuiltInLanguage::Python3,
            version: Version::Latest
        }),
        languages.get_by_str(&"python3")
    );

    assert_eq!(
        Some(&Language::BuiltIn {
            language: BuiltInLanguage::Java,
            version: Version::Specific("21".into())
        }),
        languages.get_by_str(&"java")
    );

    assert_eq!(
        Some(&Language::Custom {
            raw_name: "ocaml".into(),
            name: "ocaml".into(),
            build: Some("ocamlc -o out solution.ml".into()),
            run: "./out".into(),
            source_file: "solution.ml".into()
        }),
        languages.get_by_str(&"ocaml")
    );
}

#[test]
fn default_config() {
    let _ = Config::default();
}

#[test]
fn default_config_hash_string() {
    let config = Config::default();
    assert_eq!("48t1ucrxnj5x", config.hash());
}

#[test]
fn parsed_defaults_apply() {
    let config = Config::from_str(
        "[languages]\npython3 = \"latest\"\n[packet]\ntitle = \"T\"\n",
        None,
    )
    .unwrap();
    assert_eq!(8517, config.port);
    let runner = config.test_runner.value().unwrap();
    assert_eq!(10000, runner.timeout);
    assert!(runner.trim_output);
    assert!(runner.copy_files.is_empty());
    assert!(runner.max_memory.compile().is_none());
    assert!(runner.max_memory.run().is_none());
    let accounts = config.accounts.value().unwrap();
    assert!(accounts.admins.is_empty());
    assert!(accounts.competitors.is_empty());
}

#[test]
fn unknown_key_is_rejected() {
    let r = Config::from_str(
        "[languages]\npython3 = \"latest\"\n[packet]\ntitle = \"T\"\nnonsense = 1\n",
        None,
    );
    assert!(r.is_err());
}

#[test]
fn unknown_language_is_rejected() {
    let r = Config::from_str(
        "[languages]\ncobol = \"latest\"\n[packet]\ntitle = \"T\"\n",
        None,
    );
    match r {
        Err(bedrock::ConfigReadError::MalformedData { message, .. }) => {
            assert!(message.contains("Unknown built-in language"));
            assert!(message.contains("'python3', 'java', 'javascript', 'rust'"));
        }
        other => panic!("expected a malformed-data error, got {:?}", other),
    }
}

#[test]
fn unknown_version_is_rejected() {
    let r = Config::from_str(
        "[languages]\njava = \"9\"\n[packet]\ntitle = \"T\"\n",
        None,
    );
    match r {
        Err(bedrock::ConfigReadError::MalformedData { message, .. }) => {
            assert!(message.contains("version"));
            assert!(message.contains("'8', '11', '21'"));
        }
        other => panic!("expected a malformed-data error, got {:?}", other),
    }
}

#[test]
fn syntax_error_carries_span_info() {
    let r = Config::from_str("port = = 1", Some("broken.toml"));
    match r {
        Err(bedrock::ConfigReadError::MalformedData { file, .. }) => {
            assert_eq!(Some("broken.toml".to_string()), file);
        }
        other => panic!("expected a malformed-data error, got {:?}", other),
    }
}

#[test]
fn command_config_shapes() {
    let config = Config::from_str(
        "[languages]\npython3 = \"latest\"\n[packet]\ntitle = \"T\"\n[test_runner]\nmax_memory = 512\nmax_file_size = { compile = 1, run = 2 }\n",
        None,
    )
    .unwrap();
    let runner = config.test_runner.value().unwrap();
    assert_eq!(Some(&512), runner.max_memory.compile());
    assert_eq!(Some(&512), runner.max_memory.run());
    assert_eq!(Some(&1), runner.max_file_size.compile());
    assert_eq!(Some(&2), runner.max_file_size.run());
}

#[test]
fn built_in_language_commands() {
    let latest = Version::Latest;
    assert_eq!("python3 ./solution.py", BuiltInLanguage::Python3.run_command(&latest));
    assert_eq!(None, BuiltInLanguage::Python3.build_command(&latest));
    assert_eq!(
        Some("javac Solution.java"),
        BuiltInLanguage::Java.build_command(&Version::Specific("8".into()))
    );
    assert_eq!(
        Some("dnf install java-11-openjdk-devel"),
        BuiltInLanguage::Java.install_command(&Version::Specific("11".into()))
    );
    assert_eq!(
        Some("dnf install java-21-openjdk-devel"),
        BuiltInLanguage::Java.install_command(&latest)
    );
    assert_eq!(None, BuiltInLanguage::Rust.init_command(&latest));
    assert_eq!("Solution.java", BuiltInLanguage::Java.source_file());
    assert_eq!("JavaScript", BuiltInLanguage::JavaScript.name());
    assert!(BuiltInLanguage::Java.has_version(&Version::Specific("11".into())).is_ok());
    assert_eq!(
        Err(vec!["8", "11", "21"]),
        BuiltInLanguage::Java.has_version(&Version::Specific("9".into()))
    );
    assert_eq!(
        "'python3', 'java', 'javascript', 'rust'",
        BuiltInLanguage::joined_variants()
    );
}

#[test]
fn language_set_serializes_and_reparses() {
    let config = Config::from_str(
        "[languages]\npython3 = \"latest\"\njava = \"21\"\nocaml = { build = \"b\", run = \"r\", source_file = \"s.ml\" }\n[packet]\ntitle = \"T\"\n",
        None,
    )
    .unwrap();
    let languages = config.languages.value().unwrap();
    let written = languages.to_toml();
    let reread = bedrock::from_toml::language_set_from_toml(&written).unwrap();
    assert_eq!(languages.len(), reread.len());
    assert_eq!(
        languages.get_by_str("java"),
        reread.get_by_str("java")
    );
    assert_eq!(
        languages.get_by_str("ocaml"),
        reread.get_by_str("ocaml")
    );
    assert_eq!(
        languages.get_by_str("python3"),
        reread.get_by_str("python3")
    );
}

struct BrokenReader;

impl std::io::Read for BrokenReader {
    fn read(&mut self, _buf: &mut [u8]) -> std::io::Result<usize> {
        Err(std::io::Error::other("broken pipe"))
    }
}

#[test]
fn failing_reader_reports_a_read_error() {
    let r = Config::read(&mut BrokenReader, None);
    assert!(matches!(r, Err(bedrock::ConfigReadError::ReadError(_))));
}

#[test]
fn float_values_are_rejected() {
    let r = Config::from_str(
        "port = 80\nweight = 1.5\n[languages]\npython3 = \"latest\"\n[packet]\ntitle = \"T\"\n",
        None,
    );
    assert!(r.is_err());
}

#[test]
fn overly_deep_nesting_is_rejected() {
    let mut value = String::from("x = ");
    for _ in 0..80 {
        value.push('[');
    }
    value.push('1');
    for _ in 0..80 {
        value.push(']');
    }
    let r = Config::from_str(&value, None);
    assert!(r.is_err());
}

#[test]
fn out_of_range_port_is_rejected() {
    let r = Config::from_str(
        "port = 70000\n[languages]\npython3 = \"latest\"\n[packet]\ntitle = \"T\"\n",
        None,
    );
    assert!(r.is_err());
}

#[test]
fn duplicate_problem_languages_collapse() {
    let config = Config::from_str(
        "[languages]\npython3 = \"latest\"\n[packet]\ntitle = \"T\"\n[[packet.problems]]\ntitle = \"P\"\nlanguages = [\"python3\", \"rust\", \"python3\"]\ntests = []\n",
        None,
    )
    .unwrap();
    let packet = config.packet.value().unwrap();
    let problem = packet.problems[0].value().unwrap();
    assert_eq!(
        Some(&vec!["python3".to_string(), "rust".to_string()]),
        problem.languages.as_ref()
    );
}
