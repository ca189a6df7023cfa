//! Text-format tests: project-name validation, hex and decimal rendering,
//! assignment documents and their parser, flakes, and the login texts.

use miniapp_factory::auth::{auth_message, encode_signature};
use miniapp_factory::json::{coder_assignment_json, imagegen_assignment_json, parse_git_hash};
use miniapp_factory::projects::{AccountAssociation, BaseBuild, DatabaseProject};
use miniapp_factory::runner::{initial_os_config, vm_name, coder_chat_path, CoderOutput};
use miniapp_factory::textutil::{hex_encode, i64_string, replace_char, u64_string};
use miniapp_factory::validation::valid_project;

#[test]
fn valid_project_accepts_dns_labels() {
    assert!(valid_project("demo"));
    assert!(valid_project("a"));
    assert!(valid_project("a-b"));
    assert!(valid_project("abc-123-def"));
    assert!(valid_project(&"a".repeat(63)));
}

#[test]
fn valid_project_rejects_bad_names() {
    assert!(!valid_project(""));
    assert!(!valid_project("Demo"));
    assert!(!valid_project("-a"));
    assert!(!valid_project("a-"));
    assert!(!valid_project("a_b"));
    assert!(!valid_project("a.b"));
    assert!(!valid_project(&"a".repeat(64)));
}

#[test]
fn hex_encodes_lowercase_pairs() {
    assert_eq!(hex_encode(&[]), "");
    assert_eq!(hex_encode(&[0x00, 0xff, 0x1a]), "00ff1a");
}

#[test]
fn decimal_rendering() {
    assert_eq!(u64_string(0), "0");
    assert_eq!(u64_string(7), "7");
    assert_eq!(u64_string(1234567890123456789), "1234567890123456789");
    assert_eq!(i64_string(-5), "-5");
    assert_eq!(i64_string(i64::MIN), "-9223372036854775808");
    assert_eq!(i64_string(42), "42");
}

#[test]
fn replace_char_replaces_all() {
    assert_eq!(replace_char("a\"b\"c", '"', "\\\""), "a\\\"b\\\"c");
    assert_eq!(replace_char("abc", 'x', "y"), "abc");
}

#[test]
fn coder_assignment_document_is_exact() {
    let doc = coder_assignment_json("demo", "make it blue", &Some("v1".to_string()));
    assert_eq!(
        doc,
        "{\"project\":\"demo\",\"instructions\":\"make it blue\",\"version\":\"v1\"}"
    );
    let doc = coder_assignment_json("demo", "say \"hi\"\nplease", &None);
    assert_eq!(
        doc,
        "{\"project\":\"demo\",\"instructions\":\"say \\\"hi\\\"\\nplease\",\"version\":null}"
    );
}

#[test]
fn imagegen_assignment_document_is_exact() {
    assert_eq!(imagegen_assignment_json("demo"), "{\"project\":\"demo\"}");
}

#[test]
fn parse_git_hash_round_trips() {
    assert_eq!(parse_git_hash("{\"git_hash\":\"abc\"}"), Some("abc".to_string()));
    assert_eq!(
        parse_git_hash("{ \"extra\" : \"1\" , \"git_hash\" : \"def\" }"),
        Some("def".to_string())
    );
    assert_eq!(
        parse_git_hash("{\"git_hash\":\"a\\\\b\\\"c\\n\"}"),
        Some("a\\b\"c\n".to_string())
    );
    assert_eq!(parse_git_hash("{\"git_hash\":\"\\u0009x\"}"), Some("\tx".to_string()));
}

#[test]
fn parse_git_hash_rejects_other_documents() {
    assert_eq!(parse_git_hash(""), None);
    assert_eq!(parse_git_hash("{}"), None);
    assert_eq!(parse_git_hash("{\"other\":\"x\"}"), None);
    assert_eq!(parse_git_hash("{\"git_hashx\":\"abc\"}"), None);
    assert_eq!(parse_git_hash("[\"git_hash\"]"), None);
    assert_eq!(parse_git_hash("{\"git_hash\":\"abc\""), None);
    assert_eq!(parse_git_hash("{\"git_hash\":\"abc\"} trailing"), None);
    assert_eq!(parse_git_hash("{\"git_hash\":\"\\q\"}"), None);
    assert_eq!(parse_git_hash("{\"git_hash\":\"\\u0101\"}"), None);
    assert_eq!(parse_git_hash("{\"git_hash\":42}"), None);
}

#[test]
fn coder_output_parses_hash() {
    let out = CoderOutput::parse("{\"git_hash\":\"abc\"}").unwrap();
    assert_eq!(out.git_hash, "abc");
    assert!(CoderOutput::parse("not json").is_none());
}

#[test]
fn flake_embeds_fields_once() {
    let project = DatabaseProject {
        id: 1,
        name: "demo".to_string(),
        owner: "eth:aa".to_string(),
        account_association: Some(AccountAssociation {
            header: "H1".to_string(),
            payload: "PAY1".to_string(),
            signature: "S1".to_string(),
        }),
        base_build: Some(BaseBuild {
            allowed_addresses: vec!["0xA".to_string(), "0xB".to_string()],
        }),
        version: Some("v7".to_string()),
        nft_mint: None,
    };
    let flake = project.get_flake();
    assert_eq!(
        flake.matches("github:miniapp-factory/demo/v7").count(),
        1,
        "source url with version appears once"
    );
    assert_eq!(flake.matches("https://demo.miniapp-factory.marketplace.openxai.network").count(), 1);
    assert_eq!(flake.matches("header = \"H1\";").count(), 1);
    assert_eq!(flake.matches("payload = \"PAY1\";").count(), 1);
    assert_eq!(flake.matches("signature = \"S1\";").count(), 1);
    assert_eq!(flake.matches("allowedAddresses = [ \"0xA\" \"0xB\" ];").count(), 1);
}

#[test]
fn flake_uses_empty_placeholders_when_fields_absent() {
    let with_empty = DatabaseProject {
        id: 1,
        name: "demo".to_string(),
        owner: "eth:aa".to_string(),
        account_association: Some(AccountAssociation {
            header: String::new(),
            payload: String::new(),
            signature: String::new(),
        }),
        base_build: Some(BaseBuild { allowed_addresses: vec![] }),
        version: None,
        nft_mint: None,
    };
    let without = DatabaseProject {
        id: 1,
        name: "demo".to_string(),
        owner: "eth:aa".to_string(),
        account_association: None,
        base_build: None,
        version: None,
        nft_mint: None,
    };
    assert_eq!(with_empty.get_flake(), without.get_flake());
    let flake = without.get_flake();
    assert_eq!(flake.matches("github:miniapp-factory/demo\";").count(), 1);
    assert_eq!(flake.matches("header = \"\";").count(), 1);
    assert_eq!(flake.matches("allowedAddresses = [  ];").count(), 1);
}

#[test]
fn auth_message_is_exact() {
    assert_eq!(
        auth_message("manager.xnode.local", 1700000000),
        "Xnode Auth authenticate manager.xnode.local at 1700000000"
    );
}

#[test]
fn signature_encoding_is_exact() {
    let r = [0x11u8; 32];
    let s = [0x22u8; 32];
    let expected = format!("0x{}{}1b", "11".repeat(32), "22".repeat(32));
    assert_eq!(encode_signature(&r, &s, 0x1b), expected);
}

#[test]
fn initial_os_config_matches_replace_chain() {
    let base = "nixpkgs.config.allowUnfree = true;\nhardware.graphics = { enable = true; extraPackages = [ pkgs.nvidia-vaapi-driver ]; };\nhardware.nvidia.open = true;\nservices.xserver.videoDrivers = [ \"nvidia\" ];";
    let expected = base
        .replace("\"", "\\\"")
        .replace("\n", "\\n")
        .replace("\\", "\\\\\\");
    assert_eq!(initial_os_config(), expected);
}

#[test]
fn worker_paths_and_names() {
    assert_eq!(vm_name("a1b2c3d4e5"), "miniapp-factory-coder-a1b2c3d4e5");
    assert_eq!(
        coder_chat_path("demo"),
        "/var/lib/miniapp-factory-coder/projects/demo/.aider.chat.history.md"
    );
}
