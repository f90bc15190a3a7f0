use nova::builder::{ImageBuilder, Instruction, Novafile, ParseError};

#[test]
fn parse_a_full_manifest() {
    let text = "# build recipe\nFROM alpine\n\nCOPY src /app\nENV MODE=fast\nCMD [\"run\", \"--now\"]\nEXPOSE 8080\nWORKDIR /app\nLABEL version=\"1.0\"\n";
    let nf = Novafile::parse(text).expect("the manifest is well formed");
    assert_eq!(nf.instructions.len(), 7);
    match &nf.instructions[0] {
        Instruction::From(base) => assert_eq!(base, "alpine"),
        _ => panic!("expected FROM"),
    }
    match &nf.instructions[1] {
        Instruction::Copy { src, dst } => {
            assert_eq!(src, "src");
            assert_eq!(dst, "/app");
        }
        _ => panic!("expected COPY"),
    }
    match &nf.instructions[2] {
        Instruction::Env { key, value } => {
            assert_eq!(key, "MODE");
            assert_eq!(value, "fast");
        }
        _ => panic!("expected ENV"),
    }
    match &nf.instructions[3] {
        Instruction::Cmd(cmd) => assert_eq!(cmd, &vec!["run".to_string(), "--now".to_string()]),
        _ => panic!("expected CMD"),
    }
    match &nf.instructions[4] {
        Instruction::Expose(port) => assert_eq!(*port, 8080),
        _ => panic!("expected EXPOSE"),
    }
    match &nf.instructions[5] {
        Instruction::Workdir(dir) => assert_eq!(dir, "/app"),
        _ => panic!("expected WORKDIR"),
    }
    match &nf.instructions[6] {
        Instruction::Label { key, value } => {
            assert_eq!(key, "version");
            assert_eq!(value, "1.0");
        }
        _ => panic!("expected LABEL"),
    }
}

#[test]
fn shell_form_cmd_splits_on_whitespace() {
    let nf = Novafile::parse("CMD run  --fast now").unwrap();
    match &nf.instructions[0] {
        Instruction::Cmd(cmd) => {
            assert_eq!(cmd, &vec!["run".to_string(), "--fast".to_string(), "now".to_string()])
        }
        _ => panic!("expected CMD"),
    }
}

#[test]
fn keywords_ignore_ascii_case() {
    let nf = Novafile::parse("from alpine\nwOrKdIr /srv").unwrap();
    assert_eq!(nf.instructions.len(), 2);
    match &nf.instructions[1] {
        Instruction::Workdir(dir) => assert_eq!(dir, "/srv"),
        _ => panic!("expected WORKDIR"),
    }
}

#[test]
fn each_error_has_its_input() {
    assert_eq!(Novafile::parse("FROM").unwrap_err(), ParseError::MissingArgument);
    assert_eq!(Novafile::parse("COPY onlyone").unwrap_err(), ParseError::CopyArity);
    assert_eq!(Novafile::parse("COPY a b c").unwrap_err(), ParseError::CopyArity);
    assert_eq!(Novafile::parse("ENV novalue").unwrap_err(), ParseError::EnvFormat);
    assert_eq!(Novafile::parse("CMD [\"unterminated").unwrap_err(), ParseError::CmdJson);
    assert_eq!(Novafile::parse("EXPOSE notaport").unwrap_err(), ParseError::BadPort);
    assert_eq!(Novafile::parse("EXPOSE 70000").unwrap_err(), ParseError::BadPort);
    assert_eq!(Novafile::parse("LABEL bare").unwrap_err(), ParseError::LabelFormat);
    assert_eq!(Novafile::parse("TELEPORT now").unwrap_err(), ParseError::UnknownInstruction);
}

#[test]
fn comments_and_blanks_are_skipped() {
    let nf = Novafile::parse("\n   \n# only a comment\n  # another\n").unwrap();
    assert_eq!(nf.instructions.len(), 0);
}

#[test]
fn ports_parse_like_std() {
    let nf = Novafile::parse("EXPOSE +443").unwrap();
    match &nf.instructions[0] {
        Instruction::Expose(port) => assert_eq!(*port, 443),
        _ => panic!("expected EXPOSE"),
    }
    assert!(Novafile::parse("EXPOSE 65535").is_ok());
    assert_eq!(Novafile::parse("EXPOSE 65536").unwrap_err(), ParseError::BadPort);
    assert_eq!(Novafile::parse("EXPOSE +").unwrap_err(), ParseError::BadPort);
}

#[test]
fn metadata_folds_the_instructions() {
    let text = "FROM scratch\nFROM alpine\nENV A=1\nENV B=2\nCMD [\"a\"]\nCMD [\"b\"]\nEXPOSE 80\nEXPOSE 443\nWORKDIR /srv\nLABEL k=v";
    let b = ImageBuilder::new(text, ".", "demo:1".to_string()).unwrap();
    let md = b.metadata();
    assert_eq!(md.tag, "demo:1");
    assert_eq!(md.base, "alpine");
    assert_eq!(
        md.env,
        vec![("A".to_string(), "1".to_string()), ("B".to_string(), "2".to_string())]
    );
    assert_eq!(md.cmd, vec!["b".to_string()]);
    assert_eq!(md.expose, vec![80, 443]);
    assert_eq!(md.workdir, "/srv");
    assert_eq!(md.labels, vec![("k".to_string(), "v".to_string())]);
}

#[test]
fn metadata_defaults_without_instructions() {
    let b = ImageBuilder::new("# empty\n", "ctx", "empty:0".to_string()).unwrap();
    let md = b.metadata();
    assert_eq!(md.base, "scratch");
    assert_eq!(md.workdir, "/");
    assert!(md.env.is_empty());
    assert!(md.cmd.is_empty());
    assert!(md.expose.is_empty());
    assert!(md.labels.is_empty());
}

#[test]
fn copy_steps_in_order() {
    let text = "FROM a\nCOPY one /1\nENV X=y\nCOPY two /2";
    let b = ImageBuilder::new(text, ".", "t:1".to_string()).unwrap();
    assert_eq!(
        b.copy_steps(),
        vec![("one".to_string(), "/1".to_string()), ("two".to_string(), "/2".to_string())]
    );
}

#[test]
fn builder_new_reports_parse_errors() {
    assert_eq!(
        ImageBuilder::new("EXPOSE zero", ".", "t:1".to_string()).unwrap_err(),
        ParseError::BadPort
    );
}
