use talos::vault::{
    build_key_parameters, parse_mode, process_gpg, respond, resume_gpg, Answer, Carrier,
    CryptTask, GpgCall, GpgOutcome, Mode, Pending, SealState, Step, Vault, VaultError,
};

const ID: &str = "admin@talos.local";

fn task(mode: &str, payload: &str) -> CryptTask {
    CryptTask { payload: payload.to_string(), mode: mode.to_string(), passphrase: None }
}

fn outcome(success: bool, stdout: &str) -> GpgOutcome {
    GpgOutcome { carrier_written: true, success, stdout: stdout.to_string() }
}

fn words(list: &[&str]) -> Vec<String> {
    list.iter().map(|s| s.to_string()).collect()
}

/// Serves a request against a keyring that holds an identity or not, with an
/// engine that succeeds and prints `stdout`.
fn serve(vault: &mut Vault, keyring: &mut bool, t: &CryptTask, stdout: &str) -> String {
    let mut step = process_gpg(vault, t, ID);
    loop {
        match step {
            Step::Reply(answer) => return respond(answer).result,
            Step::Call(_, pending) => {
                let out = match pending {
                    Pending::ProbeForCheck | Pending::ProbeForInitialize
                    | Pending::ProbeForImport => outcome(*keyring, ""),
                    Pending::Generate | Pending::Import => {
                        *keyring = true;
                        outcome(true, "")
                    }
                    Pending::Export | Pending::Crypt => outcome(true, stdout),
                };
                step = resume_gpg(vault, t, ID, pending, out);
            }
        }
    }
}

#[test]
fn initialize_then_check_then_initialize_again() {
    let mut vault = Vault::new();
    let mut keyring = false;
    assert_eq!(serve(&mut vault, &mut keyring, &task("check", ""), ""), "UNINITIALIZED");
    assert_eq!(serve(&mut vault, &mut keyring, &task("initialize", "hunter2"), ""), "INITIALIZED");
    assert_eq!(serve(&mut vault, &mut keyring, &task("check", ""), ""), "UNSEALED");
    assert_eq!(
        serve(&mut vault, &mut keyring, &task("initialize", "other"), ""),
        "ERROR_ALREADY_INIT"
    );
    assert_eq!(serve(&mut vault, &mut keyring, &task("check", ""), ""), "UNSEALED");
}

#[test]
fn restart_seals_and_unlock_unseals() {
    let mut keyring = true;
    let mut vault = Vault::new();
    assert!(!vault.is_unsealed());
    assert_eq!(serve(&mut vault, &mut keyring, &task("check", ""), ""), "SEALED");
    assert_eq!(
        serve(&mut vault, &mut keyring, &task("encrypt", "secret"), "x"),
        "ERROR_VAULT_SEALED"
    );
    assert_eq!(
        serve(&mut vault, &mut keyring, &task("decrypt", "blob"), "x"),
        "ERROR_VAULT_SEALED"
    );
    assert_eq!(serve(&mut vault, &mut keyring, &task("unlock", "hunter2"), ""), "VAULT_UNSEALED");
    assert!(vault.is_unsealed());
    assert_eq!(serve(&mut vault, &mut keyring, &task("check", ""), ""), "UNSEALED");
    assert_eq!(serve(&mut vault, &mut keyring, &task("decrypt", "blob"), "plain"), "plain");
}

#[test]
fn check_reports_each_state() {
    let mut vault = Vault::new();
    assert_eq!(vault.check(false), SealState::Uninitialized);
    assert_eq!(vault.check(true), SealState::Sealed);
    vault.unlock("k".to_string());
    assert_eq!(vault.check(true), SealState::Unsealed);
    assert_eq!(vault.check(false), SealState::Uninitialized);
}

#[test]
fn modes_are_read_and_unknown_modes_encrypt() {
    assert_eq!(parse_mode("check"), Mode::Check);
    assert_eq!(parse_mode("initialize"), Mode::Initialize);
    assert_eq!(parse_mode("import"), Mode::Import);
    assert_eq!(parse_mode("unlock"), Mode::Unlock);
    assert_eq!(parse_mode("export_key"), Mode::ExportKey);
    assert_eq!(parse_mode("encrypt"), Mode::Encrypt);
    assert_eq!(parse_mode("decrypt"), Mode::Decrypt);
    assert_eq!(parse_mode("anything"), Mode::Encrypt);
    assert_eq!(parse_mode(""), Mode::Encrypt);
}

#[test]
fn check_probes_the_keyring() {
    let mut vault = Vault::new();
    let step = process_gpg(&mut vault, &task("check", ""), ID);
    assert_eq!(
        step,
        Step::Call(
            GpgCall {
                arguments: words(&["--list-secret-keys", ID]),
                carrier: None,
                input: String::new(),
            },
            Pending::ProbeForCheck,
        )
    );
}

#[test]
fn encrypt_runs_the_engine_with_the_passphrase_in_a_carrier() {
    let mut vault = Vault::new();
    vault.unlock("hunter2".to_string());
    let step = process_gpg(&mut vault, &task("encrypt", "top secret"), ID);
    assert_eq!(
        step,
        Step::Call(
            GpgCall {
                arguments: words(&[
                    "--batch",
                    "--pinentry-mode",
                    "loopback",
                    "-e",
                    "-r",
                    ID,
                    "--armor",
                    "--passphrase-file",
                ]),
                carrier: Some(Carrier {
                    path_prefix: "/dev/shm/gpg_pass_".to_string(),
                    content: "hunter2".to_string(),
                }),
                input: "top secret".to_string(),
            },
            Pending::Crypt,
        )
    );
}

#[test]
fn decrypt_runs_the_engine_with_the_decrypt_flag() {
    let mut vault = Vault::new();
    vault.unlock("hunter2".to_string());
    match process_gpg(&mut vault, &task("decrypt", "blob"), ID) {
        Step::Call(call, Pending::Crypt) => {
            assert_eq!(
                call.arguments,
                words(&["--batch", "--pinentry-mode", "loopback", "-d", "--passphrase-file"])
            );
            assert_eq!(call.input, "blob");
            assert!(!call.arguments.contains(&"hunter2".to_string()));
            assert!(!call.arguments.contains(&"blob".to_string()));
        }
        other => panic!("{:?}", other),
    }
}

#[test]
fn key_parameters_are_exact() {
    assert_eq!(
        build_key_parameters(ID, "hunter2"),
        "Key-Type: RSA\nKey-Length: 4096\nName-Email: admin@talos.local\nExpire-Date: 0\nPassphrase: hunter2\n%commit\n"
    );
}

#[test]
fn initialize_generates_only_without_identity() {
    let mut vault = Vault::new();
    let t = task("initialize", "hunter2");
    assert!(matches!(process_gpg(&mut vault, &t, ID), Step::Call(_, Pending::ProbeForInitialize)));
    let step = resume_gpg(&mut vault, &t, ID, Pending::ProbeForInitialize, outcome(false, ""));
    match step {
        Step::Call(call, Pending::Generate) => {
            assert_eq!(call.arguments, words(&["--batch", "--generate-key"]));
            let carrier = call.carrier.unwrap();
            assert_eq!(carrier.path_prefix, "/tmp/gpg_gen_");
            assert_eq!(carrier.content, build_key_parameters(ID, "hunter2"));
        }
        other => panic!("{:?}", other),
    }
    assert!(!vault.is_unsealed());
}

#[test]
fn failed_generation_retains_nothing() {
    let mut vault = Vault::new();
    let t = task("initialize", "hunter2");
    let step = resume_gpg(&mut vault, &t, ID, Pending::Generate, outcome(false, ""));
    assert_eq!(step, Step::Reply(Answer::Refused(VaultError::Generation)));
    assert!(!vault.is_unsealed());
    let unwritten = GpgOutcome { carrier_written: false, success: true, stdout: String::new() };
    let step = resume_gpg(&mut vault, &t, ID, Pending::Generate, unwritten);
    assert_eq!(step, Step::Reply(Answer::Refused(VaultError::CarrierWrite)));
    assert!(!vault.is_unsealed());
}

#[test]
fn import_is_refused_where_an_identity_exists() {
    let mut vault = Vault::new();
    let mut keyring = true;
    let t = CryptTask {
        payload: "KEY".to_string(),
        mode: "import".to_string(),
        passphrase: Some("pw".to_string()),
    };
    assert_eq!(serve(&mut vault, &mut keyring, &t, ""), "ERROR_ALREADY_INIT");
    assert!(!vault.is_unsealed());
}

#[test]
fn import_stores_the_passphrase_of_the_request() {
    let mut vault = Vault::new();
    let t = CryptTask {
        payload: "KEY".to_string(),
        mode: "import".to_string(),
        passphrase: Some("pw".to_string()),
    };
    let step = resume_gpg(&mut vault, &t, ID, Pending::ProbeForImport, outcome(false, ""));
    match step {
        Step::Call(call, Pending::Import) => {
            assert_eq!(call.arguments, words(&["--batch", "--import"]));
            assert_eq!(
                call.carrier,
                Some(Carrier { path_prefix: "/tmp/gpg_import_".to_string(), content: "KEY".to_string() })
            );
        }
        other => panic!("{:?}", other),
    }
    let step = resume_gpg(&mut vault, &t, ID, Pending::Import, outcome(true, ""));
    assert_eq!(step, Step::Reply(Answer::Initialized));
    assert!(vault.is_unsealed());
    match process_gpg(&mut vault, &task("decrypt", "x"), ID) {
        Step::Call(call, _) => assert_eq!(call.carrier.unwrap().content, "pw"),
        other => panic!("{:?}", other),
    }
    let mut other = Vault::new();
    let step = resume_gpg(&mut other, &t, ID, Pending::Import, outcome(false, ""));
    assert_eq!(step, Step::Reply(Answer::Refused(VaultError::Import)));
    assert!(!other.is_unsealed());
}

#[test]
fn crypto_failure_is_never_an_empty_success() {
    let mut vault = Vault::new();
    vault.unlock("k".to_string());
    let t = task("decrypt", "blob");
    let step = resume_gpg(&mut vault, &t, ID, Pending::Crypt, outcome(true, ""));
    assert_eq!(step, Step::Reply(Answer::Refused(VaultError::CryptoFailure)));
    let step = resume_gpg(&mut vault, &t, ID, Pending::Crypt, outcome(false, "partial"));
    assert_eq!(step, Step::Reply(Answer::Refused(VaultError::CryptoFailure)));
    let step = resume_gpg(&mut vault, &t, ID, Pending::Crypt, outcome(true, "plain"));
    assert_eq!(step, Step::Reply(Answer::Payload("plain".to_string())));
    let unwritten = GpgOutcome { carrier_written: false, success: true, stdout: "x".to_string() };
    let step = resume_gpg(&mut vault, &t, ID, Pending::Crypt, unwritten);
    assert_eq!(step, Step::Reply(Answer::Refused(VaultError::PassphraseCarrier)));
}

#[test]
fn export_returns_what_the_engine_printed() {
    let mut vault = Vault::new();
    let t = task("export_key", "");
    match process_gpg(&mut vault, &t, ID) {
        Step::Call(call, Pending::Export) => {
            assert_eq!(call.arguments, words(&["--export-secret-keys", "--armor", ID]));
        }
        other => panic!("{:?}", other),
    }
    let step = resume_gpg(&mut vault, &t, ID, Pending::Export, outcome(true, "ARMORED"));
    assert_eq!(step, Step::Reply(Answer::Payload("ARMORED".to_string())));
    let step = resume_gpg(&mut vault, &t, ID, Pending::Export, outcome(false, ""));
    assert_eq!(step, Step::Reply(Answer::Payload(String::new())));
}

#[test]
fn answers_have_their_texts() {
    assert_eq!(respond(Answer::Seal(SealState::Uninitialized)).result, "UNINITIALIZED");
    assert_eq!(respond(Answer::Seal(SealState::Sealed)).result, "SEALED");
    assert_eq!(respond(Answer::Seal(SealState::Unsealed)).result, "UNSEALED");
    assert_eq!(respond(Answer::Unlocked).result, "VAULT_UNSEALED");
    assert_eq!(respond(Answer::Initialized).result, "INITIALIZED");
    assert_eq!(respond(Answer::Payload("abc".to_string())).result, "abc");
    assert_eq!(respond(Answer::Refused(VaultError::VaultSealed)).result, "ERROR_VAULT_SEALED");
    assert_eq!(respond(Answer::Refused(VaultError::AlreadyInitialized)).result, "ERROR_ALREADY_INIT");
    assert_eq!(respond(Answer::Refused(VaultError::CryptoFailure)).result, "");
    assert_eq!(respond(Answer::Refused(VaultError::CarrierWrite)).result, "ERROR_WRITE");
    assert_eq!(respond(Answer::Refused(VaultError::Generation)).result, "ERROR_GEN");
    assert_eq!(respond(Answer::Refused(VaultError::Import)).result, "ERROR_IMPORT");
    assert_eq!(respond(Answer::Refused(VaultError::PassphraseCarrier)).result, "ERROR_MEMORY_WRITE");
}
